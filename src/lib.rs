//! A publication cache for a publish/subscribe session: recent publications are
//! kept per key, within a history depth and a ceiling on distinct keys, and
//! replayed to queries by exact key or by wildcard pattern.
pub mod keyexpr;
pub mod cache;
pub mod event_loop;
pub mod publication_cache;
pub mod info;
pub mod laws;
