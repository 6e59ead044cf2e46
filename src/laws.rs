//! What holds of the cache, its loop and its build over any number of steps.
use vstd::prelude::*;
use crate::cache::{cache_wf, history_of, position, pushed, recorded, CacheView, EntryView, SampleView};
use crate::event_loop::{cache_key, query_replies, run, step, EventView, LoopView};
use crate::keyexpr::{has_wildcard, joined};
use crate::publication_cache::{
    advance_spec, begin_spec, held, ActionView, BuildErrorView, BuildStage, BuilderView,
    config_error,
};

verus! {

/// The cache after the samples `ss`, oldest first, are all published under `key`.
pub open spec fn publish_all(c: CacheView, key: Seq<char>, ss: Seq<SampleView>) -> CacheView
    decreases ss.len(),
{
    if ss.len() == 0 {
        c
    } else {
        recorded(publish_all(c, key, ss.drop_last()), key, ss.last())
    }
}

/// The cache after `ss[i]` is published under `keys[i]`, for each `i` in turn.
pub open spec fn publish_each(c: CacheView, keys: Seq<Seq<char>>, ss: Seq<SampleView>) -> CacheView
    decreases ss.len(),
{
    if ss.len() == 0 || keys.len() == 0 {
        c
    } else {
        recorded(publish_each(c, keys.drop_last(), ss.drop_last()), keys.last(), ss.last())
    }
}

proof fn lemma_position_single(k: Seq<char>, q: Seq<SampleView>)
    ensures
        position(seq![(k, q)], k) == 0,
{
    let e: Seq<EntryView> = seq![(k, q)];
    assert(e.last().0 == k);
}

proof fn lemma_publish_all_window(c: CacheView, key: Seq<char>, ss: Seq<SampleView>)
    requires
        c.entries.len() == 0,
        c.history >= 1,
        c.limit >= 1,
    ensures
        publish_all(c, key, ss).history == c.history,
        publish_all(c, key, ss).limit == c.limit,
        ss.len() == 0 ==> publish_all(c, key, ss).entries.len() == 0,
        ss.len() > 0 ==> {
            let e = publish_all(c, key, ss).entries;
            let lo = if ss.len() >= c.history { ss.len() - c.history } else { 0 };
            &&& e.len() == 1
            &&& e[0].0 == key
            &&& e[0].1 == ss.subrange(lo, ss.len() as int)
        },
    decreases ss.len(),
{
    if ss.len() > 0 {
        let prev = ss.drop_last();
        lemma_publish_all_window(c, key, prev);
        let p = publish_all(c, key, prev);
        let s = ss.last();
        let n = ss.len() as int;
        let h = c.history as int;
        if prev.len() == 0 {
            assert(p.entries.push((key, seq![s])) =~= seq![(key, seq![s])]);
            lemma_position_single(key, seq![s]);
            assert(ss.subrange(0, n) =~= seq![s]);
        } else {
            let q = p.entries[0].1;
            assert(p.entries =~= seq![(key, q)]);
            lemma_position_single(key, q);
            let lo = if n - 1 >= h { n - 1 - h } else { 0 };
            assert(q == prev.subrange(lo, n - 1));
            let nq = pushed(q, s, c.history);
            assert(p.entries.update(0, (key, nq)) =~= seq![(key, nq)]);
            if q.len() >= h {
                assert(nq =~= ss.subrange(n - h, n));
            } else {
                assert(nq =~= ss.subrange(0, n));
            }
        }
    }
}

/// History bound: after `ss` is published under one key into an empty cache
/// with a history of `h >= 1` (and room for one key), the key holds the last
/// `h` samples in the order they were published (all of them, if fewer), and
/// an exact query on the key replies with just those.
pub proof fn lemma_history_bound(c: CacheView, key: Seq<char>, ss: Seq<SampleView>)
    requires
        c.entries.len() == 0,
        c.history >= 1,
        c.limit >= 1,
    ensures
        ss.len() >= c.history ==> history_of(publish_all(c, key, ss).entries, key) == ss.subrange(
            ss.len() - c.history,
            ss.len() as int,
        ),
        ss.len() < c.history ==> history_of(publish_all(c, key, ss).entries, key) == ss,
        !has_wildcard(key) ==> query_replies(publish_all(c, key, ss), key) == history_of(
            publish_all(c, key, ss).entries,
            key,
        ),
{
    lemma_publish_all_window(c, key, ss);
    let e = publish_all(c, key, ss).entries;
    if ss.len() > 0 {
        assert(e =~= seq![(key, e[0].1)]);
        lemma_position_single(key, e[0].1);
        assert(ss.subrange(0, ss.len() as int) =~= ss);
    } else {
        assert(history_of(e, key) =~= ss);
    }
}

proof fn lemma_position_missing(e: Seq<EntryView>, key: Seq<char>)
    requires
        forall|i: int| 0 <= i < e.len() ==> (#[trigger] e[i]).0 != key,
    ensures
        position(e, key) == -1,
    decreases e.len(),
{
    if e.len() > 0 {
        assert forall|i: int| 0 <= i < e.drop_last().len() implies (#[trigger] e.drop_last()[i]).0
            != key by {
            assert(e.drop_last()[i] == e[i]);
        }
        lemma_position_missing(e.drop_last(), key);
    }
}

proof fn lemma_position_at(e: Seq<EntryView>, key: Seq<char>, j: int)
    requires
        0 <= j < e.len(),
        e[j].0 == key,
        forall|i: int| 0 <= i < e.len() && i != j ==> (#[trigger] e[i]).0 != key,
    ensures
        position(e, key) == j,
    decreases e.len(),
{
    if j < e.len() - 1 {
        assert forall|i: int| 0 <= i < e.drop_last().len() && i != j implies (
        #[trigger] e.drop_last()[i]).0 != key by {
            assert(e.drop_last()[i] == e[i]);
        }
        lemma_position_at(e.drop_last(), key, j);
    }
}

pub open spec fn distinct_keys(keys: Seq<Seq<char>>) -> bool {
    forall|i: int, j: int| 0 <= i < j < keys.len() ==> keys[i] != keys[j]
}

proof fn lemma_publish_each_prefix(
    c: CacheView,
    keys: Seq<Seq<char>>,
    ss: Seq<SampleView>,
)
    requires
        c.entries.len() == 0,
        keys.len() == ss.len(),
        distinct_keys(keys),
    ensures
        ({
            let e = publish_each(c, keys, ss).entries;
            let n = if ss.len() <= c.limit { ss.len() as int } else { c.limit as int };
            &&& e.len() == n
            &&& forall|j: int| 0 <= j < n ==> #[trigger] e[j] == (keys[j], seq![ss[j]])
        }),
        publish_each(c, keys, ss).limit == c.limit,
    decreases ss.len(),
{
    if ss.len() > 0 {
        let pk = keys.drop_last();
        let ps = ss.drop_last();
        assert forall|i: int, j: int| 0 <= i < j < pk.len() implies pk[i] != pk[j] by {
            assert(keys[i] != keys[j]);
        }
        lemma_publish_each_prefix(c, pk, ps);
        let p = publish_each(c, pk, ps);
        let k = keys.last();
        assert forall|i: int| 0 <= i < p.entries.len() implies (#[trigger] p.entries[i]).0 != k by {
            assert(p.entries[i] == (pk[i], seq![ps[i]]));
            assert(keys[i] != keys[keys.len() - 1]);
        }
        lemma_position_missing(p.entries, k);
        let r = publish_each(c, keys, ss);
        if p.entries.len() < c.limit {
            assert forall|j: int| 0 <= j < r.entries.len() implies #[trigger] r.entries[j] == (
            keys[j], seq![ss[j]]) by {
                if j < p.entries.len() {
                    assert(p.entries[j] == (pk[j], seq![ps[j]]));
                }
            }
        } else {
            assert forall|j: int| 0 <= j < r.entries.len() implies #[trigger] r.entries[j] == (
            keys[j], seq![ss[j]]) by {
                assert(p.entries[j] == (pk[j], seq![ps[j]]));
            }
        }
    }
}

/// Resource limit: publishing one sample under each of `L + 1` distinct keys
/// into an empty cache whose limit is `L` leaves exactly the first `L` keys
/// cached, each with its sample, and nothing under the last key.
pub proof fn lemma_resource_limit(c: CacheView, keys: Seq<Seq<char>>, ss: Seq<SampleView>)
    requires
        c.entries.len() == 0,
        keys.len() == ss.len(),
        keys.len() == c.limit + 1,
        distinct_keys(keys),
    ensures
        publish_each(c, keys, ss).entries.len() == c.limit,
        forall|j: int|
            0 <= j < c.limit ==> history_of(publish_each(c, keys, ss).entries, #[trigger] keys[j])
                == seq![ss[j]],
        history_of(publish_each(c, keys, ss).entries, keys[c.limit as int]).len() == 0,
{
    lemma_publish_each_prefix(c, keys, ss);
    let e = publish_each(c, keys, ss).entries;
    let l = c.limit as int;
    assert forall|j: int| 0 <= j < l implies history_of(e, #[trigger] keys[j]) == seq![ss[j]] by {
        assert(e[j] == (keys[j], seq![ss[j]]));
        assert forall|i: int| 0 <= i < e.len() && i != j implies (#[trigger] e[i]).0 != keys[j] by {
            assert(e[i] == (keys[i], seq![ss[i]]));
            if i < j {
                assert(keys[i] != keys[j]);
            } else {
                assert(keys[j] != keys[i]);
            }
        }
        lemma_position_at(e, keys[j], j);
    }
    assert forall|i: int| 0 <= i < e.len() implies (#[trigger] e[i]).0 != keys[l] by {
        assert(e[i] == (keys[i], seq![ss[i]]));
        assert(keys[i] != keys[l]);
    }
    lemma_position_missing(e, keys[l]);
}

/// Exact-match replay: a sample published into an empty running loop without
/// prefix is what an exact query on its key replies, and an exact query on
/// any other key replies nothing.
pub proof fn lemma_exact_replay(s: LoopView, x: SampleView, other: Seq<char>)
    requires
        s.running,
        s.prefix is None,
        s.cache.entries.len() == 0,
        s.cache.limit >= 1,
        !has_wildcard(x.key),
        !has_wildcard(other),
        other != x.key,
    ensures
        step(step(s, EventView::Publication(x)).0, EventView::Query(x.key)).1 == seq![x],
        step(step(s, EventView::Publication(x)).0, EventView::Query(other)).1.len() == 0,
{
    let e = step(s, EventView::Publication(x)).0.cache.entries;
    assert(e =~= seq![(x.key, seq![x])]);
    lemma_position_single(x.key, seq![x]);
    assert forall|i: int| 0 <= i < e.len() implies (#[trigger] e[i]).0 != other by {
        assert(e[i] == e[0]);
    }
    lemma_position_missing(e, other);
}

/// Prefix addressing: with a prefix `p`, a sample published under `k` into an
/// empty running loop is held under `p/k`, and under `k` there is nothing.
pub proof fn lemma_prefix_addressing(s: LoopView, p: Seq<char>, x: SampleView)
    requires
        s.running,
        s.prefix == Some(p),
        s.cache.entries.len() == 0,
        s.cache.limit >= 1,
    ensures
        history_of(step(s, EventView::Publication(x)).0.cache.entries, joined(p, x.key)) == seq![x],
        history_of(step(s, EventView::Publication(x)).0.cache.entries, x.key).len() == 0,
        !has_wildcard(joined(p, x.key)) ==> step(
            step(s, EventView::Publication(x)).0,
            EventView::Query(joined(p, x.key)),
        ).1 == seq![x],
{
    let k = joined(p, x.key);
    assert(cache_key(s.prefix, x.key) == k);
    let e = step(s, EventView::Publication(x)).0.cache.entries;
    assert(e =~= seq![(k, seq![x])]);
    lemma_position_single(k, seq![x]);
    assert(k.len() > x.key.len());
    assert forall|i: int| 0 <= i < e.len() implies (#[trigger] e[i]).0 != x.key by {
        assert(e[i] == e[0]);
    }
    lemma_position_missing(e, x.key);
}

/// Once the loop has stopped, no sequence of events draws a reply from it,
/// and its state stays as it is.
pub proof fn lemma_stopped_is_silent(s: LoopView, events: Seq<EventView>)
    requires
        !s.running,
    ensures
        run(s, events).0 == s,
        run(s, events).1.len() == 0,
    decreases events.len(),
{
    if events.len() > 0 {
        lemma_stopped_is_silent(s, events.drop_first());
        assert(run(s, events).1 =~= Seq::<SampleView>::empty() + run(s, events.drop_first()).1);
    }
}

/// After the stop signal, whatever events follow, the loop sends no reply.
pub proof fn lemma_no_reply_after_stop(s: LoopView, events: Seq<EventView>)
    ensures
        run(step(s, EventView::Stop).0, events).1.len() == 0,
        !step(s, EventView::Stop).0.running,
{
    lemma_stopped_is_silent(step(s, EventView::Stop).0, events);
}

/// A build on a session without timestamps fails at once, before any
/// registration is asked for, and holds none.
pub proof fn lemma_timestamps_required(b: BuilderView)
    ensures
        begin_spec(b, false).1 is Finish,
        begin_spec(b, false).1->Finish_0 is Err,
        begin_spec(b, false).0.stage == BuildStage::Done,
        held(begin_spec(b, false).0) == (false, false),
{
}

/// When the subscription is granted and the queryable then refused, the
/// build undeclares the subscription next and ends failing with the
/// queryable's refusal, holding no registration.
pub proof fn lemma_rollback_on_refused_queryable(
    b: BuilderView,
    refusal: Seq<char>,
    undeclared: Option<Seq<char>>,
)
    requires
        config_error(b, true) is None,
    ensures
        ({
            let (m0, a0) = begin_spec(b, true);
            let (m1, a1) = advance_spec(m0, None);
            let (m2, a2) = advance_spec(m1, Some(refusal));
            let (m3, a3) = advance_spec(m2, undeclared);
            &&& a0 == ActionView::DeclareSubscriber(b.key_expr)
            &&& a1 is DeclareQueryable
            &&& held(m1) == (true, false)
            &&& a2 == ActionView::UndeclareSubscriber
            &&& a3 == ActionView::Finish(Err(BuildErrorView::QueryableRefused(refusal)))
            &&& m3.stage == BuildStage::Done
            &&& held(m3) == (false, false)
        }),
{
}

} // verus!
