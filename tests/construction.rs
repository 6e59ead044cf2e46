use zenoh_ext::publication_cache::{BuildAction, BuildError, BuildStage, Locality, PublicationCacheBuilder};

fn finish_err(a: BuildAction) -> BuildError {
    match a {
        BuildAction::Finish(Err(e)) => e,
        _ => panic!("expected a failed finish"),
    }
}

#[test]
fn invalid_target_fails_first() {
    let (m, a) = PublicationCacheBuilder::new("a//b".to_string())
        .queryable_prefix("/bad".to_string())
        .begin(false);
    assert_eq!(m.stage(), BuildStage::Done);
    assert_eq!(finish_err(a), BuildError::InvalidKeyExpr);
}

#[test]
fn invalid_prefix_fails() {
    let (_, a) = PublicationCacheBuilder::new("a/b".to_string())
        .queryable_prefix("c*".to_string())
        .begin(true);
    assert_eq!(finish_err(a), BuildError::InvalidPrefix);
}

#[test]
fn missing_timestamps_fails_without_registration() {
    let (m, a) = PublicationCacheBuilder::new("a/b".to_string()).begin(false);
    assert_eq!(m.stage(), BuildStage::Done);
    assert_eq!(finish_err(a), BuildError::MissingTimestamps);
}

#[test]
fn successful_build_declares_both_in_order() {
    let b = PublicationCacheBuilder::new("a/b".to_string())
        .queryable_prefix("cache".to_string())
        .queryable_allowed_origin(Locality::Remote)
        .history(4)
        .resources_limit(10);
    let (mut m, a) = b.begin(true);
    match a {
        BuildAction::DeclareSubscriber(k) => assert_eq!(k, "a/b"),
        _ => panic!("expected the subscription first"),
    }
    match m.advance(Ok(())) {
        BuildAction::DeclareQueryable(k, o) => {
            assert_eq!(k, "cache/a/b");
            assert_eq!(o, Locality::Remote);
        }
        _ => panic!("expected the queryable next"),
    }
    match m.advance(Ok(())) {
        BuildAction::Finish(Ok(c)) => {
            assert_eq!(c.key_expr(), "a/b");
            assert_eq!(c.queryable_key_expr(), "cache/a/b");
            let l = c.cache_loop();
            assert!(l.is_running());
        }
        _ => panic!("expected a built cache"),
    }
    assert_eq!(m.stage(), BuildStage::Done);
}

#[test]
fn refused_subscription_fails_without_rollback() {
    let (mut m, _) = PublicationCacheBuilder::new("a/b".to_string()).begin(true);
    let a = m.advance(Err("duplicate".to_string()));
    assert_eq!(finish_err(a), BuildError::SubscriberRefused("duplicate".to_string()));
}

#[test]
fn refused_queryable_rolls_back_subscription() {
    let (mut m, _) = PublicationCacheBuilder::new("a/b".to_string()).begin(true);
    m.advance(Ok(()));
    match m.advance(Err("no room".to_string())) {
        BuildAction::UndeclareSubscriber => {}
        _ => panic!("expected the subscription to be undeclared"),
    }
    assert_eq!(m.stage(), BuildStage::RollingBack);
    let a = m.advance(Ok(()));
    assert_eq!(finish_err(a), BuildError::QueryableRefused("no room".to_string()));
    assert_eq!(m.stage(), BuildStage::Done);
}

#[test]
fn close_reports_the_first_error() {
    let built = || {
        let (mut m, _) = PublicationCacheBuilder::new("a/b".to_string()).begin(true);
        m.advance(Ok(()));
        match m.advance(Ok(())) {
            BuildAction::Finish(Ok(c)) => c,
            _ => panic!("expected a built cache"),
        }
    };
    assert_eq!(built().close(Ok(()), Ok(())), Ok(()));
    assert_eq!(built().close(Err("q".to_string()), Err("s".to_string())), Err("q".to_string()));
    assert_eq!(built().close(Ok(()), Err("s".to_string())), Err("s".to_string()));
}
