use gwtree::resolve::{
    BranchRequest, ResolveError, ResolveQuery, ResolveReply, ResolveStep, ResolvedBranch, Resolver,
};

fn expect_ask(step: ResolveStep) -> ResolveQuery {
    match step {
        ResolveStep::Ask(q) => q,
        ResolveStep::Done(_) => panic!("expected a query, machine finished"),
    }
}

fn expect_done(step: ResolveStep) -> Result<ResolvedBranch, ResolveError> {
    match step {
        ResolveStep::Done(r) => r,
        ResolveStep::Ask(_) => panic!("expected the machine to finish"),
    }
}

#[test]
fn local_branch_wins_over_remotes() {
    // The branch exists locally; resolution is Local without any remote
    // query, even though a remote override was supplied.
    let (m, step) = Resolver::start(
        BranchRequest::Named(String::from("feature")),
        Some(String::from("origin")),
    );
    match expect_ask(step) {
        ResolveQuery::LocalExists(b) => assert_eq!(b, "feature"),
        _ => panic!("expected a local-branch query first"),
    }
    let (_, step) = m.next(ResolveReply::Exists(true));
    match expect_done(step) {
        Ok(ResolvedBranch::Local(b)) => assert_eq!(b, "feature"),
        other => panic!("expected Local resolution, got {:?}", other.is_ok()),
    }
}

#[test]
fn ambiguous_branch_names_every_remote() {
    let (m, step) = Resolver::start(BranchRequest::Named(String::from("topic")), None);
    expect_ask(step);
    let (m, step) = m.next(ResolveReply::Exists(false));
    match expect_ask(step) {
        ResolveQuery::RemotesWith(b) => assert_eq!(b, "topic"),
        _ => panic!("expected a remote search"),
    }
    let (_, step) = m.next(ResolveReply::Remotes(vec![
        String::from("origin"),
        String::from("upstream"),
    ]));
    let err = expect_done(step).unwrap_err();
    match &err {
        ResolveError::Ambiguous(b, remotes) => {
            assert_eq!(b, "topic");
            assert_eq!(remotes, &vec!["origin", "upstream"]);
        },
        _ => panic!("expected an ambiguity error"),
    }
    let text = err.message();
    assert!(text.contains("origin"));
    assert!(text.contains("upstream"));
    assert!(text.contains("'origin/topic'"));
}

#[test]
fn single_remote_match_resolves_to_it() {
    let (m, step) = Resolver::start(BranchRequest::Named(String::from("topic")), None);
    expect_ask(step);
    let (m, _) = m.next(ResolveReply::Exists(false));
    let (_, step) = m.next(ResolveReply::Remotes(vec![String::from("origin")]));
    match expect_done(step) {
        Ok(ResolvedBranch::Remote(r, b)) => {
            assert_eq!(r, "origin");
            assert_eq!(b, "topic");
        },
        _ => panic!("expected a remote resolution"),
    }
}

#[test]
fn no_match_anywhere_is_not_found() {
    let (m, _) = Resolver::start(BranchRequest::Named(String::from("ghost")), None);
    let (m, _) = m.next(ResolveReply::Exists(false));
    let (_, step) = m.next(ResolveReply::Remotes(vec![]));
    let err = expect_done(step).unwrap_err();
    assert!(matches!(err, ResolveError::NotFound(_)));
    assert_eq!(
        err.message(),
        "Branch 'ghost' not found locally or in any remote."
    );
}

#[test]
fn override_hit_resolves_to_that_remote() {
    let (m, _) = Resolver::start(
        BranchRequest::Named(String::from("topic")),
        Some(String::from("upstream")),
    );
    let (m, step) = m.next(ResolveReply::Exists(false));
    match expect_ask(step) {
        ResolveQuery::RemoteExists(r, b) => {
            assert_eq!(r, "upstream");
            assert_eq!(b, "topic");
        },
        _ => panic!("expected a remote-branch query"),
    }
    let (_, step) = m.next(ResolveReply::Exists(true));
    match expect_done(step) {
        Ok(ResolvedBranch::Remote(r, b)) => {
            assert_eq!(r, "upstream");
            assert_eq!(b, "topic");
        },
        _ => panic!("expected a remote resolution"),
    }
}

#[test]
fn override_miss_names_the_full_reference() {
    let (m, _) = Resolver::start(
        BranchRequest::Named(String::from("topic")),
        Some(String::from("upstream")),
    );
    let (m, _) = m.next(ResolveReply::Exists(false));
    let (_, step) = m.next(ResolveReply::Exists(false));
    let err = expect_done(step).unwrap_err();
    match &err {
        ResolveError::RemoteBranchNotFound(full) => assert_eq!(full, "upstream/topic"),
        _ => panic!("expected a remote-branch-not-found error"),
    }
    assert_eq!(err.message(), "Remote branch 'upstream/topic' not found.");
}

#[test]
fn main_fallback_prefers_main() {
    let (m, step) = Resolver::start(BranchRequest::MainFallback, None);
    match expect_ask(step) {
        ResolveQuery::LocalExists(b) => assert_eq!(b, "main"),
        _ => panic!("expected a probe for main"),
    }
    let (_, step) = m.next(ResolveReply::Exists(true));
    match expect_done(step) {
        Ok(ResolvedBranch::Local(b)) => assert_eq!(b, "main"),
        _ => panic!("expected main"),
    }
}

#[test]
fn main_fallback_probes_master_then_fails() {
    let (m, _) = Resolver::start(BranchRequest::MainFallback, None);
    let (m, step) = m.next(ResolveReply::Exists(false));
    match expect_ask(step) {
        ResolveQuery::LocalExists(b) => assert_eq!(b, "master"),
        _ => panic!("expected a probe for master"),
    }
    let (m2, step) = m.next(ResolveReply::Exists(true));
    match expect_done(step) {
        Ok(ResolvedBranch::Local(b)) => assert_eq!(b, "master"),
        _ => panic!("expected master"),
    }
    drop(m2);

    let (m, _) = Resolver::start(BranchRequest::MainFallback, None);
    let (m, _) = m.next(ResolveReply::Exists(false));
    let (_, step) = m.next(ResolveReply::Exists(false));
    let err = expect_done(step).unwrap_err();
    assert!(matches!(err, ResolveError::NoDefaultBranch));
}
