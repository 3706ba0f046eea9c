use gwtree::lifecycle::{
    RemovalMachine, RemovalTarget, RmOutcome, RmQuery, RmReply, RmStep, SwitchError,
    SwitchMachine, SwitchOutcome, SwitchQuery, SwitchReply, SwitchStep,
};
use gwtree::resolve::{BranchRequest, ResolveError, ResolvedBranch};

fn sw_ask(step: SwitchStep) -> SwitchQuery {
    match step {
        SwitchStep::Ask(q) => q,
        SwitchStep::Done(_) => panic!("expected a query, machine finished"),
    }
}

fn sw_done(step: SwitchStep) -> Result<SwitchOutcome, SwitchError> {
    match step {
        SwitchStep::Done(r) => r,
        SwitchStep::Ask(_) => panic!("expected the machine to finish"),
    }
}

fn rm_ask(step: RmStep) -> RmQuery {
    match step {
        RmStep::Ask(q) => q,
        RmStep::Done(_) => panic!("expected a query, machine finished"),
    }
}

const LISTING: &str = "worktree /repo
HEAD 1111111
branch refs/heads/main

worktree /store/b78784dafe6c1a73
HEAD 2222222
branch refs/heads/feature-x
";

#[test]
fn switch_returns_existing_worktree_without_creating() {
    // The branch already has a worktree: the machine finishes right
    // after the listing, with its path, asking for no creation at all.
    let (m, step) = SwitchMachine::start(
        BranchRequest::Named(String::from("feature-x")),
        None,
        false,
        String::from("/store"),
    );
    assert!(matches!(sw_ask(step), SwitchQuery::CurrentBranch));
    let (m, step) = m.next(SwitchReply::CurrentBranch(String::from("main")));
    assert!(matches!(sw_ask(step), SwitchQuery::ListWorktrees));
    let (_, step) = m.next(SwitchReply::WorktreeText(String::from(LISTING)));
    match sw_done(step) {
        Ok(SwitchOutcome::ExistingWorktree(p)) => {
            assert_eq!(p, "/store/b78784dafe6c1a73");
        },
        _ => panic!("expected the existing worktree"),
    }
}

#[test]
fn switch_already_on_branch_stops_at_once() {
    let (m, _) = SwitchMachine::start(
        BranchRequest::Named(String::from("main")),
        None,
        false,
        String::from("/store"),
    );
    let (_, step) = m.next(SwitchReply::CurrentBranch(String::from("main")));
    match sw_done(step) {
        Ok(SwitchOutcome::AlreadyOnBranch(b)) => assert_eq!(b, "main"),
        _ => panic!("expected the already-on-branch outcome"),
    }
}

#[test]
fn switch_creates_worktree_at_derived_path() {
    // Scenario: toplevel /repo, branch feature-x, root /store; no record
    // for the branch yet. The target is /store/<first 16 hex of
    // sha1("/repo|feature-x")>.
    let listing = "worktree /repo\nHEAD 1111111\nbranch refs/heads/main\n";
    let (m, _) = SwitchMachine::start(
        BranchRequest::Named(String::from("feature-x")),
        None,
        false,
        String::from("/store"),
    );
    let (m, _) = m.next(SwitchReply::CurrentBranch(String::from("main")));
    let (m, step) = m.next(SwitchReply::WorktreeText(String::from(listing)));
    match sw_ask(step) {
        SwitchQuery::Resolve(BranchRequest::Named(b), None) => assert_eq!(b, "feature-x"),
        _ => panic!("expected branch resolution"),
    }
    let (m, step) = m.next(SwitchReply::Resolved(Ok(ResolvedBranch::Local(String::from(
        "feature-x",
    )))));
    assert!(matches!(sw_ask(step), SwitchQuery::Toplevel));
    let (m, step) = m.next(SwitchReply::Toplevel(String::from("/repo")));
    match sw_ask(step) {
        SwitchQuery::PathExists(p) => assert_eq!(p, "/store/b78784dafe6c1a73"),
        _ => panic!("expected the orphan check"),
    }
    let (m, step) = m.next(SwitchReply::Exists(false));
    match sw_ask(step) {
        SwitchQuery::EnsureParentDir(p) => assert_eq!(p, "/store/b78784dafe6c1a73"),
        _ => panic!("expected directory preparation"),
    }
    let (m, step) = m.next(SwitchReply::Unit(Ok(())));
    match sw_ask(step) {
        SwitchQuery::AddWorktree(p, b) => {
            assert_eq!(p, "/store/b78784dafe6c1a73");
            assert_eq!(b, "feature-x");
        },
        _ => panic!("expected the worktree addition"),
    }
    let (_, step) = m.next(SwitchReply::Unit(Ok(())));
    match sw_done(step) {
        Ok(SwitchOutcome::Created(p)) => assert_eq!(p, "/store/b78784dafe6c1a73"),
        _ => panic!("expected a created worktree"),
    }
}

#[test]
fn switch_orphan_path_fails_naming_it() {
    let listing = "worktree /repo\nHEAD 1111111\nbranch refs/heads/main\n";
    let (m, _) = SwitchMachine::start(
        BranchRequest::Named(String::from("feature-x")),
        None,
        false,
        String::from("/store"),
    );
    let (m, _) = m.next(SwitchReply::CurrentBranch(String::from("main")));
    let (m, _) = m.next(SwitchReply::WorktreeText(String::from(listing)));
    let (m, _) = m.next(SwitchReply::Resolved(Ok(ResolvedBranch::Local(String::from(
        "feature-x",
    )))));
    let (m, _) = m.next(SwitchReply::Toplevel(String::from("/repo")));
    // The derived path exists on disk but is not among the records.
    let (_, step) = m.next(SwitchReply::Exists(true));
    let err = sw_done(step).unwrap_err();
    match &err {
        SwitchError::OrphanPath(p) => assert_eq!(p, "/store/b78784dafe6c1a73"),
        _ => panic!("expected the orphan error"),
    }
    let text = err.message();
    assert!(text.contains("/store/b78784dafe6c1a73"));
    assert!(text.contains("Remove that directory by hand"));
}

#[test]
fn switch_missing_branch_without_create_fails() {
    let listing = "worktree /repo\nHEAD 1111111\nbranch refs/heads/main\n";
    let (m, _) = SwitchMachine::start(
        BranchRequest::Named(String::from("missing-branch")),
        None,
        false,
        String::from("/store"),
    );
    let (m, _) = m.next(SwitchReply::CurrentBranch(String::from("main")));
    let (m, _) = m.next(SwitchReply::WorktreeText(String::from(listing)));
    let (_, step) = m.next(SwitchReply::Resolved(Err(ResolveError::NotFound(String::from(
        "missing-branch",
    )))));
    let err = sw_done(step).unwrap_err();
    assert!(matches!(err, SwitchError::Resolution(ResolveError::NotFound(_))));
}

#[test]
fn switch_with_create_flag_creates_branch_first() {
    let listing = "worktree /repo\nHEAD 1111111\nbranch refs/heads/main\n";
    let (m, _) = SwitchMachine::start(
        BranchRequest::Named(String::from("new-branch")),
        None,
        true,
        String::from("/store"),
    );
    let (m, _) = m.next(SwitchReply::CurrentBranch(String::from("main")));
    let (m, _) = m.next(SwitchReply::WorktreeText(String::from(listing)));
    let (m, _) = m.next(SwitchReply::Resolved(Err(ResolveError::NotFound(String::from(
        "new-branch",
    )))));
    let (m, _) = m.next(SwitchReply::Toplevel(String::from("/tmp/repo")));
    let (m, _) = m.next(SwitchReply::Exists(false));
    let (m, step) = m.next(SwitchReply::Unit(Ok(())));
    match sw_ask(step) {
        SwitchQuery::CreateBranch(b) => assert_eq!(b, "new-branch"),
        _ => panic!("expected branch creation"),
    }
    let (m, step) = m.next(SwitchReply::Unit(Ok(())));
    match sw_ask(step) {
        SwitchQuery::AddWorktree(p, b) => {
            // sha1("/tmp/repo|new-branch") begins 6a095d897d814c4e.
            assert_eq!(p, "/store/6a095d897d814c4e");
            assert_eq!(b, "new-branch");
        },
        _ => panic!("expected the worktree addition"),
    }
    let (_, step) = m.next(SwitchReply::Unit(Ok(())));
    assert!(matches!(sw_done(step), Ok(SwitchOutcome::Created(_))));
}

#[test]
fn switch_remote_resolution_creates_tracking_branch() {
    let listing = "worktree /repo\nHEAD 1111111\nbranch refs/heads/main\n";
    let (m, _) = SwitchMachine::start(
        BranchRequest::Named(String::from("topic")),
        None,
        false,
        String::from("/store"),
    );
    let (m, _) = m.next(SwitchReply::CurrentBranch(String::from("main")));
    let (m, _) = m.next(SwitchReply::WorktreeText(String::from(listing)));
    let (m, _) = m.next(SwitchReply::Resolved(Ok(ResolvedBranch::Remote(
        String::from("origin"),
        String::from("topic"),
    ))));
    let (m, _) = m.next(SwitchReply::Toplevel(String::from("/repo")));
    let (m, _) = m.next(SwitchReply::Exists(false));
    let (m, step) = m.next(SwitchReply::Unit(Ok(())));
    match sw_ask(step) {
        SwitchQuery::CreateTrackingBranch(local, remote_ref) => {
            assert_eq!(local, "topic");
            assert_eq!(remote_ref, "origin/topic");
        },
        _ => panic!("expected tracking-branch creation"),
    }
    let (m, _) = m.next(SwitchReply::Unit(Ok(())));
    let (_, step) = m.next(SwitchReply::Unit(Ok(())));
    assert!(matches!(sw_done(step), Ok(SwitchOutcome::Created(_))));
}

#[test]
fn switch_gateway_failure_names_the_step() {
    let listing = "worktree /repo\nHEAD 1111111\nbranch refs/heads/main\n";
    let (m, _) = SwitchMachine::start(
        BranchRequest::Named(String::from("feature-x")),
        None,
        false,
        String::from("/store"),
    );
    let (m, _) = m.next(SwitchReply::CurrentBranch(String::from("main")));
    let (m, _) = m.next(SwitchReply::WorktreeText(String::from(listing)));
    let (m, _) = m.next(SwitchReply::Resolved(Ok(ResolvedBranch::Local(String::from(
        "feature-x",
    )))));
    let (m, _) = m.next(SwitchReply::Toplevel(String::from("/repo")));
    let (m, _) = m.next(SwitchReply::Exists(false));
    let (m, _) = m.next(SwitchReply::Unit(Ok(())));
    let (_, step) = m.next(SwitchReply::Unit(Err(String::from("fatal: boom"))));
    let err = sw_done(step).unwrap_err();
    let text = err.message();
    assert!(text.contains("worktree add"));
    assert!(text.contains("fatal: boom"));
}

#[test]
fn removal_cancelled_on_no() {
    // Answering "no" ends with Cancelled; no removal was ever requested.
    let (m, step) = RemovalMachine::start(
        RemovalTarget::Branch(String::from("feature-x")),
        false,
        false,
        false,
    );
    assert!(matches!(rm_ask(step), RmQuery::ListWorktrees));
    let (m, step) = m.next(RmReply::WorktreeText(String::from(LISTING)));
    assert!(matches!(rm_ask(step), RmQuery::Cwd));
    let (m, step) = m.next(RmReply::Cwd(String::from("/repo")));
    match rm_ask(step) {
        RmQuery::Confirm(p) => assert_eq!(p, "/store/b78784dafe6c1a73"),
        _ => panic!("expected the confirmation prompt"),
    }
    let (_, step) = m.next(RmReply::Answer(false));
    match step {
        RmStep::Done(Ok(RmOutcome::Cancelled)) => {},
        _ => panic!("expected a clean cancellation"),
    }
}

#[test]
fn removal_proceeds_on_yes_and_deletes_branch() {
    let (m, _) = RemovalMachine::start(
        RemovalTarget::Branch(String::from("feature-x")),
        true,
        true,
        false,
    );
    let (m, _) = m.next(RmReply::WorktreeText(String::from(LISTING)));
    let (m, _) = m.next(RmReply::Cwd(String::from("/repo")));
    let (m, step) = m.next(RmReply::Answer(true));
    match rm_ask(step) {
        RmQuery::RemoveWorktree(p) => assert_eq!(p, "/store/b78784dafe6c1a73"),
        _ => panic!("expected the removal"),
    }
    let (m, step) = m.next(RmReply::Unit(Ok(())));
    match rm_ask(step) {
        RmQuery::DeleteBranch(b, force) => {
            assert_eq!(b, "feature-x");
            assert!(force);
        },
        _ => panic!("expected the branch deletion"),
    }
    let (_, step) = m.next(RmReply::Unit(Ok(())));
    match step {
        RmStep::Done(Ok(RmOutcome::Removed(redirect))) => assert_eq!(redirect, None),
        _ => panic!("expected a completed removal"),
    }
}

#[test]
fn removal_of_active_worktree_redirects_home() {
    // The caller stands inside the worktree being removed: the home
    // worktree (the first record) is the redirect, revealed only with
    // the successful outcome.
    let (m, _) = RemovalMachine::start(
        RemovalTarget::Branch(String::from("feature-x")),
        false,
        false,
        false,
    );
    let (m, _) = m.next(RmReply::WorktreeText(String::from(LISTING)));
    let (m, _) = m.next(RmReply::Cwd(String::from("/store/b78784dafe6c1a73/src")));
    let (m, _) = m.next(RmReply::Answer(true));
    let (_, step) = m.next(RmReply::Unit(Ok(())));
    match step {
        RmStep::Done(Ok(RmOutcome::Removed(redirect))) => {
            assert_eq!(redirect.as_deref(), Some("/repo"));
        },
        _ => panic!("expected a completed removal with a redirect"),
    }
}

#[test]
fn removal_of_current_worktree_by_cwd() {
    let (m, _) = RemovalMachine::start(RemovalTarget::Current, false, false, true);
    let (m, _) = m.next(RmReply::WorktreeText(String::from(LISTING)));
    let (m, step) = m.next(RmReply::Cwd(String::from("/store/b78784dafe6c1a73")));
    match rm_ask(step) {
        RmQuery::RemoveWorktree(p) => assert_eq!(p, "/store/b78784dafe6c1a73"),
        _ => panic!("expected the removal without confirmation"),
    }
    let (_, step) = m.next(RmReply::Unit(Ok(())));
    match step {
        RmStep::Done(Ok(RmOutcome::Removed(redirect))) => {
            assert_eq!(redirect.as_deref(), Some("/repo"));
        },
        _ => panic!("expected a completed removal"),
    }
}

#[test]
fn removal_of_unknown_branch_fails() {
    let (m, _) = RemovalMachine::start(
        RemovalTarget::Branch(String::from("no-such-branch")),
        false,
        false,
        false,
    );
    let (m, _) = m.next(RmReply::WorktreeText(String::from(LISTING)));
    let (_, step) = m.next(RmReply::Cwd(String::from("/repo")));
    match step {
        RmStep::Done(Err(e)) => {
            assert_eq!(e.message(), "Worktree for branch no-such-branch doesn't exist.");
        },
        _ => panic!("expected a not-found failure"),
    }
}
