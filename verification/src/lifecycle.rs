//! The worktree lifecycle: the decision logic for switching to a branch's
//! worktree and for removing one.
//!
//! All external work — running the version-control tool, looking at the
//! disk, prompting the user — happens outside this module. Each operation
//! is a step machine: it emits one query at a time, the caller performs it
//! and feeds the outcome back in, and every transition is pinned by a spec
//! function. The safety rules live here: an existing worktree is returned
//! rather than recreated, an orphaned target directory stops the
//! operation, nothing destructive happens before the user confirms, and a
//! redirect path is revealed only with a successful removal.

use crate::resolve::{BranchRequest, ReqV, ResolveError, ResolveErrV, ResolvedBranch, ResolvedV};
use crate::strutil::has_prefix;
use crate::target::derive_spec;
use crate::target::derive_path_segment;
use crate::worktree::{
    branch_match, find_branch_idx, lemma_find_branch_idx, parse_porcelain, parse_porcelain_spec,
    Worktree, WorktreeV,
};
use vstd::prelude::*;

verus! {

/// A successful switch: the branch was already checked out here, or an
/// existing worktree was found, or a new one was made at the given path.
#[derive(Debug)]
pub enum SwitchOutcome {
    AlreadyOnBranch(String),
    ExistingWorktree(String),
    Created(String),
}

pub enum SwitchOutcomeV {
    AlreadyOnBranch(Seq<char>),
    ExistingWorktree(Seq<char>),
    Created(Seq<char>),
}

impl View for SwitchOutcome {
    type V = SwitchOutcomeV;

    open spec fn view(&self) -> SwitchOutcomeV {
        match self {
            SwitchOutcome::AlreadyOnBranch(b) => SwitchOutcomeV::AlreadyOnBranch(b@),
            SwitchOutcome::ExistingWorktree(p) => SwitchOutcomeV::ExistingWorktree(p@),
            SwitchOutcome::Created(p) => SwitchOutcomeV::Created(p@),
        }
    }
}

/// Why a switch failed. `OrphanPath` names the derived target directory
/// that exists on disk without being a current worktree; it must be
/// removed out-of-band, and is never deleted or overwritten here.
#[derive(Debug)]
pub enum SwitchError {
    Resolution(ResolveError),
    OrphanPath(String),
    OpFailed(String, String),
}

pub enum SwitchErrorV {
    Resolution(ResolveErrV),
    OrphanPath(Seq<char>),
    OpFailed(Seq<char>, Seq<char>),
}

impl View for SwitchError {
    type V = SwitchErrorV;

    open spec fn view(&self) -> SwitchErrorV {
        match self {
            SwitchError::Resolution(e) => SwitchErrorV::Resolution(e@),
            SwitchError::OrphanPath(p) => SwitchErrorV::OrphanPath(p@),
            SwitchError::OpFailed(op, m) => SwitchErrorV::OpFailed(op@, m@),
        }
    }
}

impl SwitchError {
    /// The user-facing text of this switch error. An orphaned target
    /// names the exact path and says how to clear it by hand; nothing
    /// is deleted for the user.
    pub open spec fn message_spec(&self) -> Seq<char> {
        match self {
            SwitchError::Resolution(e) => e.message_spec(),
            SwitchError::OrphanPath(p) => {
                "Target path '"@ + p@
                    + "' already exists but is not a registered worktree. Remove that directory by hand and retry."@
            },
            SwitchError::OpFailed(op, m) => "Failed at "@ + op@ + ": "@ + m@,
        }
    }

    /// Render the error for the user.
    pub fn message(&self) -> (r: String)
        ensures
            r@ == self.message_spec(),
    {
        match self {
            SwitchError::Resolution(e) => e.message(),
            SwitchError::OrphanPath(p) => {
                let mut m = String::from_str("Target path '");
                m.append(p.as_str());
                m.append(
                    "' already exists but is not a registered worktree. Remove that directory by hand and retry.",
                );
                m
            },
            SwitchError::OpFailed(op, msg) => {
                let mut m = String::from_str("Failed at ");
                m.append(op.as_str());
                m.append(": ");
                m.append(msg.as_str());
                m
            },
        }
    }
}

/// External work the switch machine asks for, one call each.
pub enum SwitchQuery {
    /// The name of the branch checked out in the current worktree
    /// (empty for a detached HEAD).
    CurrentBranch,
    /// The raw porcelain worktree listing.
    ListWorktrees,
    /// Run branch resolution (the resolver machine) for this request.
    Resolve(BranchRequest, Option<String>),
    /// The repository's absolute top-level path.
    Toplevel,
    /// Does this path exist on disk?
    PathExists(String),
    /// Create the directories the target's parent needs.
    EnsureParentDir(String),
    /// Create a local branch of this name.
    CreateBranch(String),
    /// Create local branch `.0` tracking remote reference `.1`.
    CreateTrackingBranch(String, String),
    /// Add a worktree at path `.0` for branch `.1`.
    AddWorktree(String, String),
}

pub enum SwitchQueryV {
    CurrentBranch,
    ListWorktrees,
    Resolve(ReqV, Option<Seq<char>>),
    Toplevel,
    PathExists(Seq<char>),
    EnsureParentDir(Seq<char>),
    CreateBranch(Seq<char>),
    CreateTrackingBranch(Seq<char>, Seq<char>),
    AddWorktree(Seq<char>, Seq<char>),
}

pub open spec fn opt_str_v(o: Option<String>) -> Option<Seq<char>> {
    match o {
        Some(s) => Some(s@),
        None => None,
    }
}

impl View for SwitchQuery {
    type V = SwitchQueryV;

    open spec fn view(&self) -> SwitchQueryV {
        match self {
            SwitchQuery::CurrentBranch => SwitchQueryV::CurrentBranch,
            SwitchQuery::ListWorktrees => SwitchQueryV::ListWorktrees,
            SwitchQuery::Resolve(req, ov) => SwitchQueryV::Resolve(req@, opt_str_v(*ov)),
            SwitchQuery::Toplevel => SwitchQueryV::Toplevel,
            SwitchQuery::PathExists(p) => SwitchQueryV::PathExists(p@),
            SwitchQuery::EnsureParentDir(p) => SwitchQueryV::EnsureParentDir(p@),
            SwitchQuery::CreateBranch(b) => SwitchQueryV::CreateBranch(b@),
            SwitchQuery::CreateTrackingBranch(b, r) => SwitchQueryV::CreateTrackingBranch(b@, r@),
            SwitchQuery::AddWorktree(p, b) => SwitchQueryV::AddWorktree(p@, b@),
        }
    }
}

/// The outcome of the last query.
pub enum SwitchReply {
    CurrentBranch(String),
    WorktreeText(String),
    Resolved(Result<ResolvedBranch, ResolveError>),
    Toplevel(String),
    Exists(bool),
    Unit(Result<(), String>),
}

pub enum SwitchReplyV {
    CurrentBranch(Seq<char>),
    WorktreeText(Seq<char>),
    Resolved(Result<ResolvedV, ResolveErrV>),
    Toplevel(Seq<char>),
    Exists(bool),
    Unit(Result<(), Seq<char>>),
}

impl View for SwitchReply {
    type V = SwitchReplyV;

    open spec fn view(&self) -> SwitchReplyV {
        match self {
            SwitchReply::CurrentBranch(b) => SwitchReplyV::CurrentBranch(b@),
            SwitchReply::WorktreeText(t) => SwitchReplyV::WorktreeText(t@),
            SwitchReply::Resolved(r) => SwitchReplyV::Resolved(
                match r {
                    Ok(v) => Ok(v@),
                    Err(e) => Err(e@),
                },
            ),
            SwitchReply::Toplevel(t) => SwitchReplyV::Toplevel(t@),
            SwitchReply::Exists(b) => SwitchReplyV::Exists(*b),
            SwitchReply::Unit(r) => SwitchReplyV::Unit(
                match r {
                    Ok(_) => Ok(()),
                    Err(m) => Err(m@),
                },
            ),
        }
    }
}

/// What the switch machine wants next.
pub enum SwitchStep {
    Ask(SwitchQuery),
    Done(Result<SwitchOutcome, SwitchError>),
}

pub enum SwitchStepV {
    Ask(SwitchQueryV),
    Done(Result<SwitchOutcomeV, SwitchErrorV>),
}

impl View for SwitchStep {
    type V = SwitchStepV;

    open spec fn view(&self) -> SwitchStepV {
        match self {
            SwitchStep::Ask(q) => SwitchStepV::Ask(q@),
            SwitchStep::Done(r) => SwitchStepV::Done(
                match r {
                    Ok(v) => Ok(v@),
                    Err(e) => Err(e@),
                },
            ),
        }
    }
}

/// Which branch must exist locally before the worktree can be added.
enum Pending {
    NoAction,
    CreateLocal,
    Track(String),
}

pub enum PendingV {
    NoAction,
    CreateLocal,
    Track(Seq<char>),
}

enum SwState {
    AwaitDefault { create: bool, root: String },
    AwaitCurrent { branch: String, ov: Option<String>, create: bool, root: String, resolved_local: bool },
    AwaitList { branch: String, ov: Option<String>, create: bool, root: String, resolved_local: bool },
    AwaitResolve { branch: String, create: bool, root: String, paths: Vec<String> },
    AwaitToplevel { branch: String, root: String, paths: Vec<String>, pending: Pending },
    AwaitExists { branch: String, paths: Vec<String>, pending: Pending, target: String },
    AwaitDirs { branch: String, pending: Pending, target: String },
    AwaitBranchCreate { branch: String, target: String },
    AwaitAdd { target: String },
    Finished,
}

pub enum SwStateV {
    AwaitDefault { create: bool, root: Seq<char> },
    AwaitCurrent {
        branch: Seq<char>,
        ov: Option<Seq<char>>,
        create: bool,
        root: Seq<char>,
        resolved_local: bool,
    },
    AwaitList {
        branch: Seq<char>,
        ov: Option<Seq<char>>,
        create: bool,
        root: Seq<char>,
        resolved_local: bool,
    },
    AwaitResolve { branch: Seq<char>, create: bool, root: Seq<char>, paths: Seq<Seq<char>> },
    AwaitToplevel { branch: Seq<char>, root: Seq<char>, paths: Seq<Seq<char>>, pending: PendingV },
    AwaitExists { branch: Seq<char>, paths: Seq<Seq<char>>, pending: PendingV, target: Seq<char> },
    AwaitDirs { branch: Seq<char>, pending: PendingV, target: Seq<char> },
    AwaitBranchCreate { branch: Seq<char>, target: Seq<char> },
    AwaitAdd { target: Seq<char> },
    Finished,
}

spec fn pending_v(p: Pending) -> PendingV {
    match p {
        Pending::NoAction => PendingV::NoAction,
        Pending::CreateLocal => PendingV::CreateLocal,
        Pending::Track(r) => PendingV::Track(r@),
    }
}

/// The switch step machine.
pub struct SwitchMachine {
    state: SwState,
}

impl View for SwitchMachine {
    type V = SwStateV;

    closed spec fn view(&self) -> SwStateV {
        match &self.state {
            SwState::AwaitDefault { create, root } => SwStateV::AwaitDefault {
                create: *create,
                root: root@,
            },
            SwState::AwaitCurrent { branch, ov, create, root, resolved_local } => {
                SwStateV::AwaitCurrent {
                    branch: branch@,
                    ov: opt_str_v(*ov),
                    create: *create,
                    root: root@,
                    resolved_local: *resolved_local,
                }
            },
            SwState::AwaitList { branch, ov, create, root, resolved_local } => {
                SwStateV::AwaitList {
                    branch: branch@,
                    ov: opt_str_v(*ov),
                    create: *create,
                    root: root@,
                    resolved_local: *resolved_local,
                }
            },
            SwState::AwaitResolve { branch, create, root, paths } => SwStateV::AwaitResolve {
                branch: branch@,
                create: *create,
                root: root@,
                paths: paths.deep_view(),
            },
            SwState::AwaitToplevel { branch, root, paths, pending } => SwStateV::AwaitToplevel {
                branch: branch@,
                root: root@,
                paths: paths.deep_view(),
                pending: pending_v(*pending),
            },
            SwState::AwaitExists { branch, paths, pending, target } => SwStateV::AwaitExists {
                branch: branch@,
                paths: paths.deep_view(),
                pending: pending_v(*pending),
                target: target@,
            },
            SwState::AwaitDirs { branch, pending, target } => SwStateV::AwaitDirs {
                branch: branch@,
                pending: pending_v(*pending),
                target: target@,
            },
            SwState::AwaitBranchCreate { branch, target } => SwStateV::AwaitBranchCreate {
                branch: branch@,
                target: target@,
            },
            SwState::AwaitAdd { target } => SwStateV::AwaitAdd { target: target@ },
            SwState::Finished => SwStateV::Finished,
        }
    }
}

/// The paths of a record sequence, in order.
pub open spec fn paths_of_spec(recs: Seq<WorktreeV>) -> Seq<Seq<char>> {
    recs.map_values(|r: WorktreeV| r.path)
}

/// The target directory: the configured root, a separator, and the
/// derived segment for this repository and branch.
pub open spec fn target_spec(root: Seq<char>, toplevel: Seq<char>, branch: Seq<char>) -> Seq<char> {
    root + "/"@ + derive_spec(toplevel, branch)
}

/// The first state and query of a switch: a named branch is guarded
/// against the branch already checked out; the default-branch request is
/// resolved first, since its name is not yet known.
pub open spec fn swstart_spec(req: ReqV, ov: Option<Seq<char>>, create: bool, root: Seq<char>) -> (
    SwStateV,
    SwitchStepV,
) {
    match req {
        ReqV::Named(b) => (
            SwStateV::AwaitCurrent { branch: b, ov, create, root, resolved_local: false },
            SwitchStepV::Ask(SwitchQueryV::CurrentBranch),
        ),
        ReqV::MainFallback => (
            SwStateV::AwaitDefault { create, root },
            SwitchStepV::Ask(SwitchQueryV::Resolve(ReqV::MainFallback, None)),
        ),
    }
}

/// The reply is of the kind the state is waiting for.
pub open spec fn sw_reply_fits(st: SwStateV, reply: SwitchReplyV) -> bool {
    match reply {
        SwitchReplyV::Resolved(_) => st is AwaitDefault || st is AwaitResolve,
        SwitchReplyV::CurrentBranch(_) => st is AwaitCurrent,
        SwitchReplyV::WorktreeText(_) => st is AwaitList,
        SwitchReplyV::Toplevel(_) => st is AwaitToplevel,
        SwitchReplyV::Exists(_) => st is AwaitExists,
        SwitchReplyV::Unit(_) => st is AwaitDirs || st is AwaitBranchCreate || st is AwaitAdd,
    }
}

/// One transition of the switch machine.
pub open spec fn swstep_spec(st: SwStateV, reply: SwitchReplyV) -> (SwStateV, SwitchStepV) {
    match (st, reply) {
        (SwStateV::AwaitDefault { create, root }, SwitchReplyV::Resolved(res)) => match res {
            Ok(ResolvedV::Local(b)) => (
                SwStateV::AwaitCurrent { branch: b, ov: None, create, root, resolved_local: true },
                SwitchStepV::Ask(SwitchQueryV::CurrentBranch),
            ),
            Ok(ResolvedV::Remote(r, b)) => (
                SwStateV::AwaitCurrent {
                    branch: b,
                    ov: Some(r),
                    create,
                    root,
                    resolved_local: false,
                },
                SwitchStepV::Ask(SwitchQueryV::CurrentBranch),
            ),
            Err(e) => (
                SwStateV::Finished,
                SwitchStepV::Done(Err(SwitchErrorV::Resolution(e))),
            ),
        },
        (
            SwStateV::AwaitCurrent { branch, ov, create, root, resolved_local },
            SwitchReplyV::CurrentBranch(cur),
        ) => if cur == branch {
            (SwStateV::Finished, SwitchStepV::Done(Ok(SwitchOutcomeV::AlreadyOnBranch(branch))))
        } else {
            (
                SwStateV::AwaitList { branch, ov, create, root, resolved_local },
                SwitchStepV::Ask(SwitchQueryV::ListWorktrees),
            )
        },
        (
            SwStateV::AwaitList { branch, ov, create, root, resolved_local },
            SwitchReplyV::WorktreeText(t),
        ) => {
            let recs = parse_porcelain_spec(t);
            let i = find_branch_idx(recs, branch);
            if i >= 0 {
                (
                    SwStateV::Finished,
                    SwitchStepV::Done(Ok(SwitchOutcomeV::ExistingWorktree(recs[i].path))),
                )
            } else if resolved_local {
                (
                    SwStateV::AwaitToplevel {
                        branch,
                        root,
                        paths: paths_of_spec(recs),
                        pending: PendingV::NoAction,
                    },
                    SwitchStepV::Ask(SwitchQueryV::Toplevel),
                )
            } else {
                (
                    SwStateV::AwaitResolve { branch, create, root, paths: paths_of_spec(recs) },
                    SwitchStepV::Ask(SwitchQueryV::Resolve(ReqV::Named(branch), ov)),
                )
            }
        },
        (SwStateV::AwaitResolve { branch, create, root, paths }, SwitchReplyV::Resolved(res)) => {
            match res {
                Ok(ResolvedV::Local(_)) => (
                    SwStateV::AwaitToplevel { branch, root, paths, pending: PendingV::NoAction },
                    SwitchStepV::Ask(SwitchQueryV::Toplevel),
                ),
                Ok(ResolvedV::Remote(r, _)) => (
                    SwStateV::AwaitToplevel { branch, root, paths, pending: PendingV::Track(r) },
                    SwitchStepV::Ask(SwitchQueryV::Toplevel),
                ),
                Err(e) => if create && e is NotFound {
                    (
                        SwStateV::AwaitToplevel {
                            branch,
                            root,
                            paths,
                            pending: PendingV::CreateLocal,
                        },
                        SwitchStepV::Ask(SwitchQueryV::Toplevel),
                    )
                } else {
                    (SwStateV::Finished, SwitchStepV::Done(Err(SwitchErrorV::Resolution(e))))
                },
            }
        },
        (SwStateV::AwaitToplevel { branch, root, paths, pending }, SwitchReplyV::Toplevel(tp)) => {
            let target = target_spec(root, tp, branch);
            (
                SwStateV::AwaitExists { branch, paths, pending, target },
                SwitchStepV::Ask(SwitchQueryV::PathExists(target)),
            )
        },
        (SwStateV::AwaitExists { branch, paths, pending, target }, SwitchReplyV::Exists(ex)) => {
            if ex && !paths.contains(target) {
                (SwStateV::Finished, SwitchStepV::Done(Err(SwitchErrorV::OrphanPath(target))))
            } else {
                (
                    SwStateV::AwaitDirs { branch, pending, target },
                    SwitchStepV::Ask(SwitchQueryV::EnsureParentDir(target)),
                )
            }
        },
        (SwStateV::AwaitDirs { branch, pending, target }, SwitchReplyV::Unit(res)) => match res {
            Err(m) => (
                SwStateV::Finished,
                SwitchStepV::Done(Err(SwitchErrorV::OpFailed("directory preparation"@, m))),
            ),
            Ok(_) => match pending {
                PendingV::CreateLocal => (
                    SwStateV::AwaitBranchCreate { branch, target },
                    SwitchStepV::Ask(SwitchQueryV::CreateBranch(branch)),
                ),
                PendingV::Track(r) => (
                    SwStateV::AwaitBranchCreate { branch, target },
                    SwitchStepV::Ask(
                        SwitchQueryV::CreateTrackingBranch(branch, r + "/"@ + branch),
                    ),
                ),
                PendingV::NoAction => (
                    SwStateV::AwaitAdd { target },
                    SwitchStepV::Ask(SwitchQueryV::AddWorktree(target, branch)),
                ),
            },
        },
        (SwStateV::AwaitBranchCreate { branch, target }, SwitchReplyV::Unit(res)) => match res {
            Err(m) => (
                SwStateV::Finished,
                SwitchStepV::Done(Err(SwitchErrorV::OpFailed("branch creation"@, m))),
            ),
            Ok(_) => (
                SwStateV::AwaitAdd { target },
                SwitchStepV::Ask(SwitchQueryV::AddWorktree(target, branch)),
            ),
        },
        (SwStateV::AwaitAdd { target }, SwitchReplyV::Unit(res)) => match res {
            Err(m) => (
                SwStateV::Finished,
                SwitchStepV::Done(Err(SwitchErrorV::OpFailed("worktree add"@, m))),
            ),
            Ok(_) => (SwStateV::Finished, SwitchStepV::Done(Ok(SwitchOutcomeV::Created(target)))),
        },
        _ => arbitrary(),
    }
}

/// The paths of the parsed records, in listing order.
fn paths_of(recs: &Vec<Worktree>) -> (r: Vec<String>)
    ensures
        r.deep_view() == paths_of_spec(recs.deep_view()),
{
    let mut r: Vec<String> = Vec::new();
    let n = recs.len();
    let mut i: usize = 0;
    while i < n
        invariant
            n == recs@.len(),
            0 <= i <= n,
            r.deep_view() =~= paths_of_spec(recs.deep_view()).take(i as int),
        decreases n - i,
    {
        let c = recs[i].path().clone();
        let ghost cv = c@;
        let ghost prevv = r@;
        r.push(c);
        proof {
            assert(cv == recs.deep_view()[i as int].path);
            assert(prevv.len() == i) by {
                assert(paths_of_spec(recs.deep_view()).take(i as int).len() == i);
            }
            assert(r@ == prevv.push(c));
            assert(r@.len() == i + 1);
            assert forall|k: int| 0 <= k < i + 1 implies r.deep_view()[k] == paths_of_spec(
                recs.deep_view(),
            ).take(i + 1)[k] by {
                if k < i {
                    assert(r@[k] == prevv[k]);
                } else {
                    assert(r@[k] == c);
                }
            }
            assert(r.deep_view() =~= paths_of_spec(recs.deep_view()).take(i + 1));
        }
        i += 1;
    }
    proof {
        assert(paths_of_spec(recs.deep_view()).take(n as int) =~= paths_of_spec(recs.deep_view()));
    }
    r
}

impl SwitchMachine {
    /// Begin a switch for `req` under the configured worktree root.
    pub fn start(
        req: BranchRequest,
        remote_override: Option<String>,
        create: bool,
        root: String,
    ) -> (r: (SwitchMachine, SwitchStep))
        ensures
            (r.0@, r.1@) == swstart_spec(req@, opt_str_v(remote_override), create, root@),
    {
        match req {
            BranchRequest::Named(b) => (
                SwitchMachine {
                    state: SwState::AwaitCurrent {
                        branch: b,
                        ov: remote_override,
                        create,
                        root,
                        resolved_local: false,
                    },
                },
                SwitchStep::Ask(SwitchQuery::CurrentBranch),
            ),
            BranchRequest::MainFallback => (
                SwitchMachine { state: SwState::AwaitDefault { create, root } },
                SwitchStep::Ask(SwitchQuery::Resolve(BranchRequest::MainFallback, None)),
            ),
        }
    }

    /// Feed the outcome of the last query in; get the machine back with
    /// its next step.
    pub fn next(self, reply: SwitchReply) -> (r: (SwitchMachine, SwitchStep))
        requires
            sw_reply_fits(self@, reply@),
        ensures
            (r.0@, r.1@) == swstep_spec(self@, reply@),
    {
        match (self.state, reply) {
            (SwState::AwaitDefault { create, root }, SwitchReply::Resolved(res)) => match res {
                Ok(ResolvedBranch::Local(b)) => (
                    SwitchMachine {
                        state: SwState::AwaitCurrent {
                            branch: b,
                            ov: None,
                            create,
                            root,
                            resolved_local: true,
                        },
                    },
                    SwitchStep::Ask(SwitchQuery::CurrentBranch),
                ),
                Ok(ResolvedBranch::Remote(r, b)) => (
                    SwitchMachine {
                        state: SwState::AwaitCurrent {
                            branch: b,
                            ov: Some(r),
                            create,
                            root,
                            resolved_local: false,
                        },
                    },
                    SwitchStep::Ask(SwitchQuery::CurrentBranch),
                ),
                Err(e) => (
                    SwitchMachine { state: SwState::Finished },
                    SwitchStep::Done(Err(SwitchError::Resolution(e))),
                ),
            },
            (
                SwState::AwaitCurrent { branch, ov, create, root, resolved_local },
                SwitchReply::CurrentBranch(cur),
            ) => {
                if crate::strutil::str_eq_str(cur.as_str(), branch.as_str()) {
                    (
                        SwitchMachine { state: SwState::Finished },
                        SwitchStep::Done(Ok(SwitchOutcome::AlreadyOnBranch(branch))),
                    )
                } else {
                    (
                        SwitchMachine {
                            state: SwState::AwaitList { branch, ov, create, root, resolved_local },
                        },
                        SwitchStep::Ask(SwitchQuery::ListWorktrees),
                    )
                }
            },
            (
                SwState::AwaitList { branch, ov, create, root, resolved_local },
                SwitchReply::WorktreeText(t),
            ) => {
                let recs = parse_porcelain(t.as_str());
                let recs_slice = recs.as_slice();
                proof {
                    assert(recs_slice.deep_view() =~= recs.deep_view());
                }
                let found = crate::worktree::find_worktree_for_branch(
                    recs_slice,
                    branch.as_str(),
                );
                match found {
                    Some(w) => {
                        let p = w.path().clone();
                        (
                            SwitchMachine { state: SwState::Finished },
                            SwitchStep::Done(Ok(SwitchOutcome::ExistingWorktree(p))),
                        )
                    },
                    None => {
                        let paths = paths_of(&recs);
                        if resolved_local {
                            (
                                SwitchMachine {
                                    state: SwState::AwaitToplevel {
                                        branch,
                                        root,
                                        paths,
                                        pending: Pending::NoAction,
                                    },
                                },
                                SwitchStep::Ask(SwitchQuery::Toplevel),
                            )
                        } else {
                            let req = BranchRequest::Named(branch.clone());
                            (
                                SwitchMachine {
                                    state: SwState::AwaitResolve { branch, create, root, paths },
                                },
                                SwitchStep::Ask(SwitchQuery::Resolve(req, ov)),
                            )
                        }
                    },
                }
            },
            (SwState::AwaitResolve { branch, create, root, paths }, SwitchReply::Resolved(res)) => {
                match res {
                    Ok(ResolvedBranch::Local(_)) => (
                        SwitchMachine {
                            state: SwState::AwaitToplevel {
                                branch,
                                root,
                                paths,
                                pending: Pending::NoAction,
                            },
                        },
                        SwitchStep::Ask(SwitchQuery::Toplevel),
                    ),
                    Ok(ResolvedBranch::Remote(r, _)) => (
                        SwitchMachine {
                            state: SwState::AwaitToplevel {
                                branch,
                                root,
                                paths,
                                pending: Pending::Track(r),
                            },
                        },
                        SwitchStep::Ask(SwitchQuery::Toplevel),
                    ),
                    Err(e) => {
                        let is_not_found = match &e {
                            ResolveError::NotFound(_) => true,
                            _ => false,
                        };
                        if create && is_not_found {
                            (
                                SwitchMachine {
                                    state: SwState::AwaitToplevel {
                                        branch,
                                        root,
                                        paths,
                                        pending: Pending::CreateLocal,
                                    },
                                },
                                SwitchStep::Ask(SwitchQuery::Toplevel),
                            )
                        } else {
                            (
                                SwitchMachine { state: SwState::Finished },
                                SwitchStep::Done(Err(SwitchError::Resolution(e))),
                            )
                        }
                    },
                }
            },
            (SwState::AwaitToplevel { branch, root, paths, pending }, SwitchReply::Toplevel(tp)) => {
                let seg = derive_path_segment(tp.as_str(), branch.as_str());
                let mut target = root;
                target.append("/");
                target.append(seg.as_str());
                let q = SwitchQuery::PathExists(target.clone());
                (
                    SwitchMachine {
                        state: SwState::AwaitExists { branch, paths, pending, target },
                    },
                    SwitchStep::Ask(q),
                )
            },
            (SwState::AwaitExists { branch, paths, pending, target }, SwitchReply::Exists(ex)) => {
                let among = contains_str(&paths, target.as_str());
                if ex && !among {
                    (
                        SwitchMachine { state: SwState::Finished },
                        SwitchStep::Done(Err(SwitchError::OrphanPath(target))),
                    )
                } else {
                    let q = SwitchQuery::EnsureParentDir(target.clone());
                    (
                        SwitchMachine { state: SwState::AwaitDirs { branch, pending, target } },
                        SwitchStep::Ask(q),
                    )
                }
            },
            (SwState::AwaitDirs { branch, pending, target }, SwitchReply::Unit(res)) => match res {
                Err(m) => (
                    SwitchMachine { state: SwState::Finished },
                    SwitchStep::Done(Err(SwitchError::OpFailed(
                        String::from_str("directory preparation"),
                        m,
                    ))),
                ),
                Ok(_) => match pending {
                    Pending::CreateLocal => {
                        let q = SwitchQuery::CreateBranch(branch.clone());
                        (
                            SwitchMachine { state: SwState::AwaitBranchCreate { branch, target } },
                            SwitchStep::Ask(q),
                        )
                    },
                    Pending::Track(r) => {
                        let mut full = r;
                        full.append("/");
                        full.append(branch.as_str());
                        let q = SwitchQuery::CreateTrackingBranch(branch.clone(), full);
                        (
                            SwitchMachine { state: SwState::AwaitBranchCreate { branch, target } },
                            SwitchStep::Ask(q),
                        )
                    },
                    Pending::NoAction => {
                        let q = SwitchQuery::AddWorktree(target.clone(), branch);
                        (
                            SwitchMachine { state: SwState::AwaitAdd { target } },
                            SwitchStep::Ask(q),
                        )
                    },
                },
            },
            (SwState::AwaitBranchCreate { branch, target }, SwitchReply::Unit(res)) => match res {
                Err(m) => (
                    SwitchMachine { state: SwState::Finished },
                    SwitchStep::Done(Err(SwitchError::OpFailed(
                        String::from_str("branch creation"),
                        m,
                    ))),
                ),
                Ok(_) => {
                    let q = SwitchQuery::AddWorktree(target.clone(), branch);
                    (SwitchMachine { state: SwState::AwaitAdd { target } }, SwitchStep::Ask(q))
                },
            },
            (SwState::AwaitAdd { target }, SwitchReply::Unit(res)) => match res {
                Err(m) => (
                    SwitchMachine { state: SwState::Finished },
                    SwitchStep::Done(Err(SwitchError::OpFailed(
                        String::from_str("worktree add"),
                        m,
                    ))),
                ),
                Ok(_) => (
                    SwitchMachine { state: SwState::Finished },
                    SwitchStep::Done(Ok(SwitchOutcome::Created(target))),
                ),
            },
            _ => {
                // Unreachable: `sw_reply_fits` rules these pairings out.
                (
                    SwitchMachine { state: SwState::Finished },
                    SwitchStep::Done(Err(SwitchError::OpFailed(
                        String::new(),
                        String::new(),
                    ))),
                )
            },
        }
    }
}

/// True exactly when one of the strings equals `x`.
fn contains_str(v: &Vec<String>, x: &str) -> (r: bool)
    ensures
        r == v.deep_view().contains(x@),
{
    let n = v.len();
    let mut i: usize = 0;
    while i < n
        invariant
            n == v@.len(),
            0 <= i <= n,
            forall|k: int| 0 <= k < i ==> v.deep_view()[k] != x@,
        decreases n - i,
    {
        if crate::strutil::str_eq_str(v[i].as_str(), x) {
            proof {
                assert(v.deep_view()[i as int] == x@);
            }
            return true;
        }
        i += 1;
    }
    proof {
        if v.deep_view().contains(x@) {
            let k = choose|k: int| 0 <= k < v.deep_view().len() && v.deep_view()[k] == x@;
            assert(v.deep_view()[k] == x@);
        }
    }
    false
}

/// Law: switching to a branch that already has a worktree finishes at
/// once with that worktree's path — the machine is done, so no branch
/// creation and no worktree addition is ever requested.
pub proof fn lemma_idempotent_switch(
    branch: Seq<char>,
    ov: Option<Seq<char>>,
    create: bool,
    root: Seq<char>,
    resolved_local: bool,
    t: Seq<char>,
)
    requires
        find_branch_idx(parse_porcelain_spec(t), branch) >= 0,
    ensures
        swstep_spec(
            SwStateV::AwaitList { branch, ov, create, root, resolved_local },
            SwitchReplyV::WorktreeText(t),
        ) == (
            SwStateV::Finished,
            SwitchStepV::Done(Ok(SwitchOutcomeV::ExistingWorktree(
                parse_porcelain_spec(t)[find_branch_idx(parse_porcelain_spec(t), branch)].path,
            ))),
        ),
{
}

/// Law: when the derived target path exists on disk but stands among no
/// current worktree record, the switch fails naming exactly that path,
/// and asks for nothing further — no directory is prepared, nothing is
/// deleted, no worktree is added.
pub proof fn lemma_orphan_detected(
    branch: Seq<char>,
    paths: Seq<Seq<char>>,
    pending: PendingV,
    target: Seq<char>,
)
    requires
        !paths.contains(target),
    ensures
        swstep_spec(
            SwStateV::AwaitExists { branch, paths, pending, target },
            SwitchReplyV::Exists(true),
        ) == (
            SwStateV::Finished,
            SwitchStepV::Done(Err(SwitchErrorV::OrphanPath(target))),
        ),
{
}

/// What a removal was asked to remove: the worktree of a named branch,
/// or the worktree the caller currently stands in.
#[derive(Debug)]
pub enum RemovalTarget {
    Branch(String),
    Current,
}

pub enum RemovalTargetV {
    Branch(Seq<char>),
    Current,
}

impl View for RemovalTarget {
    type V = RemovalTargetV;

    open spec fn view(&self) -> RemovalTargetV {
        match self {
            RemovalTarget::Branch(b) => RemovalTargetV::Branch(b@),
            RemovalTarget::Current => RemovalTargetV::Current,
        }
    }
}

/// A finished removal: declined by the user (a clean, non-destructive
/// exit), or removed, with the home worktree to redirect to when the
/// caller stood inside the removed directory.
#[derive(Debug)]
pub enum RmOutcome {
    Cancelled,
    Removed(Option<String>),
}

pub enum RmOutcomeV {
    Cancelled,
    Removed(Option<Seq<char>>),
}

impl View for RmOutcome {
    type V = RmOutcomeV;

    open spec fn view(&self) -> RmOutcomeV {
        match self {
            RmOutcome::Cancelled => RmOutcomeV::Cancelled,
            RmOutcome::Removed(p) => RmOutcomeV::Removed(opt_str_v(*p)),
        }
    }
}

/// Why a removal failed; `OpFailed` names the step that failed.
#[derive(Debug)]
pub enum RmError {
    NotFound(String),
    CurrentNotInWorktree,
    OpFailed(String, String),
}

pub enum RmErrorV {
    NotFound(Seq<char>),
    CurrentNotInWorktree,
    OpFailed(Seq<char>, Seq<char>),
}

impl View for RmError {
    type V = RmErrorV;

    open spec fn view(&self) -> RmErrorV {
        match self {
            RmError::NotFound(b) => RmErrorV::NotFound(b@),
            RmError::CurrentNotInWorktree => RmErrorV::CurrentNotInWorktree,
            RmError::OpFailed(op, m) => RmErrorV::OpFailed(op@, m@),
        }
    }
}

impl RmError {
    /// The user-facing text of this removal error.
    pub open spec fn message_spec(&self) -> Seq<char> {
        match self {
            RmError::NotFound(b) => "Worktree for branch "@ + b@ + " doesn't exist."@,
            RmError::CurrentNotInWorktree => {
                "The current directory is not inside any worktree."@
            },
            RmError::OpFailed(op, m) => "Failed at "@ + op@ + ": "@ + m@,
        }
    }

    /// Render the error for the user.
    pub fn message(&self) -> (r: String)
        ensures
            r@ == self.message_spec(),
    {
        match self {
            RmError::NotFound(b) => {
                let mut m = String::from_str("Worktree for branch ");
                m.append(b.as_str());
                m.append(" doesn't exist.");
                m
            },
            RmError::CurrentNotInWorktree => {
                String::from_str("The current directory is not inside any worktree.")
            },
            RmError::OpFailed(op, msg) => {
                let mut m = String::from_str("Failed at ");
                m.append(op.as_str());
                m.append(": ");
                m.append(msg.as_str());
                m
            },
        }
    }
}

/// External work the removal machine asks for.
pub enum RmQuery {
    /// The raw porcelain worktree listing.
    ListWorktrees,
    /// The absolute current working directory.
    Cwd,
    /// Ask the user to confirm removing the worktree at this path.
    Confirm(String),
    /// Remove the worktree at this path.
    RemoveWorktree(String),
    /// Delete branch `.0`; `.1` selects the forced variant.
    DeleteBranch(String, bool),
}

pub enum RmQueryV {
    ListWorktrees,
    Cwd,
    Confirm(Seq<char>),
    RemoveWorktree(Seq<char>),
    DeleteBranch(Seq<char>, bool),
}

impl View for RmQuery {
    type V = RmQueryV;

    open spec fn view(&self) -> RmQueryV {
        match self {
            RmQuery::ListWorktrees => RmQueryV::ListWorktrees,
            RmQuery::Cwd => RmQueryV::Cwd,
            RmQuery::Confirm(p) => RmQueryV::Confirm(p@),
            RmQuery::RemoveWorktree(p) => RmQueryV::RemoveWorktree(p@),
            RmQuery::DeleteBranch(b, f) => RmQueryV::DeleteBranch(b@, *f),
        }
    }
}

/// The outcome of the last removal query.
pub enum RmReply {
    WorktreeText(String),
    Cwd(String),
    Answer(bool),
    Unit(Result<(), String>),
}

pub enum RmReplyV {
    WorktreeText(Seq<char>),
    Cwd(Seq<char>),
    Answer(bool),
    Unit(Result<(), Seq<char>>),
}

impl View for RmReply {
    type V = RmReplyV;

    open spec fn view(&self) -> RmReplyV {
        match self {
            RmReply::WorktreeText(t) => RmReplyV::WorktreeText(t@),
            RmReply::Cwd(d) => RmReplyV::Cwd(d@),
            RmReply::Answer(b) => RmReplyV::Answer(*b),
            RmReply::Unit(r) => RmReplyV::Unit(
                match r {
                    Ok(_) => Ok(()),
                    Err(m) => Err(m@),
                },
            ),
        }
    }
}

/// What the removal machine wants next.
pub enum RmStep {
    Ask(RmQuery),
    Done(Result<RmOutcome, RmError>),
}

pub enum RmStepV {
    Ask(RmQueryV),
    Done(Result<RmOutcomeV, RmErrorV>),
}

impl View for RmStep {
    type V = RmStepV;

    open spec fn view(&self) -> RmStepV {
        match self {
            RmStep::Ask(q) => RmStepV::Ask(q@),
            RmStep::Done(r) => RmStepV::Done(
                match r {
                    Ok(v) => Ok(v@),
                    Err(e) => Err(e@),
                },
            ),
        }
    }
}

/// Directory `d` lies inside worktree path `p` (is it, or under it).
pub open spec fn path_contains(p: Seq<char>, d: Seq<char>) -> bool {
    p == d || has_prefix(d, p + "/"@)
}

/// Index of the first record whose path contains `d`, or `-1`.
pub open spec fn find_containing_idx(s: Seq<WorktreeV>, d: Seq<char>) -> int
    decreases s.len(),
{
    if s.len() == 0 {
        -1
    } else if path_contains(s.first().path, d) {
        0
    } else {
        let r = find_containing_idx(s.drop_first(), d);
        if r < 0 {
            -1
        } else {
            1 + r
        }
    }
}

pub proof fn lemma_find_containing_idx(s: Seq<WorktreeV>, d: Seq<char>)
    ensures
        find_containing_idx(s, d) == -1 || 0 <= find_containing_idx(s, d) < s.len(),
        find_containing_idx(s, d) == -1 ==> forall|k: int|
            0 <= k < s.len() ==> !path_contains(s[k].path, d),
        find_containing_idx(s, d) >= 0 ==> path_contains(s[find_containing_idx(s, d)].path, d),
        find_containing_idx(s, d) >= 0 ==> forall|k: int|
            0 <= k < find_containing_idx(s, d) ==> !path_contains(s[k].path, d),
    decreases s.len(),
{
    if s.len() == 0 {
    } else if path_contains(s.first().path, d) {
    } else {
        lemma_find_containing_idx(s.drop_first(), d);
        let r = find_containing_idx(s.drop_first(), d);
        if r == -1 {
            assert forall|k: int| 0 <= k < s.len() implies !path_contains(s[k].path, d) by {
                if k >= 1 {
                    assert(s.drop_first()[k - 1] == s[k]);
                }
            }
        } else {
            assert(s.drop_first()[r] == s[r + 1]);
            assert forall|k: int| 0 <= k < r + 1 implies !path_contains(s[k].path, d) by {
                if k >= 1 {
                    assert(s.drop_first()[k - 1] == s[k]);
                }
            }
        }
    }
}

enum RmState {
    AwaitList { target: RemovalTarget, delete_branch: bool, force: bool, skip_confirm: bool },
    AwaitCwd {
        recs: Vec<Worktree>,
        target: RemovalTarget,
        delete_branch: bool,
        force: bool,
        skip_confirm: bool,
    },
    AwaitConfirm {
        path: String,
        branch: Option<String>,
        redirect: Option<String>,
        delete_branch: bool,
        force: bool,
    },
    AwaitRemove {
        branch: Option<String>,
        redirect: Option<String>,
        delete_branch: bool,
        force: bool,
    },
    AwaitDelete { redirect: Option<String> },
    Finished,
}

pub enum RmStateV {
    AwaitList {
        target: RemovalTargetV,
        delete_branch: bool,
        force: bool,
        skip_confirm: bool,
    },
    AwaitCwd {
        recs: Seq<WorktreeV>,
        target: RemovalTargetV,
        delete_branch: bool,
        force: bool,
        skip_confirm: bool,
    },
    AwaitConfirm {
        path: Seq<char>,
        branch: Option<Seq<char>>,
        redirect: Option<Seq<char>>,
        delete_branch: bool,
        force: bool,
    },
    AwaitRemove {
        branch: Option<Seq<char>>,
        redirect: Option<Seq<char>>,
        delete_branch: bool,
        force: bool,
    },
    AwaitDelete { redirect: Option<Seq<char>> },
    Finished,
}

/// The removal step machine.
pub struct RemovalMachine {
    state: RmState,
}

impl View for RemovalMachine {
    type V = RmStateV;

    closed spec fn view(&self) -> RmStateV {
        match &self.state {
            RmState::AwaitList { target, delete_branch, force, skip_confirm } => {
                RmStateV::AwaitList {
                    target: target@,
                    delete_branch: *delete_branch,
                    force: *force,
                    skip_confirm: *skip_confirm,
                }
            },
            RmState::AwaitCwd { recs, target, delete_branch, force, skip_confirm } => {
                RmStateV::AwaitCwd {
                    recs: recs.deep_view(),
                    target: target@,
                    delete_branch: *delete_branch,
                    force: *force,
                    skip_confirm: *skip_confirm,
                }
            },
            RmState::AwaitConfirm { path, branch, redirect, delete_branch, force } => {
                RmStateV::AwaitConfirm {
                    path: path@,
                    branch: opt_str_v(*branch),
                    redirect: opt_str_v(*redirect),
                    delete_branch: *delete_branch,
                    force: *force,
                }
            },
            RmState::AwaitRemove { branch, redirect, delete_branch, force } => {
                RmStateV::AwaitRemove {
                    branch: opt_str_v(*branch),
                    redirect: opt_str_v(*redirect),
                    delete_branch: *delete_branch,
                    force: *force,
                }
            },
            RmState::AwaitDelete { redirect } => RmStateV::AwaitDelete {
                redirect: opt_str_v(*redirect),
            },
            RmState::Finished => RmStateV::Finished,
        }
    }
}

/// The first state and query of a removal.
pub open spec fn rmstart_spec(
    target: RemovalTargetV,
    delete_branch: bool,
    force: bool,
    skip_confirm: bool,
) -> (RmStateV, RmStepV) {
    (
        RmStateV::AwaitList { target, delete_branch, force, skip_confirm },
        RmStepV::Ask(RmQueryV::ListWorktrees),
    )
}

/// The reply is of the kind the state is waiting for.
pub open spec fn rm_reply_fits(st: RmStateV, reply: RmReplyV) -> bool {
    match reply {
        RmReplyV::WorktreeText(_) => st is AwaitList,
        RmReplyV::Cwd(_) => st is AwaitCwd,
        RmReplyV::Answer(_) => st is AwaitConfirm,
        RmReplyV::Unit(_) => st is AwaitRemove || st is AwaitDelete,
    }
}

/// The index of the record a removal request names, or `-1`.
pub open spec fn rm_found_idx(recs: Seq<WorktreeV>, target: RemovalTargetV, d: Seq<char>) -> int {
    match target {
        RemovalTargetV::Branch(b) => find_branch_idx(recs, b),
        RemovalTargetV::Current => find_containing_idx(recs, d),
    }
}

/// Once the worktree to remove is known: ask for confirmation, unless
/// the caller skipped it.
pub open spec fn rm_after_found(
    rec: WorktreeV,
    redirect: Option<Seq<char>>,
    delete_branch: bool,
    force: bool,
    skip_confirm: bool,
) -> (RmStateV, RmStepV) {
    if skip_confirm {
        (
            RmStateV::AwaitRemove { branch: rec.branch, redirect, delete_branch, force },
            RmStepV::Ask(RmQueryV::RemoveWorktree(rec.path)),
        )
    } else {
        (
            RmStateV::AwaitConfirm { path: rec.path, branch: rec.branch, redirect, delete_branch, force },
            RmStepV::Ask(RmQueryV::Confirm(rec.path)),
        )
    }
}

/// One transition of the removal machine.
pub open spec fn rmstep_spec(st: RmStateV, reply: RmReplyV) -> (RmStateV, RmStepV) {
    match (st, reply) {
        (
            RmStateV::AwaitList { target, delete_branch, force, skip_confirm },
            RmReplyV::WorktreeText(t),
        ) => (
            RmStateV::AwaitCwd {
                recs: parse_porcelain_spec(t),
                target,
                delete_branch,
                force,
                skip_confirm,
            },
            RmStepV::Ask(RmQueryV::Cwd),
        ),
        (
            RmStateV::AwaitCwd { recs, target, delete_branch, force, skip_confirm },
            RmReplyV::Cwd(d),
        ) => {
            let i = rm_found_idx(recs, target, d);
            if i < 0 {
                (
                    RmStateV::Finished,
                    RmStepV::Done(Err(
                        match target {
                            RemovalTargetV::Branch(b) => RmErrorV::NotFound(b),
                            RemovalTargetV::Current => RmErrorV::CurrentNotInWorktree,
                        },
                    )),
                )
            } else {
                let rec = recs[i];
                let active = path_contains(rec.path, d);
                let redirect = if active {
                    Some(recs[0].path)
                } else {
                    None
                };
                rm_after_found(rec, redirect, delete_branch, force, skip_confirm)
            }
        },
        (
            RmStateV::AwaitConfirm { path, branch, redirect, delete_branch, force },
            RmReplyV::Answer(yes),
        ) => if yes {
            (
                RmStateV::AwaitRemove { branch, redirect, delete_branch, force },
                RmStepV::Ask(RmQueryV::RemoveWorktree(path)),
            )
        } else {
            (RmStateV::Finished, RmStepV::Done(Ok(RmOutcomeV::Cancelled)))
        },
        (
            RmStateV::AwaitRemove { branch, redirect, delete_branch, force },
            RmReplyV::Unit(res),
        ) => match res {
            Err(m) => (
                RmStateV::Finished,
                RmStepV::Done(Err(RmErrorV::OpFailed("worktree remove"@, m))),
            ),
            Ok(_) => match branch {
                Some(b) => if delete_branch {
                    (
                        RmStateV::AwaitDelete { redirect },
                        RmStepV::Ask(RmQueryV::DeleteBranch(b, force)),
                    )
                } else {
                    (RmStateV::Finished, RmStepV::Done(Ok(RmOutcomeV::Removed(redirect))))
                },
                None => (RmStateV::Finished, RmStepV::Done(Ok(RmOutcomeV::Removed(redirect)))),
            },
        },
        (RmStateV::AwaitDelete { redirect }, RmReplyV::Unit(res)) => match res {
            Err(m) => (
                RmStateV::Finished,
                RmStepV::Done(Err(RmErrorV::OpFailed("branch deletion"@, m))),
            ),
            Ok(_) => (RmStateV::Finished, RmStepV::Done(Ok(RmOutcomeV::Removed(redirect)))),
        },
        _ => arbitrary(),
    }
}

/// Find the first record whose path contains directory `d`.
fn find_containing(recs: &Vec<Worktree>, d: &str) -> (r: Option<usize>)
    ensures
        match r {
            Some(i) => 0 <= i < recs@.len() && i == find_containing_idx(recs.deep_view(), d@),
            None => find_containing_idx(recs.deep_view(), d@) == -1,
        },
{
    let n = recs.len();
    let mut i: usize = 0;
    proof {
        lemma_find_containing_idx(recs.deep_view(), d@);
    }
    while i < n
        invariant
            n == recs@.len(),
            recs.deep_view().len() == n,
            0 <= i <= n,
            forall|k: int| 0 <= k < i ==> !path_contains(recs.deep_view()[k].path, d@),
            find_containing_idx(recs.deep_view(), d@) == -1 || 0 <= find_containing_idx(
                recs.deep_view(),
                d@,
            ) < n,
            find_containing_idx(recs.deep_view(), d@) == -1 ==> forall|k: int|
                0 <= k < n ==> !path_contains(recs.deep_view()[k].path, d@),
            find_containing_idx(recs.deep_view(), d@) >= 0 ==> path_contains(
                recs.deep_view()[find_containing_idx(recs.deep_view(), d@)].path,
                d@,
            ),
            find_containing_idx(recs.deep_view(), d@) >= 0 ==> forall|k: int|
                0 <= k < find_containing_idx(recs.deep_view(), d@) ==> !path_contains(
                    recs.deep_view()[k].path,
                    d@,
                ),
        decreases n - i,
    {
        let p = recs[i].path();
        let inside = if crate::strutil::str_eq_str(p.as_str(), d) {
            true
        } else {
            let pd = crate::strutil::concat_str(p.as_str(), "/");
            crate::strutil::starts_with_str(d, pd.as_str())
        };
        proof {
            assert(recs.deep_view()[i as int] == recs@[i as int]@);
            assert(inside == path_contains(recs.deep_view()[i as int].path, d@));
        }
        if inside {
            proof {
                let fi = find_containing_idx(recs.deep_view(), d@);
                assert(fi >= 0);
                if fi < i {
                    assert(!path_contains(recs.deep_view()[fi].path, d@));
                }
                if fi > i {
                    assert(!path_contains(recs.deep_view()[i as int].path, d@));
                }
                assert(fi == i);
            }
            return Some(i);
        }
        i += 1;
    }
    None
}

impl RemovalMachine {
    /// Begin removing the worktree the request names.
    pub fn start(
        target: RemovalTarget,
        delete_branch: bool,
        force: bool,
        skip_confirm: bool,
    ) -> (r: (RemovalMachine, RmStep))
        ensures
            (r.0@, r.1@) == rmstart_spec(target@, delete_branch, force, skip_confirm),
    {
        (
            RemovalMachine {
                state: RmState::AwaitList { target, delete_branch, force, skip_confirm },
            },
            RmStep::Ask(RmQuery::ListWorktrees),
        )
    }

    /// Feed the outcome of the last query in; get the machine back with
    /// its next step.
    pub fn next(self, reply: RmReply) -> (r: (RemovalMachine, RmStep))
        requires
            rm_reply_fits(self@, reply@),
        ensures
            (r.0@, r.1@) == rmstep_spec(self@, reply@),
    {
        match (self.state, reply) {
            (
                RmState::AwaitList { target, delete_branch, force, skip_confirm },
                RmReply::WorktreeText(t),
            ) => {
                let recs = parse_porcelain(t.as_str());
                (
                    RemovalMachine {
                        state: RmState::AwaitCwd {
                            recs,
                            target,
                            delete_branch,
                            force,
                            skip_confirm,
                        },
                    },
                    RmStep::Ask(RmQuery::Cwd),
                )
            },
            (
                RmState::AwaitCwd { recs, target, delete_branch, force, skip_confirm },
                RmReply::Cwd(d),
            ) => {
                let found: Option<usize> = match &target {
                    RemovalTarget::Branch(b) => find_branch_pos(&recs, b.as_str()),
                    RemovalTarget::Current => find_containing(&recs, d.as_str()),
                };
                match found {
                    None => (
                        RemovalMachine { state: RmState::Finished },
                        RmStep::Done(Err(
                            match target {
                                RemovalTarget::Branch(b) => RmError::NotFound(b),
                                RemovalTarget::Current => RmError::CurrentNotInWorktree,
                            },
                        )),
                    ),
                    Some(i) => {
                        let rec_path = recs[i].path().clone();
                        let rec_branch: Option<String> = match recs[i].branch() {
                            Some(b) => Some(String::from_str(b)),
                            None => None,
                        };
                        let inside = if crate::strutil::str_eq_str(
                            rec_path.as_str(),
                            d.as_str(),
                        ) {
                            true
                        } else {
                            let pd = crate::strutil::concat_str(rec_path.as_str(), "/");
                            crate::strutil::starts_with_str(d.as_str(), pd.as_str())
                        };
                        let redirect: Option<String> = if inside {
                            Some(recs[0].path().clone())
                        } else {
                            None
                        };
                        if skip_confirm {
                            let q = RmQuery::RemoveWorktree(rec_path);
                            (
                                RemovalMachine {
                                    state: RmState::AwaitRemove {
                                        branch: rec_branch,
                                        redirect,
                                        delete_branch,
                                        force,
                                    },
                                },
                                RmStep::Ask(q),
                            )
                        } else {
                            let q = RmQuery::Confirm(rec_path.clone());
                            (
                                RemovalMachine {
                                    state: RmState::AwaitConfirm {
                                        path: rec_path,
                                        branch: rec_branch,
                                        redirect,
                                        delete_branch,
                                        force,
                                    },
                                },
                                RmStep::Ask(q),
                            )
                        }
                    },
                }
            },
            (
                RmState::AwaitConfirm { path, branch, redirect, delete_branch, force },
                RmReply::Answer(yes),
            ) => {
                if yes {
                    let q = RmQuery::RemoveWorktree(path);
                    (
                        RemovalMachine {
                            state: RmState::AwaitRemove { branch, redirect, delete_branch, force },
                        },
                        RmStep::Ask(q),
                    )
                } else {
                    (
                        RemovalMachine { state: RmState::Finished },
                        RmStep::Done(Ok(RmOutcome::Cancelled)),
                    )
                }
            },
            (
                RmState::AwaitRemove { branch, redirect, delete_branch, force },
                RmReply::Unit(res),
            ) => match res {
                Err(m) => (
                    RemovalMachine { state: RmState::Finished },
                    RmStep::Done(Err(RmError::OpFailed(
                        String::from_str("worktree remove"),
                        m,
                    ))),
                ),
                Ok(_) => match branch {
                    Some(b) => if delete_branch {
                        let q = RmQuery::DeleteBranch(b, force);
                        (
                            RemovalMachine { state: RmState::AwaitDelete { redirect } },
                            RmStep::Ask(q),
                        )
                    } else {
                        (
                            RemovalMachine { state: RmState::Finished },
                            RmStep::Done(Ok(RmOutcome::Removed(redirect))),
                        )
                    },
                    None => (
                        RemovalMachine { state: RmState::Finished },
                        RmStep::Done(Ok(RmOutcome::Removed(redirect))),
                    ),
                },
            },
            (RmState::AwaitDelete { redirect }, RmReply::Unit(res)) => match res {
                Err(m) => (
                    RemovalMachine { state: RmState::Finished },
                    RmStep::Done(Err(RmError::OpFailed(
                        String::from_str("branch deletion"),
                        m,
                    ))),
                ),
                Ok(_) => (
                    RemovalMachine { state: RmState::Finished },
                    RmStep::Done(Ok(RmOutcome::Removed(redirect))),
                ),
            },
            _ => {
                // Unreachable: `rm_reply_fits` rules these pairings out.
                (
                    RemovalMachine { state: RmState::Finished },
                    RmStep::Done(Err(RmError::OpFailed(String::new(), String::new()))),
                )
            },
        }
    }
}

/// Position of the first record whose branch is `b`, as an index.
fn find_branch_pos(recs: &Vec<Worktree>, b: &str) -> (r: Option<usize>)
    ensures
        match r {
            Some(i) => 0 <= i < recs@.len() && i == find_branch_idx(recs.deep_view(), b@),
            None => find_branch_idx(recs.deep_view(), b@) == -1,
        },
{
    let n = recs.len();
    let mut i: usize = 0;
    proof {
        lemma_find_branch_idx(recs.deep_view(), b@);
    }
    while i < n
        invariant
            n == recs@.len(),
            recs.deep_view().len() == n,
            0 <= i <= n,
            forall|k: int| 0 <= k < i ==> !branch_match(recs.deep_view()[k], b@),
            find_branch_idx(recs.deep_view(), b@) == -1 || 0 <= find_branch_idx(
                recs.deep_view(),
                b@,
            ) < n,
            find_branch_idx(recs.deep_view(), b@) == -1 ==> forall|k: int|
                0 <= k < n ==> !branch_match(recs.deep_view()[k], b@),
            find_branch_idx(recs.deep_view(), b@) >= 0 ==> branch_match(
                recs.deep_view()[find_branch_idx(recs.deep_view(), b@)],
                b@,
            ),
            find_branch_idx(recs.deep_view(), b@) >= 0 ==> forall|k: int|
                0 <= k < find_branch_idx(recs.deep_view(), b@) ==> !branch_match(
                    recs.deep_view()[k],
                    b@,
                ),
        decreases n - i,
    {
        let matched = match recs[i].branch() {
            Some(wb) => crate::strutil::str_eq_str(wb, b),
            None => false,
        };
        proof {
            assert(recs.deep_view()[i as int] == recs@[i as int]@);
        }
        if matched {
            proof {
                assert(branch_match(recs.deep_view()[i as int], b@));
            }
            return Some(i);
        }
        i += 1;
    }
    None
}

/// Law: answering "no" to the confirmation ends the removal successfully
/// as `Cancelled` — the machine is finished, so no worktree removal and
/// no branch deletion is ever requested, and no redirect path is revealed.
pub proof fn lemma_removal_cancelled(
    path: Seq<char>,
    branch: Option<Seq<char>>,
    redirect: Option<Seq<char>>,
    delete_branch: bool,
    force: bool,
)
    ensures
        rmstep_spec(
            RmStateV::AwaitConfirm { path, branch, redirect, delete_branch, force },
            RmReplyV::Answer(false),
        ) == (RmStateV::Finished, RmStepV::Done(Ok(RmOutcomeV::Cancelled))),
{
}

/// Law: destructive work begins only after an affirmative answer: from
/// the confirmation state, "yes" asks for exactly the removal of the
/// confirmed path.
pub proof fn lemma_removal_needs_confirmation(
    path: Seq<char>,
    branch: Option<Seq<char>>,
    redirect: Option<Seq<char>>,
    delete_branch: bool,
    force: bool,
)
    ensures
        rmstep_spec(
            RmStateV::AwaitConfirm { path, branch, redirect, delete_branch, force },
            RmReplyV::Answer(true),
        ) == (
            RmStateV::AwaitRemove { branch, redirect, delete_branch, force },
            RmStepV::Ask(RmQueryV::RemoveWorktree(path)),
        ),
{
}

} // verus!
