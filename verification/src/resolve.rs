//! Branch resolution: deciding which concrete reference a requested
//! branch name stands for.
//!
//! Local branches always win; an explicit remote override is checked
//! directly; otherwise the remotes are searched and a branch present on
//! several of them is reported as ambiguous. The queries themselves are
//! external work, so the resolver is a step machine: it emits one query
//! at a time and the caller feeds the answer back in. `resolve_spec` says
//! what the outcome must be for any consistent set of answers, and
//! `lemma_resolver_follows_world` proves that the machine reaches it.

use vstd::prelude::*;

verus! {

/// What the caller asked to switch to: a named branch, or the default
/// branch (`main`, falling back to `master`).
#[derive(Debug)]
pub enum BranchRequest {
    Named(String),
    MainFallback,
}

pub enum ReqV {
    Named(Seq<char>),
    MainFallback,
}

impl View for BranchRequest {
    type V = ReqV;

    open spec fn view(&self) -> ReqV {
        match self {
            BranchRequest::Named(b) => ReqV::Named(b@),
            BranchRequest::MainFallback => ReqV::MainFallback,
        }
    }
}

/// A branch name with a concrete backing reference: a local branch, or a
/// branch of one remote.
#[derive(Debug)]
pub enum ResolvedBranch {
    Local(String),
    Remote(String, String),
}

pub enum ResolvedV {
    Local(Seq<char>),
    Remote(Seq<char>, Seq<char>),
}

impl View for ResolvedBranch {
    type V = ResolvedV;

    open spec fn view(&self) -> ResolvedV {
        match self {
            ResolvedBranch::Local(b) => ResolvedV::Local(b@),
            ResolvedBranch::Remote(r, b) => ResolvedV::Remote(r@, b@),
        }
    }
}

/// Why resolution failed. `Ambiguous` carries every matching remote, in
/// the order the search reported them.
#[derive(Debug)]
pub enum ResolveError {
    NoDefaultBranch,
    RemoteBranchNotFound(String),
    NotFound(String),
    Ambiguous(String, Vec<String>),
}

pub enum ResolveErrV {
    NoDefaultBranch,
    RemoteBranchNotFound(Seq<char>),
    NotFound(Seq<char>),
    Ambiguous(Seq<char>, Seq<Seq<char>>),
}

impl View for ResolveError {
    type V = ResolveErrV;

    open spec fn view(&self) -> ResolveErrV {
        match self {
            ResolveError::NoDefaultBranch => ResolveErrV::NoDefaultBranch,
            ResolveError::RemoteBranchNotFound(r) => ResolveErrV::RemoteBranchNotFound(r@),
            ResolveError::NotFound(b) => ResolveErrV::NotFound(b@),
            ResolveError::Ambiguous(b, rs) => ResolveErrV::Ambiguous(b@, rs.deep_view()),
        }
    }
}

/// The names joined with a comma and a space between each two.
pub open spec fn join_comma(rs: Seq<Seq<char>>) -> Seq<char>
    decreases rs.len(),
{
    if rs.len() == 0 {
        Seq::empty()
    } else {
        join_comma(rs.drop_last()) + (if rs.len() == 1 {
            Seq::<char>::empty()
        } else {
            ", "@
        }) + rs.last()
    }
}

/// Join names with ", " between each two.
pub fn join_comma_exec(rs: &Vec<String>) -> (r: String)
    ensures
        r@ == join_comma(rs.deep_view()),
{
    let mut r = String::new();
    let n = rs.len();
    let mut i: usize = 0;
    proof {
        assert(rs.deep_view().take(0) =~= Seq::<Seq<char>>::empty());
    }
    while i < n
        invariant
            n == rs@.len(),
            rs.deep_view().len() == n,
            0 <= i <= n,
            r@ == join_comma(rs.deep_view().take(i as int)),
        decreases n - i,
    {
        if i > 0 {
            r.append(", ");
        }
        r.append(rs[i].as_str());
        proof {
            assert(rs.deep_view().take(i + 1).drop_last() =~= rs.deep_view().take(i as int));
            assert(rs.deep_view().take(i + 1).last() == rs.deep_view()[i as int]);
            assert(rs.deep_view()[i as int] == rs@[i as int]@);
            assert(r@ =~= join_comma(rs.deep_view().take(i + 1)));
        }
        i += 1;
    }
    proof {
        assert(rs.deep_view().take(n as int) =~= rs.deep_view());
    }
    r
}

impl ResolveError {
    /// The user-facing text of this resolution error. An ambiguous
    /// branch names every matching remote and suggests the override
    /// with the first of them.
    pub open spec fn message_spec(&self) -> Seq<char> {
        match self {
            ResolveError::NoDefaultBranch => {
                "No default branch: neither 'main' nor 'master' exists."@
            },
            ResolveError::RemoteBranchNotFound(r) => {
                "Remote branch '"@ + r@ + "' not found."@
            },
            ResolveError::NotFound(b) => {
                "Branch '"@ + b@ + "' not found locally or in any remote."@
            },
            ResolveError::Ambiguous(b, rs) => {
                "Branch '"@ + b@ + "' is ambiguous: found on remotes "@ + join_comma(
                    rs.deep_view(),
                ) + (if rs.deep_view().len() > 0 {
                    ". Disambiguate with a remote, e.g. '"@ + rs.deep_view().first() + "/"@ + b@
                        + "'."@
                } else {
                    "."@
                })
            },
        }
    }

    /// Render the error for the user.
    pub fn message(&self) -> (r: String)
        ensures
            r@ == self.message_spec(),
    {
        match self {
            ResolveError::NoDefaultBranch => {
                String::from_str("No default branch: neither 'main' nor 'master' exists.")
            },
            ResolveError::RemoteBranchNotFound(full) => {
                let mut m = String::from_str("Remote branch '");
                m.append(full.as_str());
                m.append("' not found.");
                m
            },
            ResolveError::NotFound(b) => {
                let mut m = String::from_str("Branch '");
                m.append(b.as_str());
                m.append("' not found locally or in any remote.");
                m
            },
            ResolveError::Ambiguous(b, rs) => {
                let mut m = String::from_str("Branch '");
                m.append(b.as_str());
                m.append("' is ambiguous: found on remotes ");
                let joined = join_comma_exec(rs);
                m.append(joined.as_str());
                if rs.len() > 0 {
                    m.append(". Disambiguate with a remote, e.g. '");
                    m.append(rs[0].as_str());
                    m.append("/");
                    m.append(b.as_str());
                    m.append("'.");
                    proof {
                        assert(rs.deep_view()[0] == rs@[0]@);
                    }
                } else {
                    m.append(".");
                }
                m
            },
        }
    }
}

/// A question for the gateway.
pub enum ResolveQuery {
    /// Does a local branch of this name exist?
    LocalExists(String),
    /// Does branch `.1` exist on remote `.0`?
    RemoteExists(String, String),
    /// Which remotes have a branch of this name?
    RemotesWith(String),
}

pub enum QueryV {
    LocalExists(Seq<char>),
    RemoteExists(Seq<char>, Seq<char>),
    RemotesWith(Seq<char>),
}

impl View for ResolveQuery {
    type V = QueryV;

    open spec fn view(&self) -> QueryV {
        match self {
            ResolveQuery::LocalExists(b) => QueryV::LocalExists(b@),
            ResolveQuery::RemoteExists(r, b) => QueryV::RemoteExists(r@, b@),
            ResolveQuery::RemotesWith(b) => QueryV::RemotesWith(b@),
        }
    }
}

/// The gateway's answer to the last query.
pub enum ResolveReply {
    Exists(bool),
    Remotes(Vec<String>),
}

pub enum ReplyV {
    Exists(bool),
    Remotes(Seq<Seq<char>>),
}

impl View for ResolveReply {
    type V = ReplyV;

    open spec fn view(&self) -> ReplyV {
        match self {
            ResolveReply::Exists(b) => ReplyV::Exists(*b),
            ResolveReply::Remotes(rs) => ReplyV::Remotes(rs.deep_view()),
        }
    }
}

/// What the machine wants next: another answer, or it is finished.
pub enum ResolveStep {
    Ask(ResolveQuery),
    Done(Result<ResolvedBranch, ResolveError>),
}

pub enum StepV {
    Ask(QueryV),
    Done(Result<ResolvedV, ResolveErrV>),
}

impl View for ResolveStep {
    type V = StepV;

    open spec fn view(&self) -> StepV {
        match self {
            ResolveStep::Ask(q) => StepV::Ask(q@),
            ResolveStep::Done(r) => StepV::Done(
                match r {
                    Ok(v) => Ok(v@),
                    Err(e) => Err(e@),
                },
            ),
        }
    }
}

enum RState {
    ProbeMain,
    ProbeMaster,
    CheckLocal(String, Option<String>),
    CheckRemote(String, String),
    Search(String),
    Finished,
}

pub enum RStateV {
    ProbeMain,
    ProbeMaster,
    CheckLocal(Seq<char>, Option<Seq<char>>),
    CheckRemote(Seq<char>, Seq<char>),
    Search(Seq<char>),
    Finished,
}

/// The resolver step machine.
pub struct Resolver {
    state: RState,
}

impl View for Resolver {
    type V = RStateV;

    closed spec fn view(&self) -> RStateV {
        match &self.state {
            RState::ProbeMain => RStateV::ProbeMain,
            RState::ProbeMaster => RStateV::ProbeMaster,
            RState::CheckLocal(b, ov) => RStateV::CheckLocal(
                b@,
                match ov {
                    Some(r) => Some(r@),
                    None => None,
                },
            ),
            RState::CheckRemote(b, r) => RStateV::CheckRemote(b@, r@),
            RState::Search(b) => RStateV::Search(b@),
            RState::Finished => RStateV::Finished,
        }
    }
}

/// The first state and query for a request.
pub open spec fn start_spec(req: ReqV, ov: Option<Seq<char>>) -> (RStateV, StepV) {
    match req {
        ReqV::MainFallback => (RStateV::ProbeMain, StepV::Ask(QueryV::LocalExists("main"@))),
        ReqV::Named(b) => (RStateV::CheckLocal(b, ov), StepV::Ask(QueryV::LocalExists(b))),
    }
}

/// The machine is waiting for a yes/no answer.
pub open spec fn expects_exists(st: RStateV) -> bool {
    match st {
        RStateV::ProbeMain => true,
        RStateV::ProbeMaster => true,
        RStateV::CheckLocal(_, _) => true,
        RStateV::CheckRemote(_, _) => true,
        _ => false,
    }
}

/// The machine is waiting for a list of remote names.
pub open spec fn expects_remotes(st: RStateV) -> bool {
    st is Search
}

/// The reply is of the kind the state is waiting for.
pub open spec fn reply_fits(st: RStateV, reply: ReplyV) -> bool {
    match reply {
        ReplyV::Exists(_) => expects_exists(st),
        ReplyV::Remotes(_) => expects_remotes(st),
    }
}

/// One transition of the machine: the next state, and what it wants next.
pub open spec fn rstep_spec(st: RStateV, reply: ReplyV) -> (RStateV, StepV) {
    match (st, reply) {
        (RStateV::ProbeMain, ReplyV::Exists(true)) => (
            RStateV::Finished,
            StepV::Done(Ok(ResolvedV::Local("main"@))),
        ),
        (RStateV::ProbeMain, ReplyV::Exists(false)) => (
            RStateV::ProbeMaster,
            StepV::Ask(QueryV::LocalExists("master"@)),
        ),
        (RStateV::ProbeMaster, ReplyV::Exists(true)) => (
            RStateV::Finished,
            StepV::Done(Ok(ResolvedV::Local("master"@))),
        ),
        (RStateV::ProbeMaster, ReplyV::Exists(false)) => (
            RStateV::Finished,
            StepV::Done(Err(ResolveErrV::NoDefaultBranch)),
        ),
        (RStateV::CheckLocal(b, _), ReplyV::Exists(true)) => (
            RStateV::Finished,
            StepV::Done(Ok(ResolvedV::Local(b))),
        ),
        (RStateV::CheckLocal(b, Some(r)), ReplyV::Exists(false)) => (
            RStateV::CheckRemote(b, r),
            StepV::Ask(QueryV::RemoteExists(r, b)),
        ),
        (RStateV::CheckLocal(b, None), ReplyV::Exists(false)) => (
            RStateV::Search(b),
            StepV::Ask(QueryV::RemotesWith(b)),
        ),
        (RStateV::CheckRemote(b, r), ReplyV::Exists(true)) => (
            RStateV::Finished,
            StepV::Done(Ok(ResolvedV::Remote(r, b))),
        ),
        (RStateV::CheckRemote(b, r), ReplyV::Exists(false)) => (
            RStateV::Finished,
            StepV::Done(Err(ResolveErrV::RemoteBranchNotFound(r + "/"@ + b))),
        ),
        (RStateV::Search(b), ReplyV::Remotes(ms)) => (
            RStateV::Finished,
            if ms.len() == 0 {
                StepV::Done(Err(ResolveErrV::NotFound(b)))
            } else if ms.len() == 1 {
                StepV::Done(Ok(ResolvedV::Remote(ms[0], b)))
            } else {
                StepV::Done(Err(ResolveErrV::Ambiguous(b, ms)))
            },
        ),
        _ => arbitrary(),
    }
}

impl Resolver {
    /// Begin resolving `req` with an optional explicit remote override.
    /// Returns the machine and its first step.
    pub fn start(req: BranchRequest, remote_override: Option<String>) -> (r: (Resolver, ResolveStep))
        ensures
            (r.0@, r.1@) == start_spec(
                req@,
                match remote_override {
                    Some(s) => Some(s@),
                    None => None,
                },
            ),
    {
        match req {
            BranchRequest::MainFallback => (
                Resolver { state: RState::ProbeMain },
                ResolveStep::Ask(ResolveQuery::LocalExists(String::from_str("main"))),
            ),
            BranchRequest::Named(b) => {
                let q = ResolveQuery::LocalExists(b.clone());
                (
                    Resolver { state: RState::CheckLocal(b, remote_override) },
                    ResolveStep::Ask(q),
                )
            },
        }
    }

    /// Feed the answer to the last query in; get the machine back with
    /// its next step.
    pub fn next(self, reply: ResolveReply) -> (r: (Resolver, ResolveStep))
        requires
            reply_fits(self@, reply@),
        ensures
            (r.0@, r.1@) == rstep_spec(self@, reply@),
    {
        match (self.state, reply) {
            (RState::ProbeMain, ResolveReply::Exists(true)) => (
                Resolver { state: RState::Finished },
                ResolveStep::Done(Ok(ResolvedBranch::Local(String::from_str("main")))),
            ),
            (RState::ProbeMain, ResolveReply::Exists(false)) => (
                Resolver { state: RState::ProbeMaster },
                ResolveStep::Ask(ResolveQuery::LocalExists(String::from_str("master"))),
            ),
            (RState::ProbeMaster, ResolveReply::Exists(true)) => (
                Resolver { state: RState::Finished },
                ResolveStep::Done(Ok(ResolvedBranch::Local(String::from_str("master")))),
            ),
            (RState::ProbeMaster, ResolveReply::Exists(false)) => (
                Resolver { state: RState::Finished },
                ResolveStep::Done(Err(ResolveError::NoDefaultBranch)),
            ),
            (RState::CheckLocal(b, _), ResolveReply::Exists(true)) => (
                Resolver { state: RState::Finished },
                ResolveStep::Done(Ok(ResolvedBranch::Local(b))),
            ),
            (RState::CheckLocal(b, Some(r)), ResolveReply::Exists(false)) => {
                let q = ResolveQuery::RemoteExists(r.clone(), b.clone());
                (Resolver { state: RState::CheckRemote(b, r) }, ResolveStep::Ask(q))
            },
            (RState::CheckLocal(b, None), ResolveReply::Exists(false)) => {
                let q = ResolveQuery::RemotesWith(b.clone());
                (Resolver { state: RState::Search(b) }, ResolveStep::Ask(q))
            },
            (RState::CheckRemote(b, r), ResolveReply::Exists(true)) => (
                Resolver { state: RState::Finished },
                ResolveStep::Done(Ok(ResolvedBranch::Remote(r, b))),
            ),
            (RState::CheckRemote(b, r), ResolveReply::Exists(false)) => {
                let mut full = r;
                full.append("/");
                full.append(b.as_str());
                (
                    Resolver { state: RState::Finished },
                    ResolveStep::Done(Err(ResolveError::RemoteBranchNotFound(full))),
                )
            },
            (RState::Search(b), ResolveReply::Remotes(ms)) => {
                let step = if ms.len() == 0 {
                    ResolveStep::Done(Err(ResolveError::NotFound(b)))
                } else if ms.len() == 1 {
                    let mut ms = ms;
                    let first = ms.remove(0);
                    ResolveStep::Done(Ok(ResolvedBranch::Remote(first, b)))
                } else {
                    ResolveStep::Done(Err(ResolveError::Ambiguous(b, ms)))
                };
                (Resolver { state: RState::Finished }, step)
            },
            _ => {
                // Unreachable: `reply_fits` rules these pairings out.
                (
                    Resolver { state: RState::Finished },
                    ResolveStep::Done(Err(ResolveError::NoDefaultBranch)),
                )
            },
        }
    }
}

/// A snapshot of the branch state of the repository and its remotes:
/// which local branches exist, and, for each branch name, which remotes
/// have it, in the order the gateway enumerates them.
pub struct WorldV {
    pub locals: Set<Seq<char>>,
    pub remotes_with: spec_fn(Seq<char>) -> Seq<Seq<char>>,
}

/// The answer the world gives to a query.
pub open spec fn answer(w: WorldV, q: QueryV) -> ReplyV {
    match q {
        QueryV::LocalExists(b) => ReplyV::Exists(w.locals.contains(b)),
        QueryV::RemoteExists(r, b) => ReplyV::Exists((w.remotes_with)(b).contains(r)),
        QueryV::RemotesWith(b) => ReplyV::Remotes((w.remotes_with)(b)),
    }
}

/// What resolution must yield on world `w`, stated in one piece.
pub open spec fn resolve_spec(w: WorldV, req: ReqV, ov: Option<Seq<char>>) -> Result<
    ResolvedV,
    ResolveErrV,
> {
    match req {
        ReqV::MainFallback => if w.locals.contains("main"@) {
            Ok(ResolvedV::Local("main"@))
        } else if w.locals.contains("master"@) {
            Ok(ResolvedV::Local("master"@))
        } else {
            Err(ResolveErrV::NoDefaultBranch)
        },
        ReqV::Named(b) => if w.locals.contains(b) {
            Ok(ResolvedV::Local(b))
        } else {
            match ov {
                Some(r) => if (w.remotes_with)(b).contains(r) {
                    Ok(ResolvedV::Remote(r, b))
                } else {
                    Err(ResolveErrV::RemoteBranchNotFound(r + "/"@ + b))
                },
                None => {
                    let ms = (w.remotes_with)(b);
                    if ms.len() == 0 {
                        Err(ResolveErrV::NotFound(b))
                    } else if ms.len() == 1 {
                        Ok(ResolvedV::Remote(ms[0], b))
                    } else {
                        Err(ResolveErrV::Ambiguous(b, ms))
                    }
                },
            }
        },
    }
}

/// Drive the machine with the world's own answers for up to `fuel` steps.
pub open spec fn run_from(w: WorldV, st: RStateV, step: StepV, fuel: nat) -> StepV
    decreases fuel,
{
    match step {
        StepV::Done(r) => StepV::Done(r),
        StepV::Ask(q) => if fuel == 0 {
            step
        } else {
            let next = rstep_spec(st, answer(w, q));
            run_from(w, next.0, next.1, (fuel - 1) as nat)
        },
    }
}

/// Law: whenever every query is answered consistently with one world,
/// the resolver terminates with exactly `resolve_spec`'s outcome.
pub proof fn lemma_resolver_follows_world(w: WorldV, req: ReqV, ov: Option<Seq<char>>)
    ensures
        run_from(w, start_spec(req, ov).0, start_spec(req, ov).1, 3) == StepV::Done(
            resolve_spec(w, req, ov),
        ),
{
    reveal_with_fuel(run_from, 4);
}

/// Law: a branch that exists locally always resolves to `Local`, whatever
/// the remotes hold and whether or not an override was given.
pub proof fn lemma_local_precedence(w: WorldV, b: Seq<char>, ov: Option<Seq<char>>)
    requires
        w.locals.contains(b),
    ensures
        resolve_spec(w, ReqV::Named(b), ov) == Ok::<ResolvedV, ResolveErrV>(ResolvedV::Local(b)),
{
}

/// Law: a default-branch request resolves to `main` whenever a local
/// `main` exists — also when `master` exists beside it.
pub proof fn lemma_main_precedence(w: WorldV, ov: Option<Seq<char>>)
    requires
        w.locals.contains("main"@),
    ensures
        resolve_spec(w, ReqV::MainFallback, ov) == Ok::<ResolvedV, ResolveErrV>(
            ResolvedV::Local("main"@),
        ),
{
}

/// Law: a branch absent locally and present on two or more remotes, with
/// no override, fails as ambiguous, and the error carries every matching
/// remote in the order the search reported them.
pub proof fn lemma_ambiguity_detected(w: WorldV, b: Seq<char>)
    requires
        !w.locals.contains(b),
        (w.remotes_with)(b).len() >= 2,
    ensures
        resolve_spec(w, ReqV::Named(b), None) == Err::<ResolvedV, ResolveErrV>(
            ResolveErrV::Ambiguous(b, (w.remotes_with)(b)),
        ),
{
}

} // verus!
