//! Worktree records and the porcelain-listing parser.
//!
//! The listing is a line-oriented text: records are separated by blank
//! lines; within a record the lines `worktree <path>`, `HEAD <hash>`,
//! `branch <ref>` and the bare marker `detached` are recognized, and any
//! other line is ignored. A record lacking a path or a head is dropped.
//! The parser is total: it accepts any text.

use crate::strutil::{
    has_prefix, starts_with_str, str_eq_str, trim_end_spec, trim_end_str, ws_char,
};
use vstd::prelude::*;

verus! {

/// One entry of a worktree listing: the directory, the commit its HEAD
/// points at, and the branch checked out there (`None` for a detached HEAD).
#[derive(Debug, Clone, PartialEq, Eq)]
pub struct Worktree {
    path: String,
    head: String,
    branch: Option<String>,
}

/// The mathematical value of a `Worktree`: its fields as sequences.
#[verifier::ext_equal]
pub struct WorktreeV {
    pub path: Seq<char>,
    pub head: Seq<char>,
    pub branch: Option<Seq<char>>,
}

impl View for Worktree {
    type V = WorktreeV;

    closed spec fn view(&self) -> WorktreeV {
        WorktreeV {
            path: self.path@,
            head: self.head@,
            branch: match self.branch {
                Some(b) => Some(b@),
                None => None,
            },
        }
    }
}

impl DeepView for Worktree {
    type V = WorktreeV;

    open spec fn deep_view(&self) -> WorktreeV {
        self.view()
    }
}

impl Worktree {
    pub fn new(path: String, head: String, branch: Option<String>) -> (r: Self)
        ensures
            r@.path == path@,
            r@.head == head@,
            r@.branch == (match branch {
                Some(b) => Some(b@),
                None => None::<Seq<char>>,
            }),
    {
        Worktree { path, head, branch }
    }

    /// Return the worktree path.
    pub fn path(&self) -> (r: &String)
        ensures
            r@ == self@.path,
    {
        &self.path
    }

    /// Return the head commit identifier.
    pub fn head(&self) -> (r: &str)
        ensures
            r@ == self@.head,
    {
        self.head.as_str()
    }

    /// Return the branch name, if any.
    pub fn branch(&self) -> (r: Option<&str>)
        ensures
            match r {
                Some(b) => self@.branch == Some(b@),
                None => self@.branch is None,
            },
    {
        match &self.branch {
            Some(b) => Some(b.as_str()),
            None => None,
        }
    }
}

/// Index of the first newline in `s`, or `s.len()` when there is none.
pub open spec fn find_nl(s: Seq<char>) -> int
    decreases s.len(),
{
    if s.len() == 0 {
        0
    } else if s.first() == '\n' {
        0
    } else {
        1 + find_nl(s.drop_first())
    }
}

pub proof fn lemma_find_nl_bounds(s: Seq<char>)
    ensures
        0 <= find_nl(s) <= s.len(),
        find_nl(s) < s.len() ==> s[find_nl(s)] == '\n',
        forall|k: int| 0 <= k < find_nl(s) ==> s[k] != '\n',
    decreases s.len(),
{
    if s.len() == 0 {
    } else if s.first() == '\n' {
    } else {
        lemma_find_nl_bounds(s.drop_first());
        assert(find_nl(s) == 1 + find_nl(s.drop_first()));
        assert forall|k: int| 0 <= k < find_nl(s) implies s[k] != '\n' by {
            if k >= 1 {
                assert(s.drop_first()[k - 1] == s[k]);
            }
        }
        if find_nl(s) < s.len() {
            assert(s[find_nl(s)] == s.drop_first()[find_nl(s) - 1]);
        }
    }
}

/// `find_nl` returns exactly the position of the first newline.
pub proof fn lemma_find_nl_at(s: Seq<char>, m: int)
    requires
        0 <= m <= s.len(),
        forall|k: int| 0 <= k < m ==> s[k] != '\n',
        m < s.len() ==> s[m] == '\n',
    ensures
        find_nl(s) == m,
    decreases s.len(),
{
    if s.len() == 0 {
    } else if s.first() == '\n' {
        assert(m == 0);
    } else {
        assert(m >= 1);
        lemma_find_nl_at(s.drop_first(), m - 1);
    }
}

/// The text split at newline characters; a text of `n` newlines yields
/// `n + 1` pieces.
pub open spec fn split_lines(s: Seq<char>) -> Seq<Seq<char>>
    decreases s.len(),
    via split_lines_dec
{
    let i = find_nl(s);
    if i >= s.len() {
        seq![s]
    } else {
        seq![s.take(i)] + split_lines(s.skip(i + 1))
    }
}

#[via_fn]
proof fn split_lines_dec(s: Seq<char>) {
    lemma_find_nl_bounds(s);
}

/// The parser's running state: the fields gathered for the record being
/// read, and the records finished so far.
#[verifier::ext_equal]
pub struct ParseSt {
    pub path: Option<Seq<char>>,
    pub head: Option<Seq<char>>,
    pub branch: Option<Seq<char>>,
    pub out: Seq<WorktreeV>,
}

pub open spec fn init_st() -> ParseSt {
    ParseSt { path: None, head: None, branch: None, out: seq![] }
}

/// Close the record being read: keep it only when both a path and a head
/// were seen, and clear the gathered fields either way.
pub open spec fn flush(st: ParseSt) -> ParseSt {
    match (st.path, st.head) {
        (Some(p), Some(h)) => ParseSt {
            path: None,
            head: None,
            branch: None,
            out: st.out.push(WorktreeV { path: p, head: h, branch: st.branch }),
        },
        _ => ParseSt { path: None, head: None, branch: None, out: st.out },
    }
}

/// A branch reference with an exact leading `refs/heads/` removed.
pub open spec fn strip_heads(r: Seq<char>) -> Seq<char> {
    if has_prefix(r, "refs/heads/"@) {
        r.skip(11)
    } else {
        r
    }
}

/// How one listing line, with trailing whitespace removed, changes the
/// parser state.
pub open spec fn step_line(st: ParseSt, raw: Seq<char>) -> ParseSt {
    let l = trim_end_spec(raw);
    if l.len() == 0 {
        flush(st)
    } else if has_prefix(l, "worktree "@) {
        ParseSt { path: Some(l.skip(9)), head: st.head, branch: st.branch, out: st.out }
    } else if has_prefix(l, "HEAD "@) {
        ParseSt { path: st.path, head: Some(l.skip(5)), branch: st.branch, out: st.out }
    } else if has_prefix(l, "branch "@) {
        ParseSt { path: st.path, head: st.head, branch: Some(strip_heads(l.skip(7))), out: st.out }
    } else if l == "detached"@ {
        ParseSt { path: st.path, head: st.head, branch: None, out: st.out }
    } else {
        st
    }
}

pub open spec fn run_lines(st: ParseSt, lines: Seq<Seq<char>>) -> ParseSt
    decreases lines.len(),
{
    if lines.len() == 0 {
        st
    } else {
        run_lines(step_line(st, lines.first()), lines.drop_first())
    }
}

/// The records held in a porcelain worktree listing.
pub open spec fn parse_porcelain_spec(s: Seq<char>) -> Seq<WorktreeV> {
    flush(run_lines(init_st(), split_lines(s))).out
}

pub proof fn lemma_run_lines_push(st: ParseSt, lines: Seq<Seq<char>>, l: Seq<char>)
    ensures
        run_lines(st, lines.push(l)) == step_line(run_lines(st, lines), l),
    decreases lines.len(),
{
    reveal_with_fuel(run_lines, 3);
    if lines.len() == 0 {
        assert(lines.push(l).drop_first() =~= Seq::<Seq<char>>::empty());
        assert(lines.push(l).first() == l);
    } else {
        assert(lines.push(l).drop_first() =~= lines.drop_first().push(l));
        assert(lines.push(l).first() == lines.first());
        lemma_run_lines_push(step_line(st, lines.first()), lines.drop_first(), l);
    }
}

spec fn opt_v(o: Option<String>) -> Option<Seq<char>> {
    match o {
        Some(s) => Some(s@),
        None => None,
    }
}

/// Parse a porcelain worktree listing. Total: any text is accepted, and
/// unrecognized lines are ignored.
pub fn parse_porcelain(input: &str) -> (r: Vec<Worktree>)
    ensures
        r.deep_view() == parse_porcelain_spec(input@),
{
    let n = input.unicode_len();
    let mut i: usize = 0;
    let ghost mut done: Seq<Seq<char>> = Seq::empty();
    let mut cur_path: Option<String> = None;
    let mut cur_head: Option<String> = None;
    let mut cur_branch: Option<String> = None;
    let mut out: Vec<Worktree> = Vec::new();

    proof {
        assert(run_lines(init_st(), done) =~= (ParseSt {
            path: opt_v(cur_path),
            head: opt_v(cur_head),
            branch: opt_v(cur_branch),
            out: out.deep_view(),
        }));
        assert(input@.skip(0) =~= input@);
        assert(done + split_lines(input@.skip(0)) =~= split_lines(input@));
    }

    loop
        invariant_except_break
            n == input@.len(),
            0 <= i <= n,
            split_lines(input@) == done + split_lines(input@.skip(i as int)),
            run_lines(init_st(), done) == (ParseSt {
                path: opt_v(cur_path),
                head: opt_v(cur_head),
                branch: opt_v(cur_branch),
                out: out.deep_view(),
            }),
        ensures
            run_lines(init_st(), split_lines(input@)) == (ParseSt {
                path: opt_v(cur_path),
                head: opt_v(cur_head),
                branch: opt_v(cur_branch),
                out: out.deep_view(),
            }),
        decreases n - i,
    {
        let mut j: usize = i;
        while j < n && input.get_char(j) != '\n'
            invariant
                n == input@.len(),
                i <= j <= n,
                forall|k: int| i <= k < j ==> input@[k] != '\n',
            decreases n - j,
        {
            j += 1;
        }
        let line = input.substring_char(i, j);
        proof {
            lemma_find_nl_at(input@.skip(i as int), j - i);
            assert(input@.skip(i as int).take(j - i) =~= line@);
            if j < n {
                assert(input@.skip(i as int).skip(j - i + 1) =~= input@.skip(j + 1));
                assert(split_lines(input@.skip(i as int)) == seq![line@] + split_lines(
                    input@.skip(j + 1),
                ));
            } else {
                assert(input@.skip(i as int) =~= line@);
                assert(split_lines(input@.skip(i as int)) == seq![line@]);
            }
            lemma_run_lines_push(init_st(), done, line@);
        }
        let ghost st_before = run_lines(init_st(), done);
        proof {
            done = done.push(line@);
        }

        let l = trim_end_str(line);
        let llen = l.unicode_len();
        if llen == 0 {
            let p = cur_path;
            let h = cur_head;
            let b = cur_branch;
            cur_path = None;
            cur_head = None;
            cur_branch = None;
            match (p, h) {
                (Some(pp), Some(hh)) => {
                    let w = Worktree { path: pp, head: hh, branch: b };
                    let ghost old_out = out.deep_view();
                    out.push(w);
                    proof {
                        assert(out.deep_view() =~= old_out.push(w@));
                    }
                },
                _ => {},
            }
        } else if starts_with_str(l, "worktree ") {
            proof {
                reveal_strlit("worktree ");
            }
            cur_path = Some(String::from_str(l.substring_char(9, llen)));
            proof {
                assert(l@.subrange(9, llen as int) =~= l@.skip(9));
            }
        } else if starts_with_str(l, "HEAD ") {
            proof {
                reveal_strlit("HEAD ");
            }
            cur_head = Some(String::from_str(l.substring_char(5, llen)));
            proof {
                assert(l@.subrange(5, llen as int) =~= l@.skip(5));
            }
        } else if starts_with_str(l, "branch ") {
            proof {
                reveal_strlit("branch ");
            }
            let rest = l.substring_char(7, llen);
            proof {
                assert(l@.subrange(7, llen as int) =~= l@.skip(7));
            }
            let restlen = llen - 7;
            if starts_with_str(rest, "refs/heads/") {
                proof {
                    reveal_strlit("refs/heads/");
                }
                cur_branch = Some(String::from_str(rest.substring_char(11, restlen)));
                proof {
                    assert(rest@.subrange(11, restlen as int) =~= rest@.skip(11));
                }
            } else {
                cur_branch = Some(String::from_str(rest));
            }
        } else if str_eq_str(l, "detached") {
            cur_branch = None;
        }

        proof {
            assert(run_lines(init_st(), done) == step_line(st_before, line@));
            assert(run_lines(init_st(), done) =~= (ParseSt {
                path: opt_v(cur_path),
                head: opt_v(cur_head),
                branch: opt_v(cur_branch),
                out: out.deep_view(),
            }));
        }

        if j == n {
            proof {
                assert(done =~= split_lines(input@));
            }
            break;
        }
        i = j + 1;
    }

    let p = cur_path;
    let h = cur_head;
    let b = cur_branch;
    match (p, h) {
        (Some(pp), Some(hh)) => {
            let w = Worktree { path: pp, head: hh, branch: b };
            let ghost old_out = out.deep_view();
            out.push(w);
            proof {
                assert(out.deep_view() =~= old_out.push(w@));
            }
        },
        _ => {},
    }
    proof {
        assert(out.deep_view() =~= parse_porcelain_spec(input@));
    }
    out
}

/// No newline anywhere in the text.
pub open spec fn no_nl(s: Seq<char>) -> bool {
    forall|k: int| 0 <= k < s.len() ==> s[k] != '\n'
}

/// Text that survives a line round trip: no newline inside, no trailing
/// whitespace to be trimmed away.
pub open spec fn wf_text(s: Seq<char>) -> bool {
    no_nl(s) && (s.len() > 0 ==> !ws_char(s.last()))
}

/// A record the porcelain rendering represents faithfully: path and head
/// present and line-safe, and the branch name line-safe when there is one.
pub open spec fn wf_record(r: WorktreeV) -> bool {
    &&& wf_text(r.path)
    &&& r.path.len() > 0
    &&& wf_text(r.head)
    &&& r.head.len() > 0
    &&& match r.branch {
        Some(b) => wf_text(b),
        None => true,
    }
}

/// The lines of one rendered record: the path, the head, and the branch
/// or detached marker, followed by the separating blank line.
pub open spec fn record_lines(r: WorktreeV) -> Seq<Seq<char>> {
    seq![
        "worktree "@ + r.path,
        "HEAD "@ + r.head,
        match r.branch {
            Some(b) => "branch refs/heads/"@ + b,
            None => "detached"@,
        },
        Seq::<char>::empty(),
    ]
}

/// One rendered record as text, each line closed with a newline.
pub open spec fn render_record(r: WorktreeV) -> Seq<char> {
    ("worktree "@ + r.path) + seq!['\n'] + ("HEAD "@ + r.head) + seq!['\n'] + (match r.branch {
        Some(b) => "branch refs/heads/"@ + b,
        None => "detached"@,
    }) + seq!['\n'] + seq!['\n']
}

/// The porcelain rendering of a record sequence.
pub open spec fn render_spec(rs: Seq<WorktreeV>) -> Seq<char>
    decreases rs.len(),
{
    if rs.len() == 0 {
        Seq::empty()
    } else {
        render_record(rs.first()) + render_spec(rs.drop_first())
    }
}

/// Splitting at a newline that closes a newline-free first line.
pub proof fn lemma_split_lines_concat(a: Seq<char>, b: Seq<char>)
    requires
        no_nl(a),
    ensures
        split_lines(a + seq!['\n'] + b) == seq![a] + split_lines(b),
{
    let s = a + seq!['\n'] + b;
    lemma_find_nl_at(s, a.len() as int);
    assert(s.take(a.len() as int) =~= a);
    assert(s.skip(a.len() as int + 1) =~= b);
    assert(find_nl(s) < s.len());
}

/// Running the parser over a concatenation runs it over each part in turn.
pub proof fn lemma_run_lines_concat(st: ParseSt, la: Seq<Seq<char>>, lb: Seq<Seq<char>>)
    ensures
        run_lines(st, la + lb) == run_lines(run_lines(st, la), lb),
    decreases la.len(),
{
    if la.len() == 0 {
        assert(la + lb =~= lb);
    } else {
        assert((la + lb).first() == la.first());
        assert((la + lb).drop_first() =~= la.drop_first() + lb);
        lemma_run_lines_concat(step_line(st, la.first()), la.drop_first(), lb);
    }
}

proof fn lemma_no_nl_concat(a: Seq<char>, b: Seq<char>)
    requires
        no_nl(a),
        no_nl(b),
    ensures
        no_nl(a + b),
{
    assert forall|k: int| 0 <= k < (a + b).len() implies (a + b)[k] != '\n' by {
        if k < a.len() {
            assert((a + b)[k] == a[k]);
        } else {
            assert((a + b)[k] == b[k - a.len()]);
        }
    }
}

/// The text facts about the recognized literals that the round-trip
/// proof leans on.
proof fn lemma_literal_facts()
    ensures
        "worktree "@.len() == 9,
        "HEAD "@.len() == 5,
        "branch "@.len() == 7,
        "branch refs/heads/"@.len() == 18,
        "refs/heads/"@.len() == 11,
        "detached"@.len() == 8,
        no_nl("worktree "@),
        no_nl("HEAD "@),
        no_nl("branch refs/heads/"@),
        no_nl("detached"@),
        "worktree "@[0] == 'w',
        "HEAD "@[0] == 'H',
        "branch "@[0] == 'b',
        "branch refs/heads/"@[0] == 'b',
        "detached"@[0] == 'd',
        "worktree "@[8] == ' ',
        "HEAD "@[4] == ' ',
        !ws_char("branch refs/heads/"@.last()),
        !ws_char("detached"@.last()),
        "branch refs/heads/"@.take(7) == "branch "@,
        "branch refs/heads/"@.skip(7) == "refs/heads/"@,
{
    reveal_strlit("worktree ");
    reveal_strlit("HEAD ");
    reveal_strlit("branch ");
    reveal_strlit("branch refs/heads/");
    reveal_strlit("refs/heads/");
    reveal_strlit("detached");
    assert(no_nl("worktree "@));
    assert(no_nl("HEAD "@));
    assert(no_nl("branch refs/heads/"@));
    assert(no_nl("detached"@));
    assert("branch refs/heads/"@.take(7) =~= "branch "@);
    assert("branch refs/heads/"@.skip(7) =~= "refs/heads/"@);
}

/// A line whose last character is solid is not trimmed.
proof fn lemma_trim_id(l: Seq<char>)
    requires
        l.len() > 0,
        !ws_char(l.last()),
    ensures
        trim_end_spec(l) == l,
{
    crate::strutil::lemma_trim_end_at(l, l.len() as int);
    assert(l.take(l.len() as int) =~= l);
}

proof fn lemma_step_wline(st: ParseSt, p: Seq<char>)
    requires
        wf_text(p),
        p.len() > 0,
    ensures
        step_line(st, "worktree "@ + p) == (ParseSt {
            path: Some(p),
            head: st.head,
            branch: st.branch,
            out: st.out,
        }),
{
    lemma_literal_facts();
    let l = "worktree "@ + p;
    assert(l.last() == p.last());
    lemma_trim_id(l);
    assert(has_prefix(l, "worktree "@)) by {
        assert(l.take(9) =~= "worktree "@);
    }
    assert(l.skip(9) =~= p);
}

proof fn lemma_step_hline(st: ParseSt, h: Seq<char>)
    requires
        wf_text(h),
        h.len() > 0,
    ensures
        step_line(st, "HEAD "@ + h) == (ParseSt {
            path: st.path,
            head: Some(h),
            branch: st.branch,
            out: st.out,
        }),
{
    lemma_literal_facts();
    let l = "HEAD "@ + h;
    assert(l.last() == h.last());
    lemma_trim_id(l);
    assert(!has_prefix(l, "worktree "@)) by {
        if has_prefix(l, "worktree "@) {
            assert(l.take(9)[0] == l[0]);
            assert(l[0] == 'H');
        }
    }
    assert(has_prefix(l, "HEAD "@)) by {
        assert(l.take(5) =~= "HEAD "@);
    }
    assert(l.skip(5) =~= h);
}

proof fn lemma_step_bline_some(st: ParseSt, b: Seq<char>)
    requires
        wf_text(b),
    ensures
        step_line(st, "branch refs/heads/"@ + b) == (ParseSt {
            path: st.path,
            head: st.head,
            branch: Some(b),
            out: st.out,
        }),
{
    lemma_literal_facts();
    let l = "branch refs/heads/"@ + b;
    if b.len() > 0 {
        assert(l.last() == b.last());
    } else {
        assert(l =~= "branch refs/heads/"@);
        assert(l.last() == "branch refs/heads/"@.last());
    }
    lemma_trim_id(l);
    assert(!has_prefix(l, "worktree "@)) by {
        if has_prefix(l, "worktree "@) {
            assert(l.take(9)[0] == l[0]);
            assert(l[0] == 'b');
        }
    }
    assert(!has_prefix(l, "HEAD "@)) by {
        if has_prefix(l, "HEAD "@) {
            assert(l.take(5)[0] == l[0]);
            assert(l[0] == 'b');
        }
    }
    assert(has_prefix(l, "branch "@)) by {
        assert forall|k: int| 0 <= k < 7 implies l.take(7)[k] == "branch "@[k] by {
            assert(l[k] == "branch refs/heads/"@[k]);
            assert("branch refs/heads/"@.take(7)[k] == "branch refs/heads/"@[k]);
        }
        assert(l.take(7) =~= "branch "@);
    }
    let rest = l.skip(7);
    assert(rest =~= "refs/heads/"@ + b);
    assert(has_prefix(rest, "refs/heads/"@)) by {
        assert(rest.take(11) =~= "refs/heads/"@);
    }
    assert(strip_heads(rest) =~= b);
}

proof fn lemma_step_bline_none(st: ParseSt)
    ensures
        step_line(st, "detached"@) == (ParseSt {
            path: st.path,
            head: st.head,
            branch: None,
            out: st.out,
        }),
{
    lemma_literal_facts();
    let l = "detached"@;
    lemma_trim_id(l);
    assert(!has_prefix(l, "worktree "@));
    assert(!has_prefix(l, "HEAD "@)) by {
        if has_prefix(l, "HEAD "@) {
            assert(l.take(5)[0] == l[0]);
        }
    }
    assert(!has_prefix(l, "branch "@)) by {
        if has_prefix(l, "branch "@) {
            assert(l.take(7)[0] == l[0]);
            reveal_strlit("branch ");
            reveal_strlit("detached");
        }
    }
}

proof fn lemma_step_blank(st: ParseSt)
    ensures
        step_line(st, Seq::<char>::empty()) == flush(st),
{
    assert(trim_end_spec(Seq::<char>::empty()).len() == 0);
}

/// Parsing the four lines of one rendered record appends exactly that
/// record and leaves the state clear again.
proof fn lemma_run_record_lines(st: ParseSt, r: WorktreeV)
    requires
        st.path is None,
        st.head is None,
        st.branch is None,
        wf_record(r),
    ensures
        run_lines(st, record_lines(r)) == (ParseSt {
            path: None,
            head: None,
            branch: None,
            out: st.out.push(r),
        }),
{
    reveal_with_fuel(run_lines, 6);
    let lines = record_lines(r);
    let st1 = step_line(st, lines[0]);
    lemma_step_wline(st, r.path);
    let st2 = step_line(st1, lines[1]);
    lemma_step_hline(st1, r.head);
    let st3 = step_line(st2, lines[2]);
    match r.branch {
        Some(b) => lemma_step_bline_some(st2, b),
        None => lemma_step_bline_none(st2),
    }
    let st4 = step_line(st3, lines[3]);
    lemma_step_blank(st3);
    assert(st4.out =~= st.out.push(r)) by {
        assert(st3.path == Some(r.path));
        assert(st3.head == Some(r.head));
        assert(st3.branch == r.branch);
    }
    assert(lines.drop_first().drop_first().drop_first().drop_first()
        =~= Seq::<Seq<char>>::empty());
    assert(run_lines(st, lines) == st4);
}

/// Splitting one rendered record off the front of a text yields its four
/// lines followed by the lines of the rest.
proof fn lemma_split_render_record(r: WorktreeV, tail: Seq<char>)
    requires
        wf_record(r),
    ensures
        split_lines(render_record(r) + tail) == record_lines(r) + split_lines(tail),
{
    lemma_literal_facts();
    let wline = "worktree "@ + r.path;
    let hline = "HEAD "@ + r.head;
    let bline = match r.branch {
        Some(b) => "branch refs/heads/"@ + b,
        None => "detached"@,
    };
    lemma_no_nl_concat("worktree "@, r.path);
    lemma_no_nl_concat("HEAD "@, r.head);
    match r.branch {
        Some(b) => lemma_no_nl_concat("branch refs/heads/"@, b),
        None => {},
    }

    let rest3 = Seq::<char>::empty() + seq!['\n'] + tail;
    let rest2 = bline + seq!['\n'] + rest3;
    let rest1 = hline + seq!['\n'] + rest2;
    assert(render_record(r) + tail =~= wline + seq!['\n'] + rest1);
    lemma_split_lines_concat(wline, rest1);
    lemma_split_lines_concat(hline, rest2);
    lemma_split_lines_concat(bline, rest3);
    assert(no_nl(Seq::<char>::empty()));
    lemma_split_lines_concat(Seq::<char>::empty(), tail);
    assert(seq![wline] + (seq![hline] + (seq![bline] + (seq![Seq::<char>::empty()] + split_lines(
        tail,
    )))) =~= record_lines(r) + split_lines(tail));
}

/// The parser state with nothing gathered for a record in progress.
pub open spec fn clear_st(st: ParseSt) -> bool {
    st.path is None && st.head is None && st.branch is None
}

proof fn lemma_run_render(st: ParseSt, rs: Seq<WorktreeV>)
    requires
        clear_st(st),
        forall|k: int| 0 <= k < rs.len() ==> wf_record(#[trigger] rs[k]),
    ensures
        flush(run_lines(st, split_lines(render_spec(rs)))).out == st.out + rs,
    decreases rs.len(),
{
    if rs.len() == 0 {
        assert(render_spec(rs) == Seq::<char>::empty());
        assert(find_nl(Seq::<char>::empty()) == 0);
        assert(split_lines(Seq::<char>::empty()) == seq![Seq::<char>::empty()]);
        reveal_with_fuel(run_lines, 2);
        lemma_step_blank(st);
        assert(seq![Seq::<char>::empty()].drop_first() =~= Seq::<Seq<char>>::empty());
        assert(run_lines(st, seq![Seq::<char>::empty()]) == flush(st));
        assert(flush(flush(st)).out =~= st.out);
        assert(st.out + rs =~= st.out);
    } else {
        let r = rs.first();
        let rest = rs.drop_first();
        assert(wf_record(r)) by {
            assert(rs[0] == r);
        }
        assert(render_spec(rs) == render_record(r) + render_spec(rest));
        lemma_split_render_record(r, render_spec(rest));
        lemma_run_lines_concat(st, record_lines(r), split_lines(render_spec(rest)));
        lemma_run_record_lines(st, r);
        let st2 = ParseSt { path: None, head: None, branch: None, out: st.out.push(r) };
        assert forall|k: int| 0 <= k < rest.len() implies wf_record(#[trigger] rest[k]) by {
            assert(rest[k] == rs[k + 1]);
        }
        lemma_run_render(st2, rest);
        assert(st.out.push(r) + rest =~= st.out + rs);
    }
}

/// Law: parsing is left inverse to rendering — rendering any sequence of
/// well-formed records and parsing the text back yields the same records.
pub proof fn lemma_parse_render_roundtrip(rs: Seq<WorktreeV>)
    requires
        forall|k: int| 0 <= k < rs.len() ==> wf_record(#[trigger] rs[k]),
    ensures
        parse_porcelain_spec(render_spec(rs)) == rs,
{
    lemma_run_render(init_st(), rs);
    assert(Seq::<WorktreeV>::empty() + rs =~= rs);
}

proof fn lemma_trim_end_wf(s: Seq<char>)
    requires
        no_nl(s),
    ensures
        wf_text(trim_end_spec(s)),
    decreases s.len(),
{
    if s.len() > 0 && ws_char(s.last()) {
        assert(no_nl(s.drop_last())) by {
            assert forall|k: int| 0 <= k < s.drop_last().len() implies s.drop_last()[k] != '\n' by {
                assert(s.drop_last()[k] == s[k]);
            }
        }
        lemma_trim_end_wf(s.drop_last());
    }
}

/// Every piece of the split is free of newlines.
proof fn lemma_split_lines_no_nl(s: Seq<char>)
    ensures
        forall|k: int| 0 <= k < split_lines(s).len() ==> no_nl(#[trigger] split_lines(s)[k]),
    decreases s.len(),
{
    lemma_find_nl_bounds(s);
    let i = find_nl(s);
    if i >= s.len() {
        assert(no_nl(s)) by {
            assert forall|k: int| 0 <= k < s.len() implies s[k] != '\n' by {
                assert(k < i);
            }
        }
    } else {
        lemma_split_lines_no_nl(s.skip(i + 1));
        assert(no_nl(s.take(i))) by {
            assert forall|k: int| 0 <= k < s.take(i).len() implies s.take(i)[k] != '\n' by {
                assert(s.take(i)[k] == s[k]);
            }
        }
        assert forall|k: int| 0 <= k < split_lines(s).len() implies no_nl(
            #[trigger] split_lines(s)[k],
        ) by {
            if k == 0 {
                assert(split_lines(s)[0] == s.take(i));
            } else {
                assert(split_lines(s)[k] == split_lines(s.skip(i + 1))[k - 1]);
            }
        }
    }
}

/// The fields gathered so far parse back faithfully: line-safe, and the
/// path and head nonempty where present.
pub open spec fn wf_st(st: ParseSt) -> bool {
    &&& match st.path {
        Some(p) => wf_text(p) && p.len() > 0,
        None => true,
    }
    &&& match st.head {
        Some(h) => wf_text(h) && h.len() > 0,
        None => true,
    }
    &&& match st.branch {
        Some(b) => wf_text(b),
        None => true,
    }
    &&& forall|k: int| 0 <= k < st.out.len() ==> wf_record(#[trigger] st.out[k])
}

proof fn lemma_suffix_wf(l: Seq<char>, n: int)
    requires
        wf_text(l),
        0 <= n <= l.len(),
    ensures
        wf_text(l.skip(n)),
{
    assert forall|k: int| 0 <= k < l.skip(n).len() implies l.skip(n)[k] != '\n' by {
        assert(l.skip(n)[k] == l[n + k]);
    }
    if l.skip(n).len() > 0 {
        assert(l.skip(n).last() == l.last());
    }
}

proof fn lemma_step_preserves_wf(st: ParseSt, line: Seq<char>)
    requires
        wf_st(st),
        no_nl(line),
    ensures
        wf_st(step_line(st, line)),
{
    lemma_literal_facts();
    lemma_trim_end_wf(line);
    let l = trim_end_spec(line);
    if l.len() == 0 {
        assert(wf_st(flush(st))) by {
            match (st.path, st.head) {
                (Some(p), Some(h)) => {
                    let r = WorktreeV { path: p, head: h, branch: st.branch };
                    assert(wf_record(r));
                    assert forall|k: int|
                        0 <= k < flush(st).out.len() implies wf_record(
                        #[trigger] flush(st).out[k],
                    ) by {
                        if k < st.out.len() {
                            assert(flush(st).out[k] == st.out[k]);
                        } else {
                            assert(flush(st).out[k] == r);
                        }
                    }
                },
                _ => {},
            }
        }
    } else if has_prefix(l, "worktree "@) {
        assert(l.len() > 9) by {
            if l.len() == 9 {
                assert(l =~= "worktree "@);
                assert(ws_char(l.last()));
            }
        }
        lemma_suffix_wf(l, 9);
        assert(l.skip(9).len() > 0);
    } else if has_prefix(l, "HEAD "@) {
        assert(l.len() > 5) by {
            if l.len() == 5 {
                assert(l =~= "HEAD "@);
                assert(ws_char(l.last()));
            }
        }
        lemma_suffix_wf(l, 5);
        assert(l.skip(5).len() > 0);
    } else if has_prefix(l, "branch "@) {
        lemma_suffix_wf(l, 7);
        let rest = l.skip(7);
        if has_prefix(rest, "refs/heads/"@) {
            lemma_suffix_wf(rest, 11);
            assert(rest.skip(11) =~= l.skip(18));
            lemma_suffix_wf(l, 18);
        }
    } else {
    }
}

proof fn lemma_run_preserves_wf(st: ParseSt, lines: Seq<Seq<char>>)
    requires
        wf_st(st),
        forall|k: int| 0 <= k < lines.len() ==> no_nl(#[trigger] lines[k]),
    ensures
        wf_st(run_lines(st, lines)),
    decreases lines.len(),
{
    if lines.len() > 0 {
        lemma_step_preserves_wf(st, lines.first());
        assert forall|k: int| 0 <= k < lines.drop_first().len() implies no_nl(
            #[trigger] lines.drop_first()[k],
        ) by {
            assert(lines.drop_first()[k] == lines[k + 1]);
        }
        lemma_run_preserves_wf(step_line(st, lines.first()), lines.drop_first());
    }
}

/// Every record the parser produces is well-formed, whatever the input.
pub proof fn lemma_parse_records_wf(t: Seq<char>)
    ensures
        forall|k: int| 0 <= k < parse_porcelain_spec(t).len() ==> wf_record(
            #[trigger] parse_porcelain_spec(t)[k],
        ),
{
    lemma_split_lines_no_nl(t);
    lemma_run_preserves_wf(init_st(), split_lines(t));
    let st = run_lines(init_st(), split_lines(t));
    assert(wf_st(st));
    match (st.path, st.head) {
        (Some(p), Some(h)) => {
            let r = WorktreeV { path: p, head: h, branch: st.branch };
            assert(wf_record(r));
            assert forall|k: int|
                0 <= k < flush(st).out.len() implies wf_record(#[trigger] flush(st).out[k]) by {
                if k < st.out.len() {
                    assert(flush(st).out[k] == st.out[k]);
                } else {
                    assert(flush(st).out[k] == r);
                }
            }
        },
        _ => {},
    }
}

/// Law: re-parsing the rendering of a parse yields the same records —
/// one parse settles the record set, for any input text.
pub proof fn lemma_reparse_stable(t: Seq<char>)
    ensures
        parse_porcelain_spec(render_spec(parse_porcelain_spec(t))) == parse_porcelain_spec(t),
{
    lemma_parse_records_wf(t);
    lemma_parse_render_roundtrip(parse_porcelain_spec(t));
}

proof fn lemma_render_push(rs: Seq<WorktreeV>, x: WorktreeV)
    ensures
        render_spec(rs.push(x)) == render_spec(rs) + render_record(x),
    decreases rs.len(),
{
    reveal_with_fuel(render_spec, 3);
    if rs.len() == 0 {
        assert(rs.push(x).drop_first() =~= Seq::<WorktreeV>::empty());
        assert(rs.push(x).first() == x);
        assert(render_spec(rs.push(x)) =~= render_spec(rs) + render_record(x));
    } else {
        assert(rs.push(x).drop_first() =~= rs.drop_first().push(x));
        assert(rs.push(x).first() == rs.first());
        lemma_render_push(rs.drop_first(), x);
        assert(render_spec(rs.push(x)) =~= render_spec(rs) + render_record(x));
    }
}

/// Render records back into porcelain text. Parsing the result of a
/// parse-then-render round trip yields the same records.
pub fn render_porcelain(records: &Vec<Worktree>) -> (r: String)
    ensures
        r@ == render_spec(records.deep_view()),
{
    let mut r = String::new();
    let n = records.len();
    let mut i: usize = 0;
    proof {
        assert(records.deep_view().take(0) =~= Seq::<WorktreeV>::empty());
    }
    while i < n
        invariant
            n == records@.len(),
            records.deep_view().len() == n,
            0 <= i <= n,
            r@ == render_spec(records.deep_view().take(i as int)),
        decreases n - i,
    {
        let w = &records[i];
        r.append("worktree ");
        r.append(w.path().as_str());
        r.append("\n");
        r.append("HEAD ");
        r.append(w.head());
        r.append("\n");
        match w.branch() {
            Some(b) => {
                r.append("branch refs/heads/");
                r.append(b);
            },
            None => {
                r.append("detached");
            },
        }
        r.append("\n");
        r.append("\n");
        proof {
            reveal_strlit("\n");
            assert("\n"@ =~= seq!['\n']);
            lemma_render_push(records.deep_view().take(i as int), records.deep_view()[i as int]);
            assert(records.deep_view().take(i as int).push(records.deep_view()[i as int])
                =~= records.deep_view().take(i + 1));
            assert(records.deep_view()[i as int] == records@[i as int]@);
            assert(r@ =~= render_spec(records.deep_view().take(i + 1)));
        }
        i += 1;
    }
    proof {
        assert(records.deep_view().take(n as int) =~= records.deep_view());
    }
    r
}

/// The record carries branch `b`.
pub open spec fn branch_match(w: WorktreeV, b: Seq<char>) -> bool {
    w.branch == Some(b)
}

/// Index of the first record whose branch is `b`, or `-1` when none is.
pub open spec fn find_branch_idx(s: Seq<WorktreeV>, b: Seq<char>) -> int
    decreases s.len(),
{
    if s.len() == 0 {
        -1
    } else if branch_match(s.first(), b) {
        0
    } else {
        let r = find_branch_idx(s.drop_first(), b);
        if r < 0 {
            -1
        } else {
            1 + r
        }
    }
}

pub proof fn lemma_find_branch_idx(s: Seq<WorktreeV>, b: Seq<char>)
    ensures
        find_branch_idx(s, b) == -1 || 0 <= find_branch_idx(s, b) < s.len(),
        find_branch_idx(s, b) == -1 ==> forall|k: int|
            0 <= k < s.len() ==> !branch_match(s[k], b),
        find_branch_idx(s, b) >= 0 ==> branch_match(s[find_branch_idx(s, b)], b),
        find_branch_idx(s, b) >= 0 ==> forall|k: int|
            0 <= k < find_branch_idx(s, b) ==> !branch_match(s[k], b),
    decreases s.len(),
{
    if s.len() == 0 {
    } else if branch_match(s.first(), b) {
    } else {
        lemma_find_branch_idx(s.drop_first(), b);
        let r = find_branch_idx(s.drop_first(), b);
        if r == -1 {
            assert forall|k: int| 0 <= k < s.len() implies !branch_match(s[k], b) by {
                if k >= 1 {
                    assert(s.drop_first()[k - 1] == s[k]);
                }
            }
        } else {
            assert(s.drop_first()[r] == s[r + 1]);
            assert forall|k: int| 0 <= k < r + 1 implies !branch_match(s[k], b) by {
                if k >= 1 {
                    assert(s.drop_first()[k - 1] == s[k]);
                }
            }
        }
    }
}

/// Find the first worktree record whose branch is `branch`, if any.
pub fn find_worktree_for_branch<'a>(worktrees: &'a [Worktree], branch: &str) -> (r: Option<
    &'a Worktree,
>)
    ensures
        match r {
            Some(w) => {
                let i = find_branch_idx(worktrees.deep_view(), branch@);
                &&& 0 <= i < worktrees@.len()
                &&& *w == worktrees@[i]
            },
            None => find_branch_idx(worktrees.deep_view(), branch@) == -1,
        },
{
    let n = worktrees.len();
    let mut i: usize = 0;
    proof {
        lemma_find_branch_idx(worktrees.deep_view(), branch@);
    }
    while i < n
        invariant
            n == worktrees@.len(),
            worktrees.deep_view().len() == n,
            0 <= i <= n,
            forall|k: int| 0 <= k < i ==> !branch_match(worktrees.deep_view()[k], branch@),
            find_branch_idx(worktrees.deep_view(), branch@) == -1 || 0 <= find_branch_idx(
                worktrees.deep_view(),
                branch@,
            ) < n,
            find_branch_idx(worktrees.deep_view(), branch@) == -1 ==> forall|k: int|
                0 <= k < n ==> !branch_match(worktrees.deep_view()[k], branch@),
            find_branch_idx(worktrees.deep_view(), branch@) >= 0 ==> branch_match(
                worktrees.deep_view()[find_branch_idx(worktrees.deep_view(), branch@)],
                branch@,
            ),
            find_branch_idx(worktrees.deep_view(), branch@) >= 0 ==> forall|k: int|
                0 <= k < find_branch_idx(worktrees.deep_view(), branch@) ==> !branch_match(
                    worktrees.deep_view()[k],
                    branch@,
                ),
        decreases n - i,
    {
        let w = &worktrees[i];
        let matched = match w.branch() {
            Some(b) => str_eq_str(b, branch),
            None => false,
        };
        if matched {
            proof {
                assert(worktrees.deep_view()[i as int] == worktrees@[i as int]@);
                assert(branch_match(worktrees.deep_view()[i as int], branch@));
            }
            return Some(w);
        }
        proof {
            assert(worktrees.deep_view()[i as int] == worktrees@[i as int]@);
        }
        i += 1;
    }
    None
}

} // verus!
