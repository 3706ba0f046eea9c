//! A collection of worktree records with the display-side operations:
//! stable ordering by branch name, branch listings, and column widths.
//! Ordering and widths go by the UTF-8 bytes of the branch names, as the
//! listing printer does.

pub use crate::worktree::Worktree;

use crate::worktree::WorktreeV;
use vstd::prelude::*;
use vstd::multiset::Multiset;
use vstd::seq_lib::lemma_multiset_commutative;
use vstd::utf8::encode_utf8;

verus! {

/// Branch names longer than this are truncated in column layout.
pub const MAX_BRANCH_WIDTH: usize = 32;

/// Byte-wise lexicographic order.
pub open spec fn lex_le(a: Seq<u8>, b: Seq<u8>) -> bool
    decreases a.len(),
{
    if a.len() == 0 {
        true
    } else if b.len() == 0 {
        false
    } else if a.first() < b.first() {
        true
    } else if a.first() > b.first() {
        false
    } else {
        lex_le(a.drop_first(), b.drop_first())
    }
}

pub proof fn lemma_lex_le_total(a: Seq<u8>, b: Seq<u8>)
    ensures
        lex_le(a, b) || lex_le(b, a),
    decreases a.len(),
{
    if a.len() > 0 && b.len() > 0 && a.first() == b.first() {
        lemma_lex_le_total(a.drop_first(), b.drop_first());
    }
}

pub proof fn lemma_lex_le_trans(a: Seq<u8>, b: Seq<u8>, c: Seq<u8>)
    requires
        lex_le(a, b),
        lex_le(b, c),
    ensures
        lex_le(a, c),
    decreases a.len(),
{
    if a.len() > 0 && b.len() > 0 && c.len() > 0 && a.first() == b.first() && b.first()
        == c.first() {
        lemma_lex_le_trans(a.drop_first(), b.drop_first(), c.drop_first());
    }
}

/// The display order: named branches first, ordered by the bytes of
/// their names; detached records after them, in no further order.
pub open spec fn branch_le(x: WorktreeV, y: WorktreeV) -> bool {
    match (x.branch, y.branch) {
        (Some(a), Some(b)) => lex_le(encode_utf8(a), encode_utf8(b)),
        (Some(_), None) => true,
        (None, Some(_)) => false,
        (None, None) => true,
    }
}

pub proof fn lemma_branch_le_total(x: WorktreeV, y: WorktreeV)
    ensures
        branch_le(x, y) || branch_le(y, x),
{
    match (x.branch, y.branch) {
        (Some(a), Some(b)) => lemma_lex_le_total(encode_utf8(a), encode_utf8(b)),
        _ => {},
    }
}

pub proof fn lemma_branch_le_trans(x: WorktreeV, y: WorktreeV, z: WorktreeV)
    requires
        branch_le(x, y),
        branch_le(y, z),
    ensures
        branch_le(x, z),
{
    match (x.branch, y.branch, z.branch) {
        (Some(a), Some(b), Some(c)) => lemma_lex_le_trans(
            encode_utf8(a),
            encode_utf8(b),
            encode_utf8(c),
        ),
        _ => {},
    }
}

/// Byte-wise comparison of two strings.
fn str_bytes_le(a: &str, b: &str) -> (r: bool)
    ensures
        r == lex_le(encode_utf8(a@), encode_utf8(b@)),
{
    let av = a.as_bytes_vec();
    let bv = b.as_bytes_vec();
    let alen = av.len();
    let blen = bv.len();
    let mut i: usize = 0;
    proof {
        assert(av@.skip(0) =~= av@);
        assert(bv@.skip(0) =~= bv@);
    }
    while i < alen && i < blen
        invariant
            alen == av@.len(),
            blen == bv@.len(),
            av@ == encode_utf8(a@),
            bv@ == encode_utf8(b@),
            0 <= i <= alen,
            0 <= i <= blen,
            lex_le(av@, bv@) == lex_le(av@.skip(i as int), bv@.skip(i as int)),
        decreases alen - i,
    {
        let x = av[i];
        let y = bv[i];
        proof {
            assert(av@.skip(i as int).first() == av@[i as int]);
            assert(bv@.skip(i as int).first() == bv@[i as int]);
        }
        if x < y {
            return true;
        }
        if x > y {
            return false;
        }
        proof {
            assert(av@.skip(i as int).drop_first() =~= av@.skip(i + 1));
            assert(bv@.skip(i as int).drop_first() =~= bv@.skip(i + 1));
        }
        i += 1;
    }
    proof {
        if alen <= blen {
            assert(av@.skip(i as int).len() == 0);
        } else {
            assert(bv@.skip(i as int).len() == 0);
            assert(av@.skip(i as int).len() > 0);
        }
    }
    alen <= blen
}

/// Executable test for `branch_le` on two records.
fn wt_le(a: &Worktree, b: &Worktree) -> (r: bool)
    ensures
        r == branch_le(a@, b@),
{
    match (a.branch(), b.branch()) {
        (Some(ab), Some(bb)) => str_bytes_le(ab, bb),
        (Some(_), None) => true,
        (None, Some(_)) => false,
        (None, None) => true,
    }
}

/// Every pair of the sequence stands in display order.
pub open spec fn sorted_by_branch(s: Seq<Worktree>) -> bool {
    forall|i: int, j: int| 0 <= i < j < s.len() ==> branch_le(s[i]@, s[j]@)
}

/// Where `x` goes in `s`: just after the last record it does not precede.
/// Equal keys keep their arrival order, which makes the sort stable.
pub open spec fn insert_pos(s: Seq<Worktree>, x: Worktree) -> int
    decreases s.len(),
{
    if s.len() == 0 {
        0
    } else if !branch_le(s.first()@, x@) {
        0
    } else {
        1 + insert_pos(s.drop_first(), x)
    }
}

/// `insert_pos` is exactly the first position whose record does not
/// precede `x`.
proof fn lemma_insert_pos_at(s: Seq<Worktree>, x: Worktree, m: int)
    requires
        0 <= m <= s.len(),
        forall|k: int| 0 <= k < m ==> branch_le(s[k]@, x@),
        m < s.len() ==> !branch_le(s[m]@, x@),
    ensures
        insert_pos(s, x) == m,
    decreases s.len(),
{
    if s.len() == 0 {
    } else if !branch_le(s.first()@, x@) {
        assert(m == 0);
    } else {
        assert(m >= 1);
        assert forall|k: int| 0 <= k < m - 1 implies branch_le(s.drop_first()[k]@, x@) by {
            assert(s.drop_first()[k] == s[k + 1]);
        }
        if m - 1 < s.drop_first().len() {
            assert(s.drop_first()[m - 1] == s[m]);
        }
        lemma_insert_pos_at(s.drop_first(), x, m - 1);
    }
}

/// One stable insertion step.
pub open spec fn insert_sorted(s: Seq<Worktree>, x: Worktree) -> Seq<Worktree> {
    s.insert(insert_pos(s, x), x)
}

/// The display ordering of a record sequence: each record inserted in
/// turn, equal keys keeping their original order.
pub open spec fn sort_spec(s: Seq<Worktree>) -> Seq<Worktree>
    decreases s.len(),
{
    if s.len() == 0 {
        Seq::empty()
    } else {
        insert_sorted(sort_spec(s.drop_last()), s.last())
    }
}

proof fn lemma_insert_to_multiset(s: Seq<Worktree>, p: int, x: Worktree)
    requires
        0 <= p <= s.len(),
    ensures
        s.insert(p, x).to_multiset() =~= s.to_multiset().insert(x),
{
    broadcast use vstd::seq_lib::group_to_multiset_ensures;

    assert(s.insert(p, x) =~= s.take(p) + (seq![x] + s.skip(p)));
    lemma_multiset_commutative(s.take(p), seq![x] + s.skip(p));
    lemma_multiset_commutative(seq![x], s.skip(p));
    assert(s =~= s.take(p) + s.skip(p));
    lemma_multiset_commutative(s.take(p), s.skip(p));
    assert(seq![x].to_multiset() =~= Multiset::empty().insert(x)) by {
        assert(seq![x].drop_first() =~= Seq::<Worktree>::empty());
    }
}

/// A collection of worktree records.
pub struct Worktrees {
    items: Vec<Worktree>,
}

impl View for Worktrees {
    type V = Seq<Worktree>;

    closed spec fn view(&self) -> Seq<Worktree> {
        self.items@
    }
}

impl Worktrees {
    pub fn new(trees: Vec<Worktree>) -> (r: Self)
        ensures
            r@ == trees@,
    {
        Worktrees { items: trees }
    }

    /// The records, in their current order.
    pub fn items(&self) -> (r: &Vec<Worktree>)
        ensures
            r@ == self@,
    {
        &self.items
    }

    /// How many records the collection holds.
    pub fn len(&self) -> (r: usize)
        ensures
            r == self@.len(),
    {
        self.items.len()
    }

    /// Sort the records for display: named branches first, in byte-wise
    /// order of their names, detached records last. The records are
    /// reordered and none is added or dropped.
    pub fn sort_by_branch(&mut self)
        ensures
            final(self)@ == sort_spec(old(self)@),
            sorted_by_branch(final(self)@),
            final(self)@.to_multiset() == old(self)@.to_multiset(),
    {
        broadcast use vstd::seq_lib::group_to_multiset_ensures;

        let n = self.items.len();
        let mut i: usize = 1;
        if n == 0 {
            proof {
                assert(old(self)@ =~= Seq::<Worktree>::empty());
                assert(self@ =~= sort_spec(old(self)@));
            }
            return ;
        }
        proof {
            reveal_with_fuel(sort_spec, 2);
            assert(old(self)@.take(1).drop_last() =~= Seq::<Worktree>::empty());
            assert(old(self)@.take(1).last() == old(self)@[0]);
            lemma_insert_pos_at(Seq::<Worktree>::empty(), old(self)@[0], 0);
            assert(sort_spec(old(self)@.take(1)) =~= old(self)@.take(1));
            assert(self.items@.take(1) =~= old(self)@.take(1));
            assert(self.items@.skip(1) =~= old(self)@.skip(1));
        }
        while i < n
            invariant
                n == self.items@.len(),
                n == old(self)@.len(),
                1 <= i <= n,
                sorted_by_branch(self.items@.take(i as int)),
                self.items@.to_multiset() == old(self)@.to_multiset(),
                self.items@.take(i as int) == sort_spec(old(self)@.take(i as int)),
                self.items@.skip(i as int) == old(self)@.skip(i as int),
            decreases n - i,
        {
            let mut p: usize = 0;
            while p < i && wt_le(&self.items[p], &self.items[i])
                invariant
                    n == self.items@.len(),
                    0 <= p <= i < n,
                    forall|k: int| 0 <= k < p ==> branch_le(self.items@[k]@, self.items@[i as int]@),
                decreases i - p,
            {
                p += 1;
            }
            let ghost pre = self.items@;
            let x = self.items.remove(i);
            let ghost mid = self.items@;
            self.items.insert(p, x);
            proof {
                let post = self.items@;
                assert(mid =~= pre.remove(i as int));
                assert(post == mid.insert(p as int, x));
                lemma_insert_to_multiset(mid, p as int, x);
                pre.to_multiset_ensures();
                assert(pre.remove(i as int).to_multiset() =~= pre.to_multiset().remove(
                    pre[i as int],
                ));
                assert(mid.to_multiset() == pre.to_multiset().remove(x));
                assert(post.to_multiset() =~= pre.to_multiset().remove(x).insert(x));
                assert(pre.contains(x)) by {
                    assert(0 <= i < pre.len() && pre[i as int] == x);
                }
                assert(pre.to_multiset().count(x) > 0);
                assert(post.to_multiset() =~= pre.to_multiset());

                // The new prefix of length i + 1 is sorted.
                if p < i {
                    assert(!branch_le(pre[p as int]@, x@));
                    lemma_branch_le_total(pre[p as int]@, x@);
                    assert(branch_le(x@, pre[p as int]@));
                }
                assert forall|k: int, l: int|
                    0 <= k < l < i + 1 implies branch_le(post[k]@, post[l]@) by {
                    assert(forall|m: int|
                        0 <= m < i ==> #[trigger] pre.take(i as int)[m] == pre[m]);
                    // Positions below p and above p keep their old records,
                    // shifted around the inserted one.
                    if k < p {
                        assert(post[k] == pre[k]);
                    } else if k == p {
                        assert(post[k] == x);
                    } else {
                        assert(post[k] == pre[k - 1]);
                    }
                    if l < p {
                        assert(post[l] == pre[l]);
                    } else if l == p {
                        assert(post[l] == x);
                    } else {
                        assert(post[l] == pre[l - 1]);
                    }
                    if l < p {
                        assert(pre.take(i as int)[k] == pre[k]);
                        assert(pre.take(i as int)[l] == pre[l]);
                        assert(branch_le(post[k]@, post[l]@));
                    } else if l == p {
                        // post[l] is x; k < p, and everything below p is
                        // branch_le x by the scan.
                        assert(branch_le(pre[k]@, x@));
                    } else if k == p {
                        // post[k] is x; x precedes pre[p .. i).
                        if p < i {
                            if p as int == l - 1 {
                                assert(branch_le(x@, pre[l - 1]@));
                            } else {
                                assert(pre.take(i as int)[p as int] == pre[p as int]);
                                assert(pre.take(i as int)[l - 1] == pre[l - 1]);
                                assert(branch_le(pre[p as int]@, pre[l - 1]@));
                                lemma_branch_le_trans(x@, pre[p as int]@, pre[l - 1]@);
                            }
                        }
                    } else if k < p {
                        // pre[k] precedes x, which precedes pre[l - 1];
                        // or the pair was already ordered in the prefix.
                        assert(pre.take(i as int)[k] == pre[k]);
                        assert(pre.take(i as int)[l - 1] == pre[l - 1]);
                        assert(branch_le(pre[k]@, pre[l - 1]@));
                    } else {
                        assert(pre.take(i as int)[k - 1] == pre[k - 1]);
                        assert(pre.take(i as int)[l - 1] == pre[l - 1]);
                        assert(branch_le(pre[k - 1]@, pre[l - 1]@));
                    }
                }
                assert(sorted_by_branch(self.items@.take(i + 1)));

                // The new prefix is exactly one stable insertion into the
                // sorted prefix, and the tail is untouched.
                let orig = old(self)@;
                assert(x == orig[i as int]) by {
                    assert(pre.skip(i as int)[0] == pre[i as int]);
                    assert(orig.skip(i as int)[0] == orig[i as int]);
                }
                assert(p as int == insert_pos(pre.take(i as int), x)) by {
                    assert forall|k: int|
                        0 <= k < p implies branch_le(pre.take(i as int)[k]@, x@) by {
                        assert(pre.take(i as int)[k] == pre[k]);
                    }
                    if (p as int) < i {
                        assert(pre.take(i as int)[p as int] == pre[p as int]);
                    }
                    lemma_insert_pos_at(pre.take(i as int), x, p as int);
                }
                assert(post.take(i + 1) =~= pre.take(i as int).insert(p as int, x)) by {
                    assert forall|k: int|
                        0 <= k < i + 1 implies #[trigger] post.take(i + 1)[k] == pre.take(
                        i as int,
                    ).insert(p as int, x)[k] by {
                        pre.take(i as int).insert_ensures(p as int, x);
                        if k < p {
                            assert(post[k] == pre[k]);
                            assert(pre.take(i as int)[k] == pre[k]);
                        } else if k == p {
                            assert(post[k] == x);
                        } else {
                            assert(post[k] == pre[k - 1]);
                            assert(pre.take(i as int)[k - 1] == pre[k - 1]);
                            assert(pre.take(i as int).insert(p as int, x)[k]
                                == pre.take(i as int)[k - 1]);
                        }
                    }
                }
                assert(orig.take(i + 1).drop_last() =~= orig.take(i as int));
                assert(orig.take(i + 1).last() == orig[i as int]);
                assert(sort_spec(orig.take(i + 1)) == insert_sorted(
                    sort_spec(orig.take(i as int)),
                    orig[i as int],
                ));
                assert(post.take(i + 1) == sort_spec(orig.take(i + 1)));
                assert(post.skip(i + 1) =~= orig.skip(i + 1)) by {
                    assert forall|k: int|
                        0 <= k < post.skip(i + 1).len() implies #[trigger] post.skip(i + 1)[k]
                        == orig.skip(i + 1)[k] by {
                        assert(post.skip(i + 1)[k] == post[i + 1 + k]);
                        assert(post[i + 1 + k] == pre[i + 1 + k]);
                        assert(pre.skip(i as int)[k + 1] == pre[i + 1 + k]);
                        assert(orig.skip(i as int)[k + 1] == orig[i + 1 + k]);
                        assert(orig.skip(i + 1)[k] == orig[i + 1 + k]);
                    }
                }
            }
            i += 1;
        }
        proof {
            assert(self.items@.take(n as int) =~= self.items@);
            assert(old(self)@.take(n as int) =~= old(self)@);
        }
    }

    /// The branch names of the records, in order. `Raw` drops detached
    /// records; `Full` stands the given default in for them.
    pub fn branches(&self, mode: ListBranchMode) -> (r: Vec<String>)
        ensures
            match mode {
                ListBranchMode::Raw => r.deep_view() == raw_branches_spec(self@),
                ListBranchMode::Full(d) => r.deep_view() == full_branches_spec(self@, d@),
            },
    {
        let n = self.items.len();
        let mut r: Vec<String> = Vec::new();
        let mut i: usize = 0;
        match mode {
            ListBranchMode::Raw => {
                proof {
                    assert(self.items@.take(0) =~= Seq::<Worktree>::empty());
                }
                while i < n
                    invariant
                        n == self.items@.len(),
                        0 <= i <= n,
                        r.deep_view() == raw_branches_spec(self.items@.take(i as int)),
                    decreases n - i,
                {
                    let ghost prev = r.deep_view();
                    match self.items[i].branch() {
                        Some(b) => {
                            let s = String::from_str(b);
                            let ghost sv = s@;
                            r.push(s);
                            proof {
                                assert(r.deep_view() =~= prev.push(sv));
                            }
                        },
                        None => {},
                    }
                    proof {
                        lemma_raw_branches_push(self.items@.take(i as int), self.items@[i as int]);
                        assert(self.items@.take(i as int).push(self.items@[i as int])
                            =~= self.items@.take(i + 1));
                        assert(r.deep_view() =~= raw_branches_spec(self.items@.take(i + 1)));
                    }
                    i += 1;
                }
                proof {
                    assert(self.items@.take(n as int) =~= self.items@);
                }
                r
            },
            ListBranchMode::Full(dflt) => {
                while i < n
                    invariant
                        n == self.items@.len(),
                        0 <= i <= n,
                        r.deep_view() =~= full_branches_spec(self.items@, dflt@).take(i as int),
                    decreases n - i,
                {
                    let s = match self.items[i].branch() {
                        Some(b) => String::from_str(b),
                        None => String::from_str(dflt),
                    };
                    let ghost sv = s@;
                    let ghost prev = r.deep_view();
                    r.push(s);
                    proof {
                        assert(r.deep_view() =~= prev.push(sv));
                        assert(r.deep_view() =~= full_branches_spec(self.items@, dflt@).take(
                            i + 1,
                        ));
                    }
                    i += 1;
                }
                proof {
                    assert(full_branches_spec(self.items@, dflt@).take(n as int)
                        =~= full_branches_spec(self.items@, dflt@));
                }
                r
            },
        }
    }

    /// The widest display width among the records' branch labels, with
    /// each label capped at `MAX_BRANCH_WIDTH`.
    pub fn max_branch_width(&self) -> (r: usize)
        ensures
            r == max_branch_width_spec(self@),
    {
        let n = self.items.len();
        let mut r: usize = 0;
        let mut i: usize = 0;
        proof {
            assert(self.items@.take(0) =~= Seq::<Worktree>::empty());
        }
        while i < n
            invariant
                n == self.items@.len(),
                0 <= i <= n,
                r == max_branch_width_spec(self.items@.take(i as int)),
                r <= 32,
            decreases n - i,
        {
            let wi = &self.items[i];
            let l: usize = match wi.branch() {
                Some(b) => b.len(),
                None => 10,
            };
            proof {
                assert(l == display_len(self.items@[i as int]));
            }
            let c: usize = if l > MAX_BRANCH_WIDTH {
                MAX_BRANCH_WIDTH
            } else {
                l
            };
            if c > r {
                r = c;
            }
            proof {
                assert(c == capped(display_len(self.items@[i as int])));
                lemma_max_branch_width_push(self.items@.take(i as int), self.items@[i as int]);
                assert(self.items@.take(i as int).push(self.items@[i as int]) =~= self.items@.take(
                    i + 1,
                ));
            }
            i += 1;
        }
        proof {
            assert(self.items@.take(n as int) =~= self.items@);
        }
        r
    }
}

/// How a record's branch column is rendered: in full, or truncated to a
/// width.
#[derive(Clone, Copy)]
pub enum BranchRenderMode {
    Full,
    Truncated(usize),
}

/// Which branch names a listing hands out: only the named ones, or one
/// label per record with a default for the detached ones.
pub enum ListBranchMode {
    Raw,
    Full(&'static str),
}

/// The branch names of the named records, in order.
pub open spec fn raw_branches_spec(s: Seq<Worktree>) -> Seq<Seq<char>>
    decreases s.len(),
{
    if s.len() == 0 {
        seq![]
    } else {
        match s.first()@.branch {
            Some(b) => seq![b] + raw_branches_spec(s.drop_first()),
            None => raw_branches_spec(s.drop_first()),
        }
    }
}

proof fn lemma_raw_branches_push(s: Seq<Worktree>, x: Worktree)
    ensures
        raw_branches_spec(s.push(x)) == raw_branches_spec(s) + (match x@.branch {
            Some(b) => seq![b],
            None => Seq::<Seq<char>>::empty(),
        }),
    decreases s.len(),
{
    reveal_with_fuel(raw_branches_spec, 3);
    if s.len() == 0 {
        assert(s.push(x).drop_first() =~= Seq::<Worktree>::empty());
        assert(s.push(x).first() == x);
        match x@.branch {
            Some(b) => {
                assert(raw_branches_spec(s.push(x)) =~= raw_branches_spec(s) + seq![b]);
            },
            None => {
                assert(raw_branches_spec(s.push(x)) =~= raw_branches_spec(s)
                    + Seq::<Seq<char>>::empty());
            },
        }
    } else {
        assert(s.push(x).drop_first() =~= s.drop_first().push(x));
        assert(s.push(x).first() == s.first());
        lemma_raw_branches_push(s.drop_first(), x);
        match s.first()@.branch {
            Some(b) => {
                assert(raw_branches_spec(s.push(x)) =~= raw_branches_spec(s) + (match x@.branch {
                    Some(c) => seq![c],
                    None => Seq::<Seq<char>>::empty(),
                }));
            },
            None => {},
        }
    }
}

/// One label per record: its branch name, or the default when detached.
pub open spec fn full_branches_spec(s: Seq<Worktree>, dflt: Seq<char>) -> Seq<Seq<char>> {
    s.map_values(
        |w: Worktree|
            match w@.branch {
                Some(b) => b,
                None => dflt,
            },
    )
}

/// The width a record's branch label takes: the UTF-8 byte length of the
/// branch name, or the length of the detached marker.
pub open spec fn display_len(w: Worktree) -> usize {
    match w@.branch {
        Some(b) => encode_utf8(b).len() as usize,
        None => 10,
    }
}

pub open spec fn capped(n: usize) -> usize {
    if n > 32 {
        32
    } else {
        n
    }
}

/// The widest capped label width in the sequence.
pub open spec fn max_branch_width_spec(s: Seq<Worktree>) -> usize
    decreases s.len(),
{
    if s.len() == 0 {
        0
    } else {
        let rest = max_branch_width_spec(s.drop_last());
        let this = capped(display_len(s.last()));
        if this > rest {
            this
        } else {
            rest
        }
    }
}

proof fn lemma_max_branch_width_push(s: Seq<Worktree>, x: Worktree)
    ensures
        max_branch_width_spec(s.push(x)) == (if capped(display_len(x)) > max_branch_width_spec(s) {
            capped(display_len(x))
        } else {
            max_branch_width_spec(s)
        }),
{
    assert(s.push(x).drop_last() =~= s);
    assert(s.push(x).last() == x);
}

} // verus!
