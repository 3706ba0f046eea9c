//! Verified helpers for character-level work on strings: prefix tests,
//! equality, end-trimming and concatenation, each tied to a spec function
//! over the string's sequence of characters.

use vstd::prelude::*;

verus! {

/// `p` is a prefix of `s`.
pub open spec fn has_prefix(s: Seq<char>, p: Seq<char>) -> bool {
    s.len() >= p.len() && s.take(p.len() as int) == p
}

/// True when `c` is a whitespace character that is trimmed from the end
/// of a listing line before the line is interpreted.
pub open spec fn ws_char(c: char) -> bool {
    c == ' ' || c == '\t' || c == '\r' || c == '\u{b}' || c == '\u{c}'
}

/// `s` with every trailing whitespace character removed.
pub open spec fn trim_end_spec(s: Seq<char>) -> Seq<char>
    decreases s.len(),
{
    if s.len() > 0 && ws_char(s.last()) {
        trim_end_spec(s.drop_last())
    } else {
        s
    }
}

/// Once every position from `t` on is whitespace and position `t - 1` is
/// not, trimming stops exactly at `t`.
pub proof fn lemma_trim_end_at(s: Seq<char>, t: int)
    requires
        0 <= t <= s.len(),
        forall|k: int| t <= k < s.len() ==> ws_char(s[k]),
        t > 0 ==> !ws_char(s[t - 1]),
    ensures
        trim_end_spec(s) == s.take(t),
    decreases s.len(),
{
    if s.len() > 0 && ws_char(s.last()) {
        assert(t < s.len());
        lemma_trim_end_at(s.drop_last(), t);
        assert(s.drop_last().take(t) =~= s.take(t));
    } else {
        assert(t == s.len()) by {
            if t < s.len() {
                assert(ws_char(s[s.len() - 1]));
            }
        }
        assert(s.take(t) =~= s);
    }
}

/// True exactly when `p`'s characters stand at the start of `s`.
pub fn starts_with_str(s: &str, p: &str) -> (r: bool)
    ensures
        r == has_prefix(s@, p@),
{
    let sl = s.unicode_len();
    let pl = p.unicode_len();
    if sl < pl {
        return false;
    }
    let mut i: usize = 0;
    while i < pl
        invariant
            0 <= i <= pl,
            pl == p@.len(),
            sl == s@.len(),
            pl <= sl,
            forall|k: int| 0 <= k < i ==> s@[k] == p@[k],
        decreases pl - i,
    {
        if s.get_char(i) != p.get_char(i) {
            assert(!has_prefix(s@, p@)) by {
                assert(s@.take(pl as int)[i as int] == s@[i as int]);
            }
            return false;
        }
        i += 1;
    }
    assert(s@.take(pl as int) =~= p@);
    true
}

/// True exactly when the two strings hold the same characters.
pub fn str_eq_str(s: &str, t: &str) -> (r: bool)
    ensures
        r == (s@ == t@),
{
    let sl = s.unicode_len();
    let tl = t.unicode_len();
    if sl != tl {
        return false;
    }
    let mut i: usize = 0;
    while i < sl
        invariant
            0 <= i <= sl,
            sl == s@.len(),
            tl == t@.len(),
            sl == tl,
            forall|k: int| 0 <= k < i ==> s@[k] == t@[k],
        decreases sl - i,
    {
        if s.get_char(i) != t.get_char(i) {
            return false;
        }
        i += 1;
    }
    assert(s@ =~= t@);
    true
}

/// Executable test for `ws_char`.
pub fn is_ws(c: char) -> (r: bool)
    ensures
        r == ws_char(c),
{
    c == ' ' || c == '\t' || c == '\r' || c == '\u{b}' || c == '\u{c}'
}

/// The string with trailing whitespace characters removed.
pub fn trim_end_str<'a>(s: &'a str) -> (r: &'a str)
    ensures
        r@ == trim_end_spec(s@),
{
    let n = s.unicode_len();
    let mut t: usize = n;
    while t > 0 && is_ws(s.get_char(t - 1))
        invariant
            0 <= t <= n,
            n == s@.len(),
            forall|k: int| t <= k < s@.len() ==> ws_char(s@[k]),
        decreases t,
    {
        t -= 1;
    }
    proof {
        lemma_trim_end_at(s@, t as int);
    }
    s.substring_char(0, t)
}

/// The concatenation of two strings.
pub fn concat_str(a: &str, b: &str) -> (r: String)
    ensures
        r@ == a@ + b@,
{
    let mut r = String::from_str(a);
    r.append(b);
    r
}

} // verus!
