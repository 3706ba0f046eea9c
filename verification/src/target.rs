//! Deterministic worktree path derivation.
//!
//! The directory for a branch is named by a stable segment: the first
//! `SEGMENT_LEN` lowercase hexadecimal characters of the SHA-1 digest of
//! `<repository identity>|<branch name>`, where the repository identity is
//! the absolute top-level path of the repository. Hashing both components
//! keeps equal branch names of different repositories apart; the prefix is
//! long enough that collisions among one user's repositories and branches
//! are practically impossible, while keeping paths readable.

use vstd::prelude::*;

verus! {

/// Number of hexadecimal characters kept from the digest.
pub const SEGMENT_LEN: usize = 16;

/// The SHA-1 digest of a byte sequence. Left uninterpreted: the digest is
/// computed by an outside implementation and no contract restates it.
pub uninterp spec fn sha1_of(bytes: Seq<u8>) -> Seq<u8>;

/// Relies on `sha1::Sha1` through the digest crate's `Digest::digest`:
/// the SHA-1 digest is 20 bytes and depends on the input bytes alone.
#[verifier::external_body]
fn sha1_digest(input: &[u8]) -> (r: Vec<u8>)
    ensures
        r@ == sha1_of(input@),
        r@.len() == 20,
{
    let digest = <sha1::Sha1 as sha1::Digest>::digest(input);
    digest.to_vec()
}

/// The lowercase hexadecimal character for a value below 16.
pub open spec fn hex_digit(n: u8) -> char {
    if n < 10 {
        (48 + n) as char
    } else {
        (87 + n) as char
    }
}

/// The lowercase hexadecimal rendering of a byte sequence, two characters
/// per byte, high nibble first.
pub open spec fn hex_of(bytes: Seq<u8>) -> Seq<char>
    decreases bytes.len(),
{
    if bytes.len() == 0 {
        Seq::empty()
    } else {
        seq![hex_digit(bytes.first() / 16), hex_digit(bytes.first() % 16)] + hex_of(
            bytes.drop_first(),
        )
    }
}

pub proof fn lemma_hex_of_len(bytes: Seq<u8>)
    ensures
        hex_of(bytes).len() == 2 * bytes.len(),
    decreases bytes.len(),
{
    if bytes.len() > 0 {
        lemma_hex_of_len(bytes.drop_first());
    }
}

proof fn lemma_hex_of_push(bytes: Seq<u8>, x: u8)
    ensures
        hex_of(bytes.push(x)) == hex_of(bytes) + seq![hex_digit(x / 16), hex_digit(x % 16)],
    decreases bytes.len(),
{
    reveal_with_fuel(hex_of, 3);
    if bytes.len() == 0 {
        assert(bytes.push(x).drop_first() =~= Seq::<u8>::empty());
        assert(hex_of(bytes.push(x)) =~= seq![hex_digit(x / 16), hex_digit(x % 16)]);
        assert(hex_of(bytes) + seq![hex_digit(x / 16), hex_digit(x % 16)] =~= seq![
            hex_digit(x / 16),
            hex_digit(x % 16),
        ]);
    } else {
        assert(bytes.push(x).drop_first() =~= bytes.drop_first().push(x));
        assert(bytes.push(x).first() == bytes.first());
        lemma_hex_of_push(bytes.drop_first(), x);
        assert(hex_of(bytes.push(x)) =~= hex_of(bytes) + seq![
            hex_digit(x / 16),
            hex_digit(x % 16),
        ]);
    }
}

fn hex_digit_str(d: u8) -> (r: &'static str)
    requires
        d < 16,
    ensures
        r@ == seq![hex_digit(d)],
{
    let r: &'static str = match d {
        0 => "0",
        1 => "1",
        2 => "2",
        3 => "3",
        4 => "4",
        5 => "5",
        6 => "6",
        7 => "7",
        8 => "8",
        9 => "9",
        10 => "a",
        11 => "b",
        12 => "c",
        13 => "d",
        14 => "e",
        _ => "f",
    };
    proof {
        reveal_strlit("0");
        reveal_strlit("1");
        reveal_strlit("2");
        reveal_strlit("3");
        reveal_strlit("4");
        reveal_strlit("5");
        reveal_strlit("6");
        reveal_strlit("7");
        reveal_strlit("8");
        reveal_strlit("9");
        reveal_strlit("a");
        reveal_strlit("b");
        reveal_strlit("c");
        reveal_strlit("d");
        reveal_strlit("e");
        reveal_strlit("f");
        assert(r@ =~= seq![hex_digit(d)]);
    }
    r
}

/// The full lowercase hexadecimal rendering of the given bytes.
pub fn hex_string(bytes: &Vec<u8>) -> (r: String)
    ensures
        r@ == hex_of(bytes@),
        r@.len() == 2 * bytes@.len(),
{
    let mut r = String::new();
    let n = bytes.len();
    let mut i: usize = 0;
    proof {
        assert(bytes@.take(0) =~= Seq::<u8>::empty());
    }
    while i < n
        invariant
            n == bytes@.len(),
            0 <= i <= n,
            r@ == hex_of(bytes@.take(i as int)),
            r@.len() == 2 * i,
        decreases n - i,
    {
        let b = bytes[i];
        r.append(hex_digit_str(b / 16));
        r.append(hex_digit_str(b % 16));
        proof {
            lemma_hex_of_push(bytes@.take(i as int), b);
            assert(bytes@.take(i as int).push(b) =~= bytes@.take(i + 1));
        }
        i += 1;
    }
    proof {
        assert(bytes@.take(n as int) =~= bytes@);
    }
    r
}

/// The derived path segment for a repository identity and a branch name:
/// the first `SEGMENT_LEN` hex characters of `sha1(repo + "|" + branch)`.
pub open spec fn derive_spec(repo: Seq<char>, branch: Seq<char>) -> Seq<char> {
    hex_of(sha1_of(vstd::utf8::encode_utf8(repo + "|"@ + branch))).take(SEGMENT_LEN as int)
}

/// Compute the stable directory-name segment for `(repo_identity, branch_name)`.
pub fn derive_path_segment(repo_identity: &str, branch_name: &str) -> (r: String)
    ensures
        r@ == derive_spec(repo_identity@, branch_name@),
        r@.len() == SEGMENT_LEN,
{
    let mut joined = String::from_str(repo_identity);
    joined.append("|");
    joined.append(branch_name);
    let bytes = joined.as_str().as_bytes_vec();
    let digest = sha1_digest(bytes.as_slice());
    let hex = hex_string(&digest);
    proof {
        assert(hex@.len() == 40);
    }
    let seg = hex.as_str().substring_char(0, SEGMENT_LEN);
    proof {
        assert(seg@ =~= derive_spec(repo_identity@, branch_name@));
    }
    String::from_str(seg)
}

/// Law: path derivation is deterministic — equal inputs always give the
/// same derived segment, across invocations and processes.
pub proof fn lemma_derive_deterministic(
    r1: Seq<char>,
    b1: Seq<char>,
    r2: Seq<char>,
    b2: Seq<char>,
)
    requires
        r1 == r2,
        b1 == b2,
    ensures
        derive_spec(r1, b1) == derive_spec(r2, b2),
{
}

} // verus!
