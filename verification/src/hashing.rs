//! Content-hash comparison policy.
//!
//! Hashes are carried as hex strings and compared case-insensitively: every
//! comparison folds ASCII upper-case letters to lower case first. The cache
//! stores the folded (lower-case) form.

use vstd::prelude::*;
use vstd::string::StrSliceExecFns;
use vstd::string::StringExecFns;

verus! {

/// What the content hash of a byte sequence is: a function of the bytes
/// alone, the same in every process and on every machine.
pub uninterp spec fn blake3_of(bytes: Seq<u8>) -> Seq<char>;

/// Relies on `blake3::hash` and `blake3::Hash::to_hex`: the content hash
/// of the bytes, as 64 lowercase hexadecimal digits, depending on the
/// bytes alone.
#[verifier::external_body]
pub fn hash_bytes(bytes: &[u8]) -> (r: String)
    ensures
        r@ == blake3_of(bytes@),
        r@.len() == 64,
        fold(r@) == r@,
{
    blake3::hash(bytes).to_hex().to_string()
}

/// ASCII case-fold of a single character: 'A'..='Z' map to their lower-case
/// counterparts, every other character is unchanged.
pub open spec fn fold_char(c: char) -> char {
    if 'A' as u32 <= c as u32 && c as u32 <= 'Z' as u32 {
        (((c as u32) + 32) as u32) as char
    } else {
        c
    }
}

/// The ASCII-lower-cased form of a character sequence.
pub open spec fn fold(s: Seq<char>) -> Seq<char> {
    s.map_values(|c: char| fold_char(c))
}

/// Case-insensitive equality of two hash strings: equal length and equal
/// characters after ASCII case-folding.
pub open spec fn hash_eq(a: Seq<char>, b: Seq<char>) -> bool {
    &&& a.len() == b.len()
    &&& forall|i: int| 0 <= i < a.len() ==> fold_char(a[i]) == fold_char(b[i])
}

/// `hash_eq` is an equivalence relation; transitivity is the part the differ
/// needs: a cached copy of the disk hash decides staleness exactly as the
/// disk hash itself does.
pub proof fn lemma_hash_eq_transitive(a: Seq<char>, b: Seq<char>, c: Seq<char>)
    requires
        hash_eq(a, b),
    ensures
        hash_eq(a, c) == hash_eq(b, c),
{
}

/// Case-fold one character.
pub fn fold_char_ex(c: char) -> (r: char)
    ensures
        r == fold_char(c),
{
    match c {
        'A' => 'a',
        'B' => 'b',
        'C' => 'c',
        'D' => 'd',
        'E' => 'e',
        'F' => 'f',
        'G' => 'g',
        'H' => 'h',
        'I' => 'i',
        'J' => 'j',
        'K' => 'k',
        'L' => 'l',
        'M' => 'm',
        'N' => 'n',
        'O' => 'o',
        'P' => 'p',
        'Q' => 'q',
        'R' => 'r',
        'S' => 's',
        'T' => 't',
        'U' => 'u',
        'V' => 'v',
        'W' => 'w',
        'X' => 'x',
        'Y' => 'y',
        'Z' => 'z',
        _ => c,
    }
}

/// Whether a byte sequence's content hash matches a manifest hash,
/// case-insensitively: the check run on downloaded or extracted content.
pub fn bytes_match_hash(bytes: &[u8], expected_hash: &str) -> (r: bool)
    ensures
        r == hash_eq(blake3_of(bytes@), expected_hash@),
{
    let h = hash_bytes(bytes);
    eq_ignore_case(h.as_str(), expected_hash)
}

/// Case-insensitive (ASCII) equality of two strings, the comparison policy
/// for all content hashes.
pub fn eq_ignore_case(a: &str, b: &str) -> (r: bool)
    ensures
        r == hash_eq(a@, b@),
{
    let a_len = a.unicode_len();
    let b_len = b.unicode_len();
    if a_len != b_len {
        return false;
    }
    let mut i: usize = 0;
    while i < a_len
        invariant
            i <= a_len,
            a_len == a@.len(),
            b_len == b@.len(),
            a_len == b_len,
            forall|j: int| 0 <= j < i ==> fold_char(a@[j]) == fold_char(b@[j]),
        decreases a_len - i,
    {
        let ca = a.get_char(i);
        let cb = b.get_char(i);
        if fold_char_ex(ca) != fold_char_ex(cb) {
            return false;
        }
        i += 1;
    }
    true
}

/// Equality of two string slices, character for character.
pub fn str_eq(a: &str, b: &str) -> (r: bool)
    ensures
        r == (a@ == b@),
{
    let a_len = a.unicode_len();
    let b_len = b.unicode_len();
    if a_len != b_len {
        return false;
    }
    let mut i: usize = 0;
    while i < a_len
        invariant
            i <= a_len,
            a_len == a@.len(),
            b_len == b@.len(),
            a_len == b_len,
            forall|j: int| 0 <= j < i ==> a@[j] == b@[j],
        decreases a_len - i,
    {
        let ca = a.get_char(i);
        let cb = b.get_char(i);
        if ca != cb {
            return false;
        }
        i += 1;
    }
    proof {
        assert(a@ =~= b@);
    }
    true
}

/// The lower-case literal for an ASCII upper-case letter.
fn lower_str(c: char) -> (r: &'static str)
    requires
        'A' as u32 <= c as u32 && c as u32 <= 'Z' as u32,
    ensures
        r@.len() == 1,
        r@[0] == fold_char(c),
{
    proof {
        reveal_strlit("a");
        reveal_strlit("b");
        reveal_strlit("c");
        reveal_strlit("d");
        reveal_strlit("e");
        reveal_strlit("f");
        reveal_strlit("g");
        reveal_strlit("h");
        reveal_strlit("i");
        reveal_strlit("j");
        reveal_strlit("k");
        reveal_strlit("l");
        reveal_strlit("m");
        reveal_strlit("n");
        reveal_strlit("o");
        reveal_strlit("p");
        reveal_strlit("q");
        reveal_strlit("r");
        reveal_strlit("s");
        reveal_strlit("t");
        reveal_strlit("u");
        reveal_strlit("v");
        reveal_strlit("w");
        reveal_strlit("x");
        reveal_strlit("y");
        reveal_strlit("z");
    }
    match c {
        'A' => "a",
        'B' => "b",
        'C' => "c",
        'D' => "d",
        'E' => "e",
        'F' => "f",
        'G' => "g",
        'H' => "h",
        'I' => "i",
        'J' => "j",
        'K' => "k",
        'L' => "l",
        'M' => "m",
        'N' => "n",
        'O' => "o",
        'P' => "p",
        'Q' => "q",
        'R' => "r",
        'S' => "s",
        'T' => "t",
        'U' => "u",
        'V' => "v",
        'W' => "w",
        'X' => "x",
        'Y' => "y",
        _ => "z",
    }
}

/// ASCII-lower-case a string; used to store hashes in their canonical
/// (lower-case hex) form.
pub fn to_lowercase(s: &str) -> (r: String)
    ensures
        r@ == fold(s@),
{
    let n = s.unicode_len();
    let mut out = String::new();
    let mut i: usize = 0;
    while i < n
        invariant
            i <= n,
            n == s@.len(),
            out@.len() == i,
            forall|j: int| 0 <= j < i ==> out@[j] == fold_char(s@[j]),
        decreases n - i,
    {
        let c = s.get_char(i);
        if 'A' <= c && c <= 'Z' {
            out.append(lower_str(c));
        } else {
            out.append(s.substring_char(i, i + 1));
        }
        i += 1;
    }
    proof {
        assert(out@ =~= fold(s@));
    }
    out
}

} // verus!
