//! Small helpers: console prefixes, human-readable byte counts, decimal
//! rendering, and the random strings used to defeat intermediary caches.

use vstd::prelude::*;
use vstd::string::StrSliceExecFns;
use vstd::string::StringExecFns;

verus! {

/// A tagged console prefix: the tag text and the padding that aligns the
/// messages behind it.
pub struct PrintPrefix {
    pub text: String,
    pub padding: usize,
}

/// Spaces, `n` of them.
pub open spec fn spec_spaces(n: int) -> Seq<char>
    decreases n,
{
    if n <= 0 {
        Seq::empty()
    } else {
        spec_spaces(n - 1).push(' ')
    }
}

impl PrintPrefix {
    /// `[text]` followed by the padding spaces.
    pub fn formatted(&self) -> (r: String)
        ensures
            r@ == "["@ + self.text@ + "]"@ + spec_spaces(self.padding as int),
    {
        let mut out = String::from_str("[");
        out.append(self.text.as_str());
        out.append("]");
        let mut i: usize = 0;
        let ghost head = "["@ + self.text@ + "]"@;
        proof {
            assert(out@ =~= head + spec_spaces(0));
        }
        while i < self.padding
            invariant
                i <= self.padding,
                head == "["@ + self.text@ + "]"@,
                out@ == head + spec_spaces(i as int),
            decreases self.padding - i,
        {
            out.append(" ");
            proof {
                reveal_strlit(" ");
                assert(out@ =~= head + spec_spaces(i + 1));
            }
            i += 1;
        }
        out
    }
}

/// The prefix text for a known tag; an unknown tag is returned as it is.
pub open spec fn spec_prefix(tag: Seq<char>) -> Seq<char> {
    if tag == "info"@ {
        "[Info]    "@
    } else if tag == "updated"@ {
        "[Updated] "@
    } else if tag == "checked"@ {
        "[Checked] "@
    } else if tag == "removed"@ {
        "[Removed] "@
    } else if tag == "error"@ {
        "[Error]   "@
    } else if tag == "renamed"@ {
        "[Renamed] "@
    } else {
        tag
    }
}

/// The console prefix for a tag name.
pub fn prefix(tag_name: &str) -> (r: String)
    ensures
        r@ == spec_prefix(tag_name@),
{
    if crate::hashing::str_eq(tag_name, "info") {
        String::from_str("[Info]    ")
    } else if crate::hashing::str_eq(tag_name, "updated") {
        String::from_str("[Updated] ")
    } else if crate::hashing::str_eq(tag_name, "checked") {
        String::from_str("[Checked] ")
    } else if crate::hashing::str_eq(tag_name, "removed") {
        String::from_str("[Removed] ")
    } else if crate::hashing::str_eq(tag_name, "error") {
        String::from_str("[Error]   ")
    } else if crate::hashing::str_eq(tag_name, "renamed") {
        String::from_str("[Renamed] ")
    } else {
        String::from_str(tag_name)
    }
}

/// The decimal digit characters.
pub open spec fn spec_digit(d: int) -> char {
    if d == 0 {
        '0'
    } else if d == 1 {
        '1'
    } else if d == 2 {
        '2'
    } else if d == 3 {
        '3'
    } else if d == 4 {
        '4'
    } else if d == 5 {
        '5'
    } else if d == 6 {
        '6'
    } else if d == 7 {
        '7'
    } else if d == 8 {
        '8'
    } else {
        '9'
    }
}

/// The decimal rendering of a non-negative number.
pub open spec fn spec_decimal(n: int) -> Seq<char>
    decreases n,
{
    if n < 10 {
        seq![spec_digit(n)]
    } else {
        spec_decimal(n / 10).push(spec_digit(n % 10))
    }
}

/// The one-character string for a decimal digit.
fn digit_str(d: u64) -> (r: &'static str)
    requires
        d < 10,
    ensures
        r@.len() == 1,
        r@[0] == spec_digit(d as int),
{
    proof {
        reveal_strlit("0");
        reveal_strlit("1");
        reveal_strlit("2");
        reveal_strlit("3");
        reveal_strlit("4");
        reveal_strlit("5");
        reveal_strlit("6");
        reveal_strlit("7");
        reveal_strlit("8");
        reveal_strlit("9");
    }
    match d {
        0 => "0",
        1 => "1",
        2 => "2",
        3 => "3",
        4 => "4",
        5 => "5",
        6 => "6",
        7 => "7",
        8 => "8",
        _ => "9",
    }
}

/// A number in decimal.
pub fn u64_to_string(n: u64) -> (r: String)
    ensures
        r@ == spec_decimal(n as int),
    decreases n,
{
    if n < 10 {
        String::from_str(digit_str(n))
    } else {
        let mut s = u64_to_string(n / 10);
        s.append(digit_str(n % 10));
        proof {
            assert(s@ =~= spec_decimal(n as int));
        }
        s
    }
}

/// How often a number halves by 1024 before dropping below 1024: the index
/// of the byte unit it is displayed in.
pub open spec fn spec_unit_index(b: int) -> int
    decreases b,
{
    if b < 1024 {
        0
    } else {
        1 + spec_unit_index(b / 1024)
    }
}

/// Powers of 1024.
pub open spec fn pow1024(i: int) -> int
    decreases i,
{
    if i <= 0 {
        1
    } else {
        1024 * pow1024(i - 1)
    }
}

pub proof fn lemma_pow1024_pos(i: int)
    ensures
        pow1024(i) >= 1,
    decreases i,
{
    if i > 0 {
        lemma_pow1024_pos(i - 1);
        assert(pow1024(i) == 1024 * pow1024(i - 1));
    }
}

pub proof fn lemma_pow1024_monotone(a: int, b: int)
    requires
        0 <= a <= b,
    ensures
        pow1024(a) <= pow1024(b),
    decreases b - a,
{
    if a < b {
        lemma_pow1024_monotone(a, b - 1);
        lemma_pow1024_pos(b - 1);
        assert(pow1024(b) == 1024 * pow1024(b - 1));
    }
}

/// The unit names, from bytes up.
pub open spec fn spec_unit_name(i: int) -> Seq<char> {
    if i == 0 {
        "B"@
    } else if i == 1 {
        "KB"@
    } else if i == 2 {
        "MB"@
    } else if i == 3 {
        "GB"@
    } else if i == 4 {
        "TB"@
    } else if i == 5 {
        "PB"@
    } else if i == 6 {
        "EB"@
    } else if i == 7 {
        "ZB"@
    } else {
        "YB"@
    }
}

/// What `human_readable_bytes` prints: the amount scaled into its unit,
/// truncated to two decimals, with the unit name appended.
pub open spec fn spec_human_readable(b: int) -> Seq<char> {
    let u = spec_unit_index(b);
    let denom = pow1024(u);
    let whole = b / denom;
    let centi = (b % denom) * 100 / denom;
    spec_decimal(whole) + "."@ + seq![spec_digit(centi / 10), spec_digit(centi % 10)]
        + spec_unit_name(u)
}

/// A byte count as people read it: scaled into the largest unit that keeps
/// the amount below 1024, with two (truncated) decimals.
pub fn human_readable_bytes(bytes: u64) -> (r: String)
    ensures
        r@ == spec_human_readable(bytes as int),
{
    let mut denom: u64 = 1;
    let mut i: usize = 0;
    while bytes / denom >= 1024
        invariant
            denom > 0,
            i <= 6,
            denom == pow1024(i as int),
            i == spec_unit_index(bytes as int) - spec_unit_index(bytes as int / denom as int),
        decreases bytes as int / denom as int,
    {
        proof {
            assert(bytes / denom >= 1024);
            if i >= 6 {
                lemma_pow1024_monotone(6, i as int);
                assert(pow1024(6) == 1024 * pow1024(5)) by {
                    reveal_with_fuel(pow1024, 8);
                }
                assert(pow1024(5) == 1024 * pow1024(4)) by {
                    reveal_with_fuel(pow1024, 8);
                }
                assert(pow1024(4) == 1024 * pow1024(3)) by {
                    reveal_with_fuel(pow1024, 8);
                }
                assert(pow1024(3) == 1024 * pow1024(2)) by {
                    reveal_with_fuel(pow1024, 8);
                }
                assert(pow1024(2) == 1024 * pow1024(1)) by {
                    reveal_with_fuel(pow1024, 8);
                }
                assert(pow1024(1) == 1024) by {
                    reveal_with_fuel(pow1024, 8);
                }
                assert(denom as int >= 0x1000000000000000);
                assert(denom * 1024 <= bytes) by (nonlinear_arith)
                    requires
                        denom > 0,
                        bytes / denom >= 1024,
                {}
                assert(false);
            }
            assert(denom * 1024 <= bytes) by (nonlinear_arith)
                requires
                    denom > 0,
                    bytes / denom >= 1024,
            {}
            assert((bytes as int / denom as int) / 1024 == bytes as int / (denom as int * 1024)) by {
                vstd::arithmetic::div_mod::lemma_div_denominator(
                    bytes as int,
                    denom as int,
                    1024,
                );
            }
            assert(pow1024(i + 1) == denom as int * 1024) by (nonlinear_arith)
                requires
                    pow1024(i + 1) == 1024 * pow1024(i as int),
                    denom == pow1024(i as int),
            {}
            assert(bytes as int / (denom as int * 1024) < bytes as int / denom as int)
                by (nonlinear_arith)
                requires
                    denom > 0,
                    bytes as int / denom as int >= 1024,
                    (bytes as int / denom as int) / 1024 == bytes as int / (denom as int * 1024),
            {}
        }
        denom = denom * 1024;
        i = i + 1;
    }
    let whole = bytes / denom;
    let rem = bytes % denom;
    let centi128 = ((rem as u128) * 100) / (denom as u128);
    proof {
        assert(spec_unit_index(bytes as int / denom as int) == 0);
        assert(i == spec_unit_index(bytes as int));
        assert(rem as int * 100 < denom as int * 100) by (nonlinear_arith)
            requires
                rem < denom,
        {}
        assert(((rem as int * 100) / (denom as int)) < 100) by (nonlinear_arith)
            requires
                denom > 0,
                rem as int * 100 < denom as int * 100,
        {}
        assert(centi128 < 100);
    }
    let centi = centi128 as u64;
    let mut out = u64_to_string(whole);
    out.append(".");
    out.append(digit_str(centi / 10));
    out.append(digit_str(centi % 10));
    let unit: &'static str = match i {
        0 => "B",
        1 => "KB",
        2 => "MB",
        3 => "GB",
        4 => "TB",
        5 => "PB",
        6 => "EB",
        7 => "ZB",
        _ => "YB",
    };
    proof {
        assert(unit@ == spec_unit_name(i as int));
    }
    out.append(unit);
    proof {
        assert(out@ =~= spec_human_readable(bytes as int));
    }
    out
}

/// The characters random strings draw from.
pub open spec fn bust_alphabet() -> Seq<char> {
    "ABCDEFGHIJKLMNOPQRSTUVWXYZabcdefghijklmnopqrstuvwxyz0123456789"@
}

/// Relies on `rand::random_range`: a number drawn below `n`; nothing more
/// is assumed of it.
#[verifier::external_body]
fn random_index(n: usize) -> (r: usize)
    requires
        n > 0,
    ensures
        r < n,
{
    rand::random_range(0..n)
}

/// A random string of the given length over letters and digits, for
/// cache-busting query parameters.
pub fn random_string(length: usize) -> (r: String)
    ensures
        r@.len() == length,
        forall|i: int| 0 <= i < length ==> bust_alphabet().contains(#[trigger] r@[i]),
{
    let chars = "ABCDEFGHIJKLMNOPQRSTUVWXYZabcdefghijklmnopqrstuvwxyz0123456789";
    let n = chars.unicode_len();
    proof {
        reveal_strlit("ABCDEFGHIJKLMNOPQRSTUVWXYZabcdefghijklmnopqrstuvwxyz0123456789");
        assert(n == bust_alphabet().len());
        assert(n == 62);
    }
    let mut out = String::new();
    let mut i: usize = 0;
    while i < length
        invariant
            i <= length,
            n == 62,
            n == bust_alphabet().len(),
            n == chars@.len(),
            chars@ == bust_alphabet(),
            out@.len() == i,
            forall|j: int| 0 <= j < i ==> bust_alphabet().contains(#[trigger] out@[j]),
        decreases length - i,
    {
        let k = random_index(n);
        out.append(chars.substring_char(k, k + 1));
        proof {
            assert(out@.last() == chars@[k as int]);
            assert(bust_alphabet().contains(out@[i as int]));
        }
        i += 1;
    }
    out
}

} // verus!
