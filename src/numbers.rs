//! Rendering and parsing of the integers that name artifact versions.

use vstd::prelude::*;
use vstd::string::*;

verus! {

/// The character of a digit below sixteen, lower case for the hexadecimal ones.
pub open spec fn digit_char(d: nat) -> char {
    seq!['0', '1', '2', '3', '4', '5', '6', '7', '8', '9', 'a', 'b', 'c', 'd', 'e', 'f'][d as int]
}

/// Decimal digits of `v`, most significant first, without leading zeros.
pub open spec fn decimal_of(v: nat) -> Seq<char>
    decreases v,
{
    if v < 10 {
        seq![digit_char(v)]
    } else {
        decimal_of(v / 10).push(digit_char(v % 10))
    }
}

/// Lower-case hexadecimal digits of `v`, most significant first, without leading zeros.
pub open spec fn hex_of(v: nat) -> Seq<char>
    decreases v,
{
    if v < 16 {
        seq![digit_char(v)]
    } else {
        hex_of(v / 16).push(digit_char(v % 16))
    }
}

pub open spec fn is_digit(c: char) -> bool {
    '0' <= c && c <= '9'
}

pub open spec fn digit_value(c: char) -> nat {
    (c as u32 - '0' as u32) as nat
}

/// A non-empty run of ASCII decimal digits.
pub open spec fn all_digits(s: Seq<char>) -> bool {
    s.len() > 0 && forall|i: int| 0 <= i < s.len() ==> is_digit(#[trigger] s[i])
}

/// The number that a run of decimal digits denotes.
pub open spec fn value_of(s: Seq<char>) -> nat
    decreases s.len(),
{
    if s.len() == 0 {
        0
    } else {
        value_of(s.drop_last()) * 10 + digit_value(s.last())
    }
}

/// The digits of a number as written: the text without one leading `+`.
pub open spec fn unsigned_digits(s: Seq<char>) -> Seq<char> {
    if s.len() > 0 && s[0] == '+' {
        s.subrange(1, s.len() as int)
    } else {
        s
    }
}

/// What a run of decimal digits denotes as a `u32`: `Some` exactly when it is
/// non-empty and its value fits.
pub open spec fn digits_u32_spec(d: Seq<char>) -> Option<u32> {
    if all_digits(d) && value_of(d) <= u32::MAX {
        Some(value_of(d) as u32)
    } else {
        None
    }
}

/// What a string denotes as a `u32` version: an optional `+`, then a non-empty
/// run of decimal digits whose value fits.
pub open spec fn parse_u32_spec(s: Seq<char>) -> Option<u32> {
    digits_u32_spec(unsigned_digits(s))
}

/// Whether a string denotes an integer version.
pub open spec fn is_integer_version(s: Seq<char>) -> bool {
    parse_u32_spec(s) is Some
}

fn digit_str(d: u64) -> (s: &'static str)
    requires
        d < 16,
    ensures
        s@ == seq![digit_char(d as nat)],
{
    proof {
        reveal_strlit("0");
        reveal_strlit("1");
        reveal_strlit("2");
        reveal_strlit("3");
        reveal_strlit("4");
        reveal_strlit("5");
        reveal_strlit("6");
        reveal_strlit("7");
        reveal_strlit("8");
        reveal_strlit("9");
        reveal_strlit("a");
        reveal_strlit("b");
        reveal_strlit("c");
        reveal_strlit("d");
        reveal_strlit("e");
        reveal_strlit("f");
    }
    let s = if d == 0 {
        "0"
    } else if d == 1 {
        "1"
    } else if d == 2 {
        "2"
    } else if d == 3 {
        "3"
    } else if d == 4 {
        "4"
    } else if d == 5 {
        "5"
    } else if d == 6 {
        "6"
    } else if d == 7 {
        "7"
    } else if d == 8 {
        "8"
    } else if d == 9 {
        "9"
    } else if d == 10 {
        "a"
    } else if d == 11 {
        "b"
    } else if d == 12 {
        "c"
    } else if d == 13 {
        "d"
    } else if d == 14 {
        "e"
    } else {
        "f"
    };
    assert(s@ =~= seq![digit_char(d as nat)]);
    s
}

/// Decimal rendering of a version number.
pub fn decimal_string(v: u64) -> (s: String)
    ensures
        s@ == decimal_of(v as nat),
    decreases v,
{
    if v < 10 {
        String::from_str(digit_str(v))
    } else {
        let mut s = decimal_string(v / 10);
        s.append(digit_str(v % 10));
        assert(s@ =~= decimal_of(v as nat));
        s
    }
}

/// Lower-case hexadecimal rendering of a number.
pub fn hex_string(v: u64) -> (s: String)
    ensures
        s@ == hex_of(v as nat),
    decreases v,
{
    if v < 16 {
        String::from_str(digit_str(v))
    } else {
        let mut s = hex_string(v / 16);
        s.append(digit_str(v % 16));
        assert(s@ =~= hex_of(v as nat));
        s
    }
}

proof fn lemma_value_of_prefix_grows(s: Seq<char>, i: int, j: int)
    requires
        0 <= i <= j <= s.len(),
    ensures
        value_of(s.subrange(0, i)) <= value_of(s.subrange(0, j)),
    decreases j - i,
{
    if i < j {
        lemma_value_of_prefix_grows(s, i, j - 1);
        assert(s.subrange(0, j).drop_last() =~= s.subrange(0, j - 1));
    }
}

fn parse_digits(s: &str) -> (r: Option<u32>)
    ensures
        r == digits_u32_spec(s@),
{
    let n = s.unicode_len();
    if n == 0 {
        return None;
    }
    let mut acc: u64 = 0;
    let mut i: usize = 0;
    while i < n
        invariant
            n == s@.len(),
            0 <= i <= n,
            acc == value_of(s@.subrange(0, i as int)),
            acc <= u32::MAX,
            forall|k: int| 0 <= k < i ==> is_digit(#[trigger] s@[k]),
        decreases n - i,
    {
        let c = s.get_char(i);
        if !('0' <= c && c <= '9') {
            assert(!all_digits(s@));
            return None;
        }
        let d = (c as u32 - '0' as u32) as u64;
        let ghost prev = s@.subrange(0, i as int);
        assert(s@.subrange(0, i + 1).drop_last() =~= prev);
        acc = acc * 10 + d;
        i = i + 1;
        if acc > u32::MAX as u64 {
            proof {
                lemma_value_of_prefix_grows(s@, i as int, n as int);
                assert(s@.subrange(0, n as int) =~= s@);
            }
            return None;
        }
    }
    assert(s@.subrange(0, n as int) =~= s@);
    Some(acc as u32)
}

/// Reads a version number written in decimal, with an optional leading `+`;
/// `None` for anything else.
pub fn parse_u32(s: &str) -> (r: Option<u32>)
    ensures
        r == parse_u32_spec(s@),
{
    let n = s.unicode_len();
    if n > 0 && s.get_char(0) == '+' {
        parse_digits(s.substring_char(1, n))
    } else {
        parse_digits(s)
    }
}

proof fn lemma_digit(d: nat)
    requires
        d < 10,
    ensures
        is_digit(digit_char(d)),
        digit_value(digit_char(d)) == d,
{
    let t = seq!['0', '1', '2', '3', '4', '5', '6', '7', '8', '9', 'a', 'b', 'c', 'd', 'e', 'f'];
    assert(digit_char(d) == t[d as int]);
    if d == 0 {
        assert(t[0] == '0');
    } else if d == 1 {
        assert(t[1] == '1');
    } else if d == 2 {
        assert(t[2] == '2');
    } else if d == 3 {
        assert(t[3] == '3');
    } else if d == 4 {
        assert(t[4] == '4');
    } else if d == 5 {
        assert(t[5] == '5');
    } else if d == 6 {
        assert(t[6] == '6');
    } else if d == 7 {
        assert(t[7] == '7');
    } else if d == 8 {
        assert(t[8] == '8');
    } else {
        assert(t[9] == '9');
    }
}

/// The decimal rendering of a number reads back as that number.
pub proof fn lemma_decimal_round_trip(v: nat)
    ensures
        all_digits(decimal_of(v)),
        value_of(decimal_of(v)) == v,
        v <= u32::MAX ==> parse_u32_spec(decimal_of(v)) == Some(v as u32),
    decreases v,
{
    lemma_decimal_digits(v);
    assert(!is_digit('+'));
}

proof fn lemma_decimal_digits(v: nat)
    ensures
        all_digits(decimal_of(v)),
        value_of(decimal_of(v)) == v,
    decreases v,
{
    if v < 10 {
        lemma_digit(v);
        let s = seq![digit_char(v)];
        assert(s.drop_last() =~= Seq::<char>::empty());
        assert(s.last() == digit_char(v));
        assert(value_of(s.drop_last()) == 0);
        assert(value_of(s) == v);
    } else {
        lemma_decimal_digits(v / 10);
        lemma_digit(v % 10);
        let p = decimal_of(v / 10);
        let s = p.push(digit_char(v % 10));
        assert(s.drop_last() =~= p);
        assert(s.last() == digit_char(v % 10));
        assert(forall|i: int| 0 <= i < p.len() ==> s[i] == p[i]);
        assert(value_of(s) == (v / 10) * 10 + v % 10);
        assert((v / 10) * 10 + v % 10 == v) by (nonlinear_arith);
    }
}

} // verus!
