//! Decimal text for integers: the rendering used in exported CSV lines, the
//! value a decimal string denotes, and the proof that the two invert.

use vstd::prelude::*;
use vstd::string::StringExecFns;

verus! {

/// The character standing for one decimal digit value below ten.
pub open spec fn digit_char(d: nat) -> char {
    if d == 0 {
        '0'
    } else if d == 1 {
        '1'
    } else if d == 2 {
        '2'
    } else if d == 3 {
        '3'
    } else if d == 4 {
        '4'
    } else if d == 5 {
        '5'
    } else if d == 6 {
        '6'
    } else if d == 7 {
        '7'
    } else if d == 8 {
        '8'
    } else {
        '9'
    }
}

/// The decimal digits of `n`, most significant first.
pub open spec fn dec_nat(n: nat) -> Seq<char>
    decreases n,
{
    if n < 10 {
        seq![digit_char(n)]
    } else {
        dec_nat(n / 10).push(digit_char(n % 10))
    }
}

/// The decimal rendering of an integer: a leading '-' when negative.
pub open spec fn dec_int(n: int) -> Seq<char> {
    if n < 0 {
        seq!['-'] + dec_nat((-n) as nat)
    } else {
        dec_nat(n as nat)
    }
}

/// The value of one character read as a decimal digit.
pub open spec fn digit_val(c: char) -> Option<nat> {
    if c == '0' {
        Some(0 as nat)
    } else if c == '1' {
        Some(1 as nat)
    } else if c == '2' {
        Some(2 as nat)
    } else if c == '3' {
        Some(3 as nat)
    } else if c == '4' {
        Some(4 as nat)
    } else if c == '5' {
        Some(5 as nat)
    } else if c == '6' {
        Some(6 as nat)
    } else if c == '7' {
        Some(7 as nat)
    } else if c == '8' {
        Some(8 as nat)
    } else if c == '9' {
        Some(9 as nat)
    } else {
        None
    }
}

/// The value of a nonempty string of decimal digits.
pub open spec fn digits_val(s: Seq<char>) -> Option<nat>
    decreases s.len(),
{
    if s.len() == 0 {
        None
    } else if s.len() == 1 {
        digit_val(s[0])
    } else {
        match (digits_val(s.drop_last()), digit_val(s.last())) {
            (Some(v), Some(d)) => Some(v * 10 + d),
            _ => None,
        }
    }
}

/// The integer denoted by a decimal string with an optional leading '-'.
pub open spec fn dec_val(s: Seq<char>) -> Option<int> {
    if s.len() > 0 && s[0] == '-' {
        match digits_val(s.skip(1)) {
            Some(v) => Some(-(v as int)),
            None => None,
        }
    } else {
        match digits_val(s) {
            Some(v) => Some(v as int),
            None => None,
        }
    }
}

/// Reading back the character of a digit gives the digit.
proof fn lemma_digit_val_char(d: nat)
    requires
        d < 10,
    ensures
        digit_val(digit_char(d)) == Some(d),
{
}

/// A rendered natural is nonempty and consists of decimal digits only.
pub proof fn lemma_dec_nat_digits(n: nat)
    ensures
        dec_nat(n).len() >= 1,
        forall|i: int| 0 <= i < dec_nat(n).len() ==> digit_val(#[trigger] dec_nat(n)[i]) is Some,
    decreases n,
{
    if n < 10 {
        lemma_digit_val_char(n);
    } else {
        lemma_dec_nat_digits(n / 10);
        lemma_digit_val_char(n % 10);
        assert forall|i: int| 0 <= i < dec_nat(n).len() implies digit_val(
            #[trigger] dec_nat(n)[i],
        ) is Some by {
            if i < dec_nat(n).len() - 1 {
                assert(dec_nat(n)[i] == dec_nat(n / 10)[i]);
            } else {
                assert(dec_nat(n)[i] == digit_char(n % 10));
            }
        }
    }
}

/// Reading back the decimal digits of a natural gives the natural.
pub proof fn lemma_digits_val_dec_nat(n: nat)
    ensures
        digits_val(dec_nat(n)) == Some(n),
    decreases n,
{
    if n < 10 {
        lemma_digit_val_char(n);
    } else {
        lemma_digits_val_dec_nat(n / 10);
        lemma_digit_val_char(n % 10);
        lemma_dec_nat_digits(n / 10);
        let s = dec_nat(n);
        assert(s.drop_last() =~= dec_nat(n / 10));
        assert(s.last() == digit_char(n % 10));
    }
}

/// Reading back the decimal rendering of an integer gives the integer.
pub proof fn lemma_dec_val_dec_int(n: int)
    ensures
        dec_val(dec_int(n)) == Some(n),
{
    if n >= 0 {
        lemma_dec_nat_digits(n as nat);
        lemma_digits_val_dec_nat(n as nat);
        assert(digit_val('-') is None);
        assert(dec_int(n)[0] != '-');
    } else {
        lemma_dec_nat_digits((-n) as nat);
        lemma_digits_val_dec_nat((-n) as nat);
        let s = dec_int(n);
        assert(s[0] == '-');
        assert(s.skip(1) =~= dec_nat((-n) as nat));
    }
}

/// The single-character string for one decimal digit value.
fn digit_str(d: u64) -> (s: &'static str)
    requires
        d < 10,
    ensures
        s@ == seq![digit_char(d as nat)],
{
    proof {
        reveal_strlit("0");
        reveal_strlit("1");
        reveal_strlit("2");
        reveal_strlit("3");
        reveal_strlit("4");
        reveal_strlit("5");
        reveal_strlit("6");
        reveal_strlit("7");
        reveal_strlit("8");
        reveal_strlit("9");
    }
    let s: &'static str = if d == 0 {
        "0"
    } else if d == 1 {
        "1"
    } else if d == 2 {
        "2"
    } else if d == 3 {
        "3"
    } else if d == 4 {
        "4"
    } else if d == 5 {
        "5"
    } else if d == 6 {
        "6"
    } else if d == 7 {
        "7"
    } else if d == 8 {
        "8"
    } else {
        "9"
    };
    proof {
        assert(s@ =~= seq![digit_char(d as nat)]);
    }
    s
}

/// Renders an unsigned integer in decimal.
pub fn fmt_u64(n: u64) -> (s: String)
    ensures
        s@ == dec_nat(n as nat),
    decreases n,
{
    if n < 10 {
        String::from_str(digit_str(n))
    } else {
        let mut s = fmt_u64(n / 10);
        s.append(digit_str(n % 10));
        proof {
            assert(dec_nat((n as nat) / 10).push(digit_char(((n as nat) % 10))) =~= dec_nat(
                (n / 10) as nat,
            ) + seq![digit_char((n % 10) as nat)]);
        }
        s
    }
}

/// Renders a signed integer in decimal, with a leading '-' when negative.
pub fn fmt_i64(n: i64) -> (s: String)
    ensures
        s@ == dec_int(n as int),
{
    if n >= 0 {
        fmt_u64(n as u64)
    } else {
        let wide: i128 = n as i128;
        let mag: u64 = (-wide) as u64;
        proof {
            assert(0 <= -wide <= u64::MAX as i128);
            assert(mag as nat == (-(n as int)) as nat);
        }
        let mut s = String::from_str("-");
        let digits = fmt_u64(mag);
        s.append(digits.as_str());
        proof {
            reveal_strlit("-");
            assert(s@ =~= dec_int(n as int));
        }
        s
    }
}

/// Renders a 32-bit signed integer in decimal.
pub fn fmt_i32(n: i32) -> (s: String)
    ensures
        s@ == dec_int(n as int),
{
    fmt_i64(n as i64)
}

/// Renders a machine-size unsigned integer in decimal.
pub fn fmt_usize(n: usize) -> (s: String)
    ensures
        s@ == dec_nat(n as nat),
{
    fmt_u64(n as u64)
}

} // verus!
