//! Decimal text of integers, as it appears in SVG coordinates.
use vstd::prelude::*;

verus! {

/// The character of a decimal digit.
pub open spec fn digit_char(d: nat) -> char {
    if d == 0 {
        '0'
    } else if d == 1 {
        '1'
    } else if d == 2 {
        '2'
    } else if d == 3 {
        '3'
    } else if d == 4 {
        '4'
    } else if d == 5 {
        '5'
    } else if d == 6 {
        '6'
    } else if d == 7 {
        '7'
    } else if d == 8 {
        '8'
    } else {
        '9'
    }
}

/// The digits of a natural number, most significant first, without leading zeros.
pub open spec fn digits_of(n: nat) -> Seq<char>
    decreases n,
{
    if n < 10 {
        seq![digit_char(n)]
    } else {
        digits_of(n / 10).push(digit_char(n % 10))
    }
}

/// The decimal text of an integer: a `-` before the digits of a negative one.
pub open spec fn decimal(v: int) -> Seq<char> {
    if v < 0 {
        seq!['-'] + digits_of((-v) as nat)
    } else {
        digits_of(v as nat)
    }
}

/// A decimal digit character.
pub open spec fn is_digit(c: char) -> bool {
    '0' <= c && c <= '9'
}

proof fn lemma_digits_shape(n: nat)
    ensures
        digits_of(n).len() >= 1,
        digits_of(n).len() == 1 <==> n < 10,
        forall|i: int| 0 <= i < digits_of(n).len() ==> is_digit(#[trigger] digits_of(n)[i]),
    decreases n,
{
    if n >= 10 {
        lemma_digits_shape(n / 10);
        let p = digits_of(n / 10);
        assert forall|i: int| 0 <= i < digits_of(n).len() implies is_digit(#[trigger] digits_of(n)[i]) by {
            if i < p.len() {
                assert(digits_of(n)[i] == p[i]);
            }
        }
    }
}

proof fn lemma_digit_char_injective(a: nat, b: nat)
    requires
        a < 10,
        b < 10,
        digit_char(a) == digit_char(b),
    ensures
        a == b,
{
}

proof fn lemma_digits_injective(a: nat, b: nat)
    requires
        digits_of(a) == digits_of(b),
    ensures
        a == b,
    decreases a,
{
    lemma_digits_shape(a);
    lemma_digits_shape(b);
    if a >= 10 {
        assert(digits_of(a).last() == digit_char(a % 10));
        assert(digits_of(b).last() == digit_char(b % 10));
        assert(digits_of(a).drop_last() == digits_of(a / 10));
        assert(digits_of(b).drop_last() == digits_of(b / 10));
        lemma_digit_char_injective(a % 10, b % 10);
        lemma_digits_injective(a / 10, b / 10);
    } else {
        assert(digits_of(a)[0] == digit_char(a));
        assert(digits_of(b)[0] == digit_char(b));
        lemma_digit_char_injective(a, b);
    }
}

/// Decimal text is never empty and is a run of digits, after a `-` for a
/// negative number.
pub proof fn lemma_decimal_shape(v: int)
    ensures
        decimal(v).len() >= 1,
        v < 0 ==> decimal(v)[0] == '-',
        forall|i: int| (if v < 0 { 1int } else { 0int }) <= i < decimal(v).len() ==> is_digit(#[trigger] decimal(v)[i]),
{
    if v < 0 {
        lemma_digits_shape((-v) as nat);
        assert forall|i: int| 1 <= i < decimal(v).len() implies is_digit(#[trigger] decimal(v)[i]) by {
            assert(decimal(v)[i] == digits_of((-v) as nat)[i - 1]);
        }
    } else {
        lemma_digits_shape(v as nat);
    }
}

/// Different integers have different decimal texts, so a written coordinate
/// stands for exactly one number.
pub proof fn lemma_decimal_injective(a: int, b: int)
    requires
        decimal(a) == decimal(b),
    ensures
        a == b,
{
    lemma_decimal_shape(a);
    lemma_decimal_shape(b);
    if a < 0 && b >= 0 {
        assert(decimal(b)[0] == '-');
    } else if b < 0 && a >= 0 {
        assert(decimal(a)[0] == '-');
    } else if a < 0 {
        assert(decimal(a).subrange(1, decimal(a).len() as int) =~= digits_of((-a) as nat));
        assert(decimal(b).subrange(1, decimal(b).len() as int) =~= digits_of((-b) as nat));
        lemma_digits_injective((-a) as nat, (-b) as nat);
    } else {
        lemma_digits_injective(a as nat, b as nat);
    }
}

/// The digit characters are `0` to `9` in order: digit `d` has code `48 + d`.
pub proof fn lemma_digit_char_code(d: nat)
    requires
        d < 10,
    ensures
        digit_char(d) as int == 48 + d,
{
}

/// A number below ten is written as its single digit.
pub proof fn lemma_decimal_single_digit(v: int)
    requires
        0 <= v < 10,
    ensures
        decimal(v) == seq![digit_char(v as nat)],
{
}

/// A number of ten or more is written as its tenth (rounded down) followed
/// by its last digit.
pub proof fn lemma_decimal_last_digit(v: int)
    requires
        v >= 10,
    ensures
        decimal(v) == decimal(v / 10) + seq![digit_char((v % 10) as nat)],
{
}

/// A negative number is written as `-` followed by its magnitude.
pub proof fn lemma_decimal_negative(v: int)
    requires
        v < 0,
    ensures
        decimal(v) == seq!['-'] + decimal(-v),
{
}

fn digit_str(d: u32) -> (s: &'static str)
    requires
        d < 10,
    ensures
        s@ == seq![digit_char(d as nat)],
{
    match d {
        0 => {
            proof { reveal_strlit("0"); }
            "0"
        },
        1 => {
            proof { reveal_strlit("1"); }
            "1"
        },
        2 => {
            proof { reveal_strlit("2"); }
            "2"
        },
        3 => {
            proof { reveal_strlit("3"); }
            "3"
        },
        4 => {
            proof { reveal_strlit("4"); }
            "4"
        },
        5 => {
            proof { reveal_strlit("5"); }
            "5"
        },
        6 => {
            proof { reveal_strlit("6"); }
            "6"
        },
        7 => {
            proof { reveal_strlit("7"); }
            "7"
        },
        8 => {
            proof { reveal_strlit("8"); }
            "8"
        },
        _ => {
            proof { reveal_strlit("9"); }
            "9"
        },
    }
}

fn push_digits(out: &mut String, n: u32)
    ensures
        final(out)@ == old(out)@ + digits_of(n as nat),
    decreases n,
{
    if n >= 10 {
        push_digits(out, n / 10);
    }
    let d = digit_str(n % 10);
    out.append(d);
    proof {
        if n >= 10 {
            assert(old(out)@ + digits_of(n as nat) =~= old(out)@ + digits_of((n / 10) as nat) + seq![digit_char((n % 10) as nat)]);
        } else {
            assert(digits_of(n as nat) == seq![digit_char(n as nat)]);
        }
    }
}

/// Appends the decimal text of `v` to `out`.
pub fn push_decimal(out: &mut String, v: i32)
    ensures
        final(out)@ == old(out)@ + decimal(v as int),
{
    if v < 0 {
        proof { reveal_strlit("-"); }
        out.append("-");
        let magnitude: u32 = if v == i32::MIN {
            2147483648u32
        } else {
            (-v) as u32
        };
        push_digits(out, magnitude);
        assert(old(out)@ + decimal(v as int) =~= old(out)@ + seq!['-'] + digits_of(magnitude as nat));
    } else {
        push_digits(out, v as u32);
    }
}

} // verus!
