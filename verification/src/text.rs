//! Decimal text of integers, from which cache keys are built.

use vstd::prelude::*;
use vstd::string::*;

verus! {

/// The character that writes the digit `d`.
pub open spec fn digit_char(d: int) -> char {
    if d == 0 {
        '0'
    } else if d == 1 {
        '1'
    } else if d == 2 {
        '2'
    } else if d == 3 {
        '3'
    } else if d == 4 {
        '4'
    } else if d == 5 {
        '5'
    } else if d == 6 {
        '6'
    } else if d == 7 {
        '7'
    } else if d == 8 {
        '8'
    } else {
        '9'
    }
}

/// The decimal digits of `n`, most significant first, without leading zeros.
pub open spec fn decimal_digits(n: nat) -> Seq<char>
    decreases n,
{
    if n < 10 {
        seq![digit_char(n as int)]
    } else {
        decimal_digits(n / 10).push(digit_char((n % 10) as int))
    }
}

/// The one-character text of a digit.
pub fn digit_text(d: u64) -> (s: &'static str)
    requires
        d < 10,
    ensures
        s@ == seq![digit_char(d as int)],
{
    proof {
        reveal_strlit("0");
        reveal_strlit("1");
        reveal_strlit("2");
        reveal_strlit("3");
        reveal_strlit("4");
        reveal_strlit("5");
        reveal_strlit("6");
        reveal_strlit("7");
        reveal_strlit("8");
        reveal_strlit("9");
    }
    let s = if d == 0 {
        "0"
    } else if d == 1 {
        "1"
    } else if d == 2 {
        "2"
    } else if d == 3 {
        "3"
    } else if d == 4 {
        "4"
    } else if d == 5 {
        "5"
    } else if d == 6 {
        "6"
    } else if d == 7 {
        "7"
    } else if d == 8 {
        "8"
    } else {
        "9"
    };
    assert(s@ =~= seq![digit_char(d as int)]);
    s
}

/// Appends the decimal digits of `n` to `out`.
pub fn push_decimal(out: &mut String, n: u64)
    ensures
        final(out)@ == old(out)@ + decimal_digits(n as nat),
    decreases n,
{
    if n < 10 {
        out.append(digit_text(n));
    } else {
        push_decimal(out, n / 10);
        out.append(digit_text(n % 10));
        assert(out@ =~= old(out)@ + decimal_digits(n as nat));
    }
}

/// A count of hundredths written with two decimals: the whole part, a
/// point, and two digits.
pub open spec fn hundredths_text(h: nat) -> Seq<char> {
    decimal_digits(h / 100) + seq!['.'] + seq![digit_char(((h / 10) % 10) as int)] + seq![
        digit_char((h % 10) as int),
    ]
}

/// Appends a count of hundredths, written with two decimals, to `out`.
pub fn push_hundredths(out: &mut String, h: u64)
    ensures
        final(out)@ == old(out)@ + hundredths_text(h as nat),
{
    proof {
        reveal_strlit(".");
    }
    push_decimal(out, h / 100);
    out.append(".");
    out.append(digit_text((h / 10) % 10));
    out.append(digit_text(h % 10));
    assert(out@ =~= old(out)@ + hundredths_text(h as nat));
}

/// The digits behind the point of a count of thousandths: none for a whole
/// number, else the point and up to three digits, without zeros at the end.
pub open spec fn fraction_text(thousandths: nat) -> Seq<char> {
    if thousandths % 1000 == 0 {
        Seq::empty()
    } else if thousandths % 100 == 0 {
        seq!['.', digit_char(((thousandths / 100) % 10) as int)]
    } else if thousandths % 10 == 0 {
        seq![
            '.',
            digit_char(((thousandths / 100) % 10) as int),
            digit_char(((thousandths / 10) % 10) as int),
        ]
    } else {
        seq![
            '.',
            digit_char(((thousandths / 100) % 10) as int),
            digit_char(((thousandths / 10) % 10) as int),
            digit_char((thousandths % 10) as int),
        ]
    }
}

/// A length in units written in pixels, the way a floating-point number is
/// printed: a minus sign if it is negative, the whole pixels, and the
/// thousandths behind a point where there are any.
pub open spec fn length_text(units: int) -> Seq<char> {
    let magnitude = if units < 0 {
        (-units) as nat
    } else {
        units as nat
    };
    let sign = if units < 0 {
        seq!['-']
    } else {
        Seq::empty()
    };
    sign + decimal_digits(magnitude / 1000) + fraction_text(magnitude)
}

/// Appends a length in units, written in pixels, to `out`.
pub fn push_length(out: &mut String, units: i64)
    ensures
        final(out)@ == old(out)@ + length_text(units as int),
{
    proof {
        reveal_strlit("-");
        reveal_strlit(".");
    }
    let magnitude: u64 = if units < 0 {
        (-(units as i128)) as u64
    } else {
        units as u64
    };
    if units < 0 {
        out.append("-");
    }
    push_decimal(out, magnitude / 1000);
    if magnitude % 1000 != 0 {
        out.append(".");
        out.append(digit_text((magnitude / 100) % 10));
        if magnitude % 100 != 0 {
            out.append(digit_text((magnitude / 10) % 10));
            if magnitude % 10 != 0 {
                out.append(digit_text(magnitude % 10));
            }
        }
    }
    assert(out@ =~= old(out)@ + length_text(units as int));
}

/// A part of the whole given in millionths, written with two decimals and
/// rounded to the nearest hundredth, with a minus sign if it is negative.
pub open spec fn ratio_text(millionths: int) -> Seq<char> {
    let magnitude = if millionths < 0 {
        (-millionths) as nat
    } else {
        millionths as nat
    };
    let sign = if millionths < 0 {
        seq!['-']
    } else {
        Seq::empty()
    };
    sign + hundredths_text((magnitude + 5000) / 10000)
}

/// Appends a part of the whole, written with two decimals, to `out`.
pub fn push_ratio(out: &mut String, millionths: i64)
    ensures
        final(out)@ == old(out)@ + ratio_text(millionths as int),
{
    proof {
        reveal_strlit("-");
    }
    let magnitude: u64 = if millionths < 0 {
        (-(millionths as i128)) as u64
    } else {
        millionths as u64
    };
    if millionths < 0 {
        out.append("-");
    }
    push_hundredths(out, (magnitude + 5000) / 10000);
    assert(out@ =~= old(out)@ + ratio_text(millionths as int));
}

} // verus!
