//! Reading decimal numbers from text.

use vstd::prelude::*;
use vstd::slice::*;
use vstd::string::*;

verus! {

/// Whether the byte is an ASCII digit.
pub open spec fn is_digit(b: u8) -> bool {
    48 <= b <= 57
}

/// Whether every byte is an ASCII digit.
pub open spec fn all_digits(s: Seq<u8>) -> bool {
    forall|i: int| 0 <= i < s.len() ==> is_digit(#[trigger] s[i])
}

/// The number that a row of digits writes.
pub open spec fn digits_value(s: Seq<u8>) -> nat
    decreases s.len(),
{
    if s.len() == 0 {
        0
    } else {
        digits_value(s.drop_last()) * 10 + (s.last() - 48) as nat
    }
}

/// The number that `s` writes, if `s` is one or more digits, with or without
/// a plus sign in front, and the number is at most `max`.
pub open spec fn parsed_unsigned(s: Seq<u8>, max: nat) -> Option<nat> {
    let body = if s.len() > 0 && s[0] == 43 {
        s.skip(1)
    } else {
        s
    };
    if body.len() > 0 && all_digits(body) && digits_value(body) <= max {
        Some(digits_value(body))
    } else {
        None
    }
}

/// The number that `s` writes, if `s` is one or more digits, with or without
/// a sign in front, and the number fits `i32`.
pub open spec fn parsed_i32(s: Seq<u8>) -> Option<int> {
    if s.len() > 0 && s[0] == 45 {
        let body = s.skip(1);
        if body.len() > 0 && all_digits(body) && digits_value(body) <= 0x8000_0000 {
            Some(-(digits_value(body) as int))
        } else {
            None
        }
    } else {
        match parsed_unsigned(s, 0x7FFF_FFFF) {
            Some(n) => Some(n as int),
            None => None,
        }
    }
}

/// A longer row of digits writes no smaller number than its beginning.
pub proof fn lemma_digits_value_grows(s: Seq<u8>, k: int)
    requires
        0 <= k <= s.len(),
        all_digits(s),
    ensures
        digits_value(s.take(k)) <= digits_value(s),
    decreases s.len() - k,
{
    if k < s.len() {
        lemma_digits_value_grows(s, k + 1);
        assert(s.take(k + 1).drop_last() =~= s.take(k));
        assert(is_digit(s[k]));
        assert(s.take(k + 1).last() == s[k]);
    } else {
        assert(s.take(k) =~= s);
    }
}

/// Reads the digits that `bytes` holds from `from` up to `to`. Gives the
/// number they write, or nothing if there is no digit, a byte that is no
/// digit, or a number above `max`.
pub fn parse_digits(bytes: &[u8], from: usize, to: usize, max: u64) -> (value: Option<u64>)
    requires
        from <= to <= bytes@.len(),
    ensures
        ({
            let body = bytes@.subrange(from as int, to as int);
            match value {
                Some(n) => body.len() > 0 && all_digits(body) && digits_value(body) == n && n <= max,
                None => !(body.len() > 0 && all_digits(body) && digits_value(body) <= max),
            }
        }),
{
    let ghost body = bytes@.subrange(from as int, to as int);
    if from == to {
        return None;
    }
    let mut value: u128 = 0;
    let mut i: usize = from;
    while i < to
        invariant
            from <= i <= to <= bytes@.len(),
            body == bytes@.subrange(from as int, to as int),
            all_digits(body.take(i - from)),
            value as nat == digits_value(body.take(i - from)),
            value <= max,
        decreases to - i,
    {
        let b = bytes[i];
        let ghost longer = body.take(i - from + 1);
        proof {
            assert(longer.drop_last() =~= body.take(i - from));
            assert(longer.last() == b);
            assert(body[i - from] == b);
        }
        if b < 48 || b > 57 {
            assert(!is_digit(body[i - from]));
            return None;
        }
        let next: u128 = value * 10 + (b - 48) as u128;
        if next > max as u128 {
            proof {
                if all_digits(body) {
                    lemma_digits_value_grows(body, i - from + 1);
                }
            }
            return None;
        }
        proof {
            assert forall|j: int| 0 <= j < longer.len() implies is_digit(#[trigger] longer[j]) by {
                if j < longer.len() - 1 {
                    assert(body.take(i - from)[j] == longer[j]);
                }
            }
        }
        value = next;
        i += 1;
    }
    proof {
        assert(body.take(to - from) =~= body);
    }
    Some(value as u64)
}

/// Reads an unsigned number from the bytes between `from` and `to`: digits,
/// with or without a plus sign in front.
pub fn parse_unsigned_in(bytes: &[u8], from: usize, to: usize, max: u64) -> (value: Option<u64>)
    requires
        from <= to <= bytes@.len(),
    ensures
        match parsed_unsigned(bytes@.subrange(from as int, to as int), max as nat) {
            Some(n) => value == Some(n as u64),
            None => value is None,
        },
{
    let ghost text = bytes@.subrange(from as int, to as int);
    let start: usize = if from < to && bytes[from] == 43 {
        assert(text[0] == bytes@[from as int]);
        from + 1
    } else {
        proof {
            if from < to {
                assert(text[0] == bytes@[from as int]);
            }
        }
        from
    };
    proof {
        if start == from {
            assert(bytes@.subrange(start as int, to as int) =~= text);
        } else {
            assert(bytes@.subrange(start as int, to as int) =~= text.skip(1));
        }
    }
    parse_digits(bytes, start, to, max)
}

/// Reads a signed number from the bytes between `from` and `to`: digits, with
/// or without a sign in front.
pub fn parse_i32_in(bytes: &[u8], from: usize, to: usize) -> (value: Option<i32>)
    requires
        from <= to <= bytes@.len(),
    ensures
        match parsed_i32(bytes@.subrange(from as int, to as int)) {
            Some(n) => value == Some(n as i32),
            None => value is None,
        },
{
    let ghost text = bytes@.subrange(from as int, to as int);
    if from < to && bytes[from] == 45 {
        proof {
            assert(text[0] == bytes@[from as int]);
            assert(bytes@.subrange(from as int + 1, to as int) =~= text.skip(1));
        }
        match parse_digits(bytes, from + 1, to, 0x8000_0000) {
            Some(n) => Some((-(n as i64)) as i32),
            None => None,
        }
    } else {
        proof {
            if from < to {
                assert(text[0] == bytes@[from as int]);
            }
        }
        match parse_unsigned_in(bytes, from, to, 0x7FFF_FFFF) {
            Some(n) => Some(n as i32),
            None => None,
        }
    }
}

/// Reads an unsigned number as the standard library's `parse` does: digits,
/// with or without a plus sign in front.
pub fn parse_usize(text: &str) -> (value: Option<usize>)
    ensures
        match parsed_unsigned(text.spec_bytes(), usize::MAX as nat) {
            Some(n) => value == Some(n as usize),
            None => value is None,
        },
{
    let bytes = text.as_bytes();
    assert(bytes@.subrange(0, bytes@.len() as int) =~= bytes@);
    match parse_unsigned_in(bytes, 0, bytes.len(), usize::MAX as u64) {
        Some(n) => Some(n as usize),
        None => None,
    }
}

/// Reads a signed number as the standard library's `parse` does: digits,
/// with or without a sign in front.
pub fn parse_i32(text: &str) -> (value: Option<i32>)
    ensures
        match parsed_i32(text.spec_bytes()) {
            Some(n) => value == Some(n as i32),
            None => value is None,
        },
{
    let bytes = text.as_bytes();
    assert(bytes@.subrange(0, bytes@.len() as int) =~= bytes@);
    parse_i32_in(bytes, 0, bytes.len())
}

} // verus!
