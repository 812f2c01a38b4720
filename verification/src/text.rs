//! Small text helpers: splitting at a separator and reading a decimal byte.

use vstd::prelude::*;
use vstd::string::StrSliceExecFns;

verus! {

/// The pieces of `text` between the occurrences of `separator`, in order. A
/// text without the separator is one piece; an empty text is one empty piece;
/// a separator at either end leaves an empty piece there.
pub open spec fn split_text(text: Seq<char>, separator: char) -> Seq<Seq<char>>
    decreases text.len(),
{
    if text.len() == 0 {
        seq![Seq::empty()]
    } else {
        let before = split_text(text.drop_last(), separator);
        if text.last() == separator {
            before.push(Seq::empty())
        } else {
            before.drop_last().push(before.last().push(text.last()))
        }
    }
}

/// The texts of a list of string slices.
pub open spec fn slices_text(slices: Seq<&str>) -> Seq<Seq<char>> {
    Seq::new(slices.len(), |i: int| slices[i]@)
}

/// Splits `text` at every `separator`.
pub fn split<'a>(text: &'a str, separator: char) -> (parts: Vec<&'a str>)
    ensures
        slices_text(parts@) == split_text(text@, separator),
        parts@.len() >= 1,
{
    let mut parts: Vec<&'a str> = Vec::new();
    let n = text.unicode_len();
    let mut start: usize = 0;
    let mut i: usize = 0;
    proof {
        assert(text@.take(0) =~= Seq::<char>::empty());
        assert(slices_text(parts@).push(text@.subrange(0, 0)) =~= seq![Seq::<char>::empty()]);
    }
    while i < n
        invariant
            n == text@.len(),
            start <= i <= n,
            split_text(text@.take(i as int), separator) == slices_text(parts@).push(
                text@.subrange(start as int, i as int),
            ),
        decreases n - i,
    {
        let c = text.get_char(i);
        proof {
            let upto = text@.take(i + 1);
            assert(upto.drop_last() =~= text@.take(i as int));
            assert(upto.last() == c);
        }
        let ghost done = slices_text(parts@);
        let ghost open = text@.subrange(start as int, i as int);
        if c == separator {
            parts.push(text.substring_char(start, i));
            start = i + 1;
            proof {
                assert(slices_text(parts@) =~= done.push(open));
                assert(text@.subrange(start as int, i + 1) =~= Seq::<char>::empty());
            }
        } else {
            proof {
                assert(done.push(open).drop_last() =~= done);
                assert(open.push(c) =~= text@.subrange(start as int, i + 1));
            }
        }
        i += 1;
    }
    let ghost done = slices_text(parts@);
    parts.push(text.substring_char(start, n));
    proof {
        assert(text@.take(n as int) =~= text@);
        assert(slices_text(parts@) =~= done.push(text@.subrange(start as int, n as int)));
    }
    parts
}

/// The value of a decimal digit.
pub open spec fn digit_value(c: char) -> Option<int> {
    if '0' <= c <= '9' {
        Some(c as int - '0' as int)
    } else {
        None
    }
}

/// Whether `digits` holds decimal digits only.
pub open spec fn all_digits(digits: Seq<char>) -> bool {
    forall|i: int| 0 <= i < digits.len() ==> digit_value(#[trigger] digits[i]) is Some
}

/// The number a sequence of decimal digits stands for.
pub open spec fn decimal_value(digits: Seq<char>) -> int
    decreases digits.len(),
{
    if digits.len() == 0 {
        0
    } else {
        match digit_value(digits.last()) {
            Some(d) => 10 * decimal_value(digits.drop_last()) + d,
            None => 10 * decimal_value(digits.drop_last()),
        }
    }
}

/// The byte a text stands for: an optional `+`, then at least one decimal
/// digit and nothing else, with a value of at most 255. Leading zeros are
/// fine. Any other text stands for no byte.
pub open spec fn byte_of_text(text: Seq<char>) -> Option<u8> {
    let digits = if text.len() > 0 && text[0] == '+' {
        text.skip(1)
    } else {
        text
    };
    if digits.len() > 0 && all_digits(digits) && decimal_value(digits) <= 255 {
        Some(decimal_value(digits) as u8)
    } else {
        None
    }
}

/// A longer number is not smaller.
proof fn lemma_decimal_value_grows(digits: Seq<char>, k: int)
    requires
        0 <= k <= digits.len(),
    ensures
        0 <= decimal_value(digits.take(k)) <= decimal_value(digits),
    decreases digits.len() - k,
{
    lemma_decimal_value_nonnegative(digits.take(k));
    if k < digits.len() {
        let longer = digits.take(k + 1);
        assert(longer.drop_last() =~= digits.take(k));
        lemma_decimal_value_grows(digits, k + 1);
    } else {
        assert(digits.take(k) =~= digits);
    }
}

proof fn lemma_decimal_value_nonnegative(digits: Seq<char>)
    ensures
        0 <= decimal_value(digits),
    decreases digits.len(),
{
    if digits.len() > 0 {
        lemma_decimal_value_nonnegative(digits.drop_last());
    }
}

/// Reads a byte written in decimal.
pub fn parse_u8(text: &str) -> (byte: Option<u8>)
    ensures
        byte == byte_of_text(text@),
{
    let n = text.unicode_len();
    if n == 0 {
        return None;
    }
    let first: usize = if text.get_char(0) == '+' {
        1
    } else {
        0
    };
    if first == n {
        return None;
    }
    let ghost digits = text@.skip(first as int);
    let mut value: u32 = 0;
    let mut i: usize = first;
    proof {
        assert(digits.take(0) =~= Seq::<char>::empty());
        assert(text@.skip(0) =~= text@);
    }
    while i < n
        invariant
            n == text@.len(),
            first <= i <= n,
            first < n,
            digits == text@.skip(first as int),
            digits == if text@.len() > 0 && text@[0] == '+' {
                text@.skip(1)
            } else {
                text@
            },
            all_digits(digits.take(i - first)),
            value == decimal_value(digits.take(i - first)),
            value <= 255,
        decreases n - i,
    {
        let c = text.get_char(i);
        let ghost seen = digits.take(i - first);
        let ghost more = digits.take(i - first + 1);
        proof {
            assert(more.drop_last() =~= seen);
            assert(more.last() == c);
            assert(digits[i - first] == c);
        }
        if c < '0' || c > '9' {
            assert(!all_digits(digits));
            return None;
        }
        let d: u32 = c as u32 - '0' as u32;
        value = value * 10 + d;
        if value > 255 {
            proof {
                lemma_decimal_value_grows(digits, i - first + 1);
            }
            return None;
        }
        proof {
            assert forall|j: int| 0 <= j < more.len() implies digit_value(#[trigger] more[j])
                is Some by {
                if j < seen.len() {
                    assert(more[j] == seen[j]);
                }
            }
        }
        i += 1;
    }
    proof {
        assert(digits.take(n - first) =~= digits);
    }
    Some(value as u8)
}

} // verus!
