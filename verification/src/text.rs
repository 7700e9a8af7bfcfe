//! Text helpers: comparison, replacement, and integers in decimal.

use vstd::prelude::*;
use vstd::string::*;
use vstd::utf8::*;

verus! {

/// Two texts with the same bytes hold the same characters.
pub proof fn lemma_same_bytes_same_text(a: Seq<char>, b: Seq<char>)
    requires
        encode_utf8(a) == encode_utf8(b),
    ensures
        a == b,
{
    encode_utf8_decode_utf8(a);
    encode_utf8_decode_utf8(b);
}

/// The bytes of two texts in a row are the bytes of the first, then those of
/// the second.
pub proof fn lemma_encode_concat(a: Seq<char>, b: Seq<char>)
    ensures
        encode_utf8(a + b) == encode_utf8(a) + encode_utf8(b),
    decreases a.len(),
{
    if a.len() == 0 {
        assert(a + b =~= b);
        assert(encode_utf8(a) + encode_utf8(b) =~= encode_utf8(b));
    } else {
        lemma_encode_concat(a.drop_first(), b);
        assert((a + b).drop_first() =~= a.drop_first() + b);
        assert((a + b)[0] == a[0]);
        assert(encode_utf8(a + b) =~= encode_utf8(a) + encode_utf8(b));
    }
}

/// Whether two texts are equal.
pub fn same_text(a: &str, b: &str) -> (same: bool)
    ensures
        same == (a@ == b@),
{
    let x = a.as_bytes();
    let y = b.as_bytes();
    if x.len() != y.len() {
        return false;
    }
    let mut i: usize = 0;
    while i < x.len()
        invariant
            i <= x.len(),
            x.len() == y.len(),
            x@ == a.spec_bytes(),
            y@ == b.spec_bytes(),
            forall|j: int| 0 <= j < i ==> x@[j] == y@[j],
        decreases x.len() - i,
    {
        if x[i] != y[i] {
            return false;
        }
        i += 1;
    }
    proof {
        assert(x@ =~= y@);
        lemma_same_bytes_same_text(a@, b@);
    }
    true
}

/// The text with every occurrence of `from` replaced by `to`, the leftmost
/// first and none overlapping another.
pub open spec fn replaced(text: Seq<char>, from: Seq<char>, to: Seq<char>) -> Seq<char>
    decreases text.len(),
{
    if from.len() == 0 || text.len() < from.len() {
        text
    } else if text.take(from.len() as int) == from {
        to + replaced(text.skip(from.len() as int), from, to)
    } else {
        seq![text[0]] + replaced(text.drop_first(), from, to)
    }
}

/// `str::replace`.
///
/// Trusted: every match of `from` in `text`, found from the left and not
/// overlapping an earlier one, is replaced by `to`, and the rest is copied.
/// An empty `from` is left out.
#[verifier::external_body]
pub(crate) fn replace_all(text: &str, from: &str, to: &str) -> (result: String)
    requires
        from@.len() > 0,
    ensures
        result@ == replaced(text@, from@, to@),
{
    text.replace(from, to)
}

/// The character of a decimal digit.
pub open spec fn digit_char(digit: int) -> char {
    if digit == 0 {
        '0'
    } else if digit == 1 {
        '1'
    } else if digit == 2 {
        '2'
    } else if digit == 3 {
        '3'
    } else if digit == 4 {
        '4'
    } else if digit == 5 {
        '5'
    } else if digit == 6 {
        '6'
    } else if digit == 7 {
        '7'
    } else if digit == 8 {
        '8'
    } else {
        '9'
    }
}

/// A natural number in decimal, without leading zeros.
pub open spec fn natural_text(n: nat) -> Seq<char>
    decreases n,
{
    if n < 10 {
        seq![digit_char(n as int)]
    } else {
        natural_text(n / 10).push(digit_char((n % 10) as int))
    }
}

/// An integer in decimal: a minus sign for negative numbers, then the digits.
pub open spec fn decimal_text(n: int) -> Seq<char> {
    if n < 0 {
        seq!['-'] + natural_text((-n) as nat)
    } else {
        natural_text(n as nat)
    }
}

fn digit_str(digit: u64) -> (text: &'static str)
    requires
        digit < 10,
    ensures
        text@ == seq![digit_char(digit as int)],
{
    proof {
        reveal_strlit("0");
        reveal_strlit("1");
        reveal_strlit("2");
        reveal_strlit("3");
        reveal_strlit("4");
        reveal_strlit("5");
        reveal_strlit("6");
        reveal_strlit("7");
        reveal_strlit("8");
        reveal_strlit("9");
    }
    let text = if digit == 0 {
        "0"
    } else if digit == 1 {
        "1"
    } else if digit == 2 {
        "2"
    } else if digit == 3 {
        "3"
    } else if digit == 4 {
        "4"
    } else if digit == 5 {
        "5"
    } else if digit == 6 {
        "6"
    } else if digit == 7 {
        "7"
    } else if digit == 8 {
        "8"
    } else {
        "9"
    };
    assert(text@ =~= seq![digit_char(digit as int)]);
    text
}

fn push_natural(out: &mut String, n: u64)
    ensures
        final(out)@ == old(out)@ + natural_text(n as nat),
    decreases n,
{
    if n >= 10 {
        push_natural(out, n / 10);
    }
    out.append(digit_str(n % 10));
    assert(out@ =~= old(out)@ + natural_text(n as nat));
}

/// Writes an integer in decimal.
pub fn decimal(n: i64) -> (text: String)
    ensures
        text@ == decimal_text(n as int),
{
    let mut out = String::new();
    if n < 0 {
        proof {
            reveal_strlit("-");
        }
        out.append("-");
        let magnitude: u64 = if n == i64::MIN {
            0x8000_0000_0000_0000u64
        } else {
            (-n) as u64
        };
        push_natural(&mut out, magnitude);
        assert(out@ =~= decimal_text(n as int));
    } else {
        push_natural(&mut out, n as u64);
        assert(out@ =~= decimal_text(n as int));
    }
    out
}

/// The number that a run of decimal digits stands for.
pub open spec fn digits_value(digits: Seq<u8>) -> nat
    decreases digits.len(),
{
    if digits.len() == 0 {
        0
    } else {
        (digits_value(digits.drop_last()) * 10 + (digits.last() - 48)) as nat
    }
}

/// Whether every byte is a decimal digit.
pub open spec fn all_digits(digits: Seq<u8>) -> bool {
    forall|i: int| 0 <= i < digits.len() ==> 48 <= #[trigger] digits[i] <= 57
}

/// Reads a decimal integer from the bytes of a text: an optional sign (`+`,
/// or `-` where `signed`), then one digit or more, and a value within
/// `low..=high`. Anything else is no number.
pub open spec fn parsed_integer(bytes: Seq<u8>, signed: bool, low: int, high: int) -> Option<int> {
    let negative = signed && bytes.len() > 0 && bytes[0] == 45;
    let plus = bytes.len() > 0 && bytes[0] == 43;
    let digits = if negative || plus {
        bytes.skip(1)
    } else {
        bytes
    };
    let value = if negative {
        -(digits_value(digits) as int)
    } else {
        digits_value(digits) as int
    };
    if digits.len() > 0 && all_digits(digits) && low <= value <= high {
        Some(value)
    } else {
        None
    }
}

/// Appending digits never makes the value smaller.
proof fn lemma_digits_value_grows(digits: Seq<u8>, k: int)
    requires
        0 <= k <= digits.len(),
        all_digits(digits),
    ensures
        digits_value(digits.take(k)) <= digits_value(digits),
    decreases digits.len() - k,
{
    if k < digits.len() {
        lemma_digits_value_grows(digits, k + 1);
        assert(digits.take(k + 1).drop_last() =~= digits.take(k));
        assert(digits.take(k + 1).last() == digits[k]);
    } else {
        assert(digits.take(k) =~= digits);
    }
}

/// Reads a decimal integer within `low..=high` from a text.
pub fn parse_integer(text: &str, signed: bool, low: i64, high: i64) -> (number: Option<i64>)
    ensures
        parsed_integer(text.spec_bytes(), signed, low as int, high as int) == match number {
            Some(n) => Some(n as int),
            None => None,
        },
{
    let bytes = text.as_bytes();
    let len = bytes.len();
    if len == 0 {
        return None;
    }
    let negative = signed && bytes[0] == 45;
    let start: usize = if negative || bytes[0] == 43 {
        1
    } else {
        0
    };
    if start == len {
        return None;
    }
    // A text with a minus sign stands for nothing above zero, and a text
    // without one for nothing below.
    if (negative && low > 0) || (!negative && high < 0) {
        return None;
    }
    let ghost digits = bytes@.skip(start as int);
    assert(bytes@.skip(0) =~= bytes@);
    // The largest magnitude that is still in range.
    let limit: u64 = if negative {
        if low == i64::MIN {
            0x8000_0000_0000_0000u64
        } else {
            (-low) as u64
        }
    } else {
        high as u64
    };
    let mut value: u64 = 0;
    let mut i: usize = start;
    while i < len
        invariant
            start <= i <= len,
            len == bytes@.len(),
            bytes@ == text.spec_bytes(),
            digits == bytes@.skip(start as int),
            all_digits(digits.take(i - start)),
            value == digits_value(digits.take(i - start)),
            value <= limit,
            limit as int == (if negative {
                -low
            } else {
                high as int
            }),
            parsed_integer(text.spec_bytes(), signed, low as int, high as int) == (if digits.len()
                > 0 && all_digits(digits) && (if negative {
                low <= -digits_value(digits) <= high
            } else {
                low <= digits_value(digits) <= high
            }) {
                Some(
                    if negative {
                        -(digits_value(digits) as int)
                    } else {
                        digits_value(digits) as int
                    },
                )
            } else {
                None
            }),
        decreases len - i,
    {
        let byte = bytes[i];
        assert(digits[i - start] == byte);
        if byte < 48 || byte > 57 {
            return None;
        }
        let digit = (byte - 48) as u64;
        proof {
            let next = digits.take(i + 1 - start);
            assert(next.drop_last() =~= digits.take(i - start));
            assert(next.last() == byte);
            assert forall|j: int| 0 <= j < next.len() implies 48 <= #[trigger] next[j] <= 57 by {
                if j < i - start {
                    assert(digits.take(i - start)[j] == digits[j]);
                }
            }
            if all_digits(digits) {
                lemma_digits_value_grows(digits, i + 1 - start);
            }
        }
        if value > limit / 10 {
            return None;
        }
        let scaled = value * 10;
        if digit > limit - scaled {
            return None;
        }
        value = scaled + digit;
        i += 1;
    }
    assert(digits.take(len - start) =~= digits);
    if negative {
        let number = if value == 0x8000_0000_0000_0000u64 {
            i64::MIN
        } else {
            -(value as i64)
        };
        if number > high {
            None
        } else {
            Some(number)
        }
    } else {
        let number = value as i64;
        if number < low {
            None
        } else {
            Some(number)
        }
    }
}

/// The bytes of a natural number in decimal are its digits, and they stand
/// for the number.
pub proof fn lemma_natural_text(n: nat)
    ensures
        is_ascii_chars(natural_text(n)),
        encode_utf8(natural_text(n)).len() == natural_text(n).len(),
        natural_text(n).len() > 0,
        all_digits(encode_utf8(natural_text(n))),
        digits_value(encode_utf8(natural_text(n))) == n,
    decreases n,
{
    let text = natural_text(n);
    if n < 10 {
        assert(text.len() == 1);
        assert(is_ascii_chars(text));
        is_ascii_chars_encode_utf8(text);
        let bytes = encode_utf8(text);
        assert(bytes[0] == text[0] as u8);
        assert(bytes[0] == 48 + n);
        assert(digits_value(bytes.drop_last()) == 0);
    } else {
        let head = natural_text(n / 10);
        lemma_natural_text(n / 10);
        let last = digit_char((n % 10) as int);
        assert(text == head.push(last));
        assert forall|i: int| 0 <= i < text.len() implies '\0' <= #[trigger] text[i]
            <= '\u{7f}' by {
            if i < head.len() {
                assert(text[i] == head[i]);
            }
        }
        is_ascii_chars_encode_utf8(text);
        is_ascii_chars_encode_utf8(head);
        let bytes = encode_utf8(text);
        let head_bytes = encode_utf8(head);
        assert(bytes.drop_last() =~= head_bytes) by {
            assert forall|i: int| 0 <= i < head_bytes.len() implies bytes.drop_last()[i]
                == head_bytes[i] by {
                assert(bytes[i] == text[i] as u8);
                assert(head_bytes[i] == head[i] as u8);
                assert(text[i] == head[i]);
            }
        }
        assert(bytes.last() == text[text.len() - 1] as u8);
        assert(bytes.last() == 48 + n % 10);
        assert forall|i: int| 0 <= i < bytes.len() implies 48 <= #[trigger] bytes[i] <= 57 by {
            if i < head_bytes.len() {
                assert(bytes[i] == bytes.drop_last()[i]);
            }
        }
        assert(digits_value(bytes) == (n / 10) * 10 + n % 10);
    }
}

/// A number written in decimal reads back as the number, whatever range it
/// lies in.
pub proof fn lemma_decimal_reads_back(n: int, low: int, high: int)
    requires
        low <= n <= high,
    ensures
        parsed_integer(encode_utf8(decimal_text(n)), true, low, high) == Some(n),
{
    if n < 0 {
        let digits = natural_text((-n) as nat);
        lemma_natural_text((-n) as nat);
        let sign = seq!['-'];
        lemma_encode_concat(sign, digits);
        assert(is_ascii_chars(sign));
        is_ascii_chars_encode_utf8(sign);
        let bytes = encode_utf8(decimal_text(n));
        assert(encode_utf8(sign) =~= seq![45u8]);
        assert(bytes[0] == 45);
        assert(bytes.skip(1) =~= encode_utf8(digits));
    } else {
        lemma_natural_text(n as nat);
        let bytes = encode_utf8(decimal_text(n));
        assert(48 <= bytes[0] <= 57);
        assert(bytes.skip(0) =~= bytes);
    }
}

} // verus!
