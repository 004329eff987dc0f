//! Timestamps as text: seconds with a decimal point, as the detector and the
//! extractor write them, against whole microseconds.

use crate::decimal::{
    all_digits, append_padded, char_is_digit, decimal_value, digit_of, is_digit,
    lemma_padded_decimal, padded_decimal, pow10, read_digits,
};
use vstd::prelude::*;
use vstd::string::*;

verus! {

/// The first position at or after `from` that holds no digit; the length of
/// `s` where digits run to the end.
pub open spec fn digits_end(s: Seq<char>, from: int) -> int
    decreases s.len() - from,
{
    if 0 <= from < s.len() && is_digit(s[from]) {
        digits_end(s, from + 1)
    } else {
        from
    }
}

/// The digits after the decimal point, filled up with zeros on the right.
pub open spec fn filled_fraction(fraction: Seq<char>) -> Seq<char> {
    fraction + seq!['0', '0', '0', '0', '0', '0']
}

/// The microseconds written by the digits after the decimal point. Digits
/// beyond the sixth are below a microsecond and are left out.
pub open spec fn fraction_micros(fraction: Seq<char>) -> nat {
    decimal_value(filled_fraction(fraction).take(6))
}

/// The number of microseconds that the text `s` denotes. A text is read when
/// it consists of one or more digits, or of one or more digits, a point and
/// one or more digits; any other text denotes nothing.
pub open spec fn micros_written(s: Seq<char>) -> Option<nat> {
    let point = digits_end(s, 0);
    if point == 0 {
        None
    } else if point == s.len() {
        Some(decimal_value(s) * 1_000_000)
    } else if s[point] == '.' && point + 1 < s.len() && all_digits(s.skip(point + 1)) {
        Some(decimal_value(s.take(point)) * 1_000_000 + fraction_micros(s.skip(point + 1)))
    } else {
        None
    }
}

/// The timestamp that the text `s` denotes, where it denotes one that fits.
pub open spec fn timestamp_written(s: Seq<char>) -> Option<u64> {
    match micros_written(s) {
        Some(micros) => if micros <= u64::MAX {
            Some(micros as u64)
        } else {
            None
        },
        None => None,
    }
}

/// The length of a file that the text `s` denotes: a timestamp above zero.
/// A text that denotes zero denotes no length.
pub open spec fn duration_written(s: Seq<char>) -> Option<u64> {
    match timestamp_written(s) {
        Some(micros) => if micros > 0 {
            Some(micros)
        } else {
            None
        },
        None => None,
    }
}

/// The text of a timestamp: the whole seconds, a point, and six digits of
/// microseconds.
pub open spec fn seconds_text(micros: u64) -> Seq<char> {
    padded_decimal((micros / 1_000_000) as nat, 1).push('.') + padded_decimal(
        (micros % 1_000_000) as nat,
        6,
    )
}

/// Digits run from `from` up to `to`, and no further.
proof fn lemma_digits_end(s: Seq<char>, from: int, to: int)
    requires
        0 <= from <= to <= s.len(),
        forall|i: int| from <= i < to ==> is_digit(#[trigger] s[i]),
        to < s.len() ==> !is_digit(s[to]),
    ensures
        digits_end(s, from) == to,
    decreases to - from,
{
    if from < to {
        lemma_digits_end(s, from + 1, to);
    }
}

/// Reads a number of seconds, written with or without a decimal point, as a
/// timestamp in microseconds.
pub fn parse_seconds(text: &str) -> (micros: Option<u64>)
    ensures
        micros == timestamp_written(text@),
{
    let len = text.unicode_len();
    let mut point: usize = 0;
    while point < len && char_is_digit(text.get_char(point))
        invariant
            0 <= point <= len,
            len == text@.len(),
            forall|i: int| 0 <= i < point ==> is_digit(#[trigger] text@[i]),
        decreases len - point,
    {
        point += 1;
    }
    proof {
        lemma_digits_end(text@, 0, point as int);
        assert(text@.subrange(0, point as int) == text@.take(point as int));
        assert(all_digits(text@.take(point as int)));
    }
    if point == 0 {
        return None;
    }
    let whole = read_digits(text, 0, point);
    if point == len {
        proof {
            assert(text@.take(point as int) == text@);
        }
        return match whole {
            Some(seconds) => seconds.checked_mul(1_000_000),
            None => {
                proof {
                    assert(decimal_value(text@) * 1_000_000 >= decimal_value(text@));
                }
                None
            },
        };
    }
    if text.get_char(point) != '.' || point + 1 >= len {
        return None;
    }
    let ghost fraction = text@.skip(point + 1);
    let mut i: usize = point + 1;
    while i < len
        invariant
            point + 1 <= i <= len,
            len == text@.len(),
            0 < point,
            digits_end(text@, 0) == point,
            text@[point as int] == '.',
            fraction == text@.skip(point + 1),
            forall|j: int| 0 <= j < i - (point + 1) ==> is_digit(#[trigger] fraction[j]),
        decreases len - i,
    {
        if !char_is_digit(text.get_char(i)) {
            proof {
                assert(fraction[i - (point + 1)] == text@[i as int]);
                assert(!is_digit(fraction[i - (point + 1)]));
            }
            return None;
        }
        i += 1;
    }
    assert(all_digits(fraction));
    let ghost filled = filled_fraction(fraction);
    let mut part: u64 = 0;
    let mut k: usize = 0;
    while k < 6
        invariant
            0 <= k <= 6,
            point + 1 < len,
            len == text@.len(),
            fraction == text@.skip(point + 1),
            filled == filled_fraction(fraction),
            all_digits(fraction),
            part == decimal_value(filled.take(k as int)),
            part < pow10(k as nat),
        decreases 6 - k,
    {
        let c = if k < len - (point + 1) {
            text.get_char(point + 1 + k)
        } else {
            '0'
        };
        proof {
            reveal_with_fuel(pow10, 8);
            if k < len - (point + 1) {
                assert(filled[k as int] == fraction[k as int]);
                assert(fraction[k as int] == text@[point + 1 + k]);
            }
            assert(filled[k as int] == c);
            assert(is_digit(c));
            assert(filled.take(k + 1).drop_last() == filled.take(k as int));
            assert(filled.take(k + 1).last() == c);
        }
        part = part * 10 + digit_of(c);
        k += 1;
    }
    proof {
        reveal_with_fuel(pow10, 8);
        assert(part == fraction_micros(fraction));
        assert(part < 1_000_000);
    }
    match whole {
        Some(seconds) => match seconds.checked_mul(1_000_000) {
            Some(scaled) => scaled.checked_add(part),
            None => None,
        },
        None => {
            proof {
                let v = decimal_value(text@.take(point as int));
                assert(v * 1_000_000 >= v) by (nonlinear_arith);
            }
            None
        },
    }
}

/// Reads the length of a file in seconds, as the probe prints it. There is a
/// length only where the text is a timestamp above zero.
pub fn parse_duration(text: &str) -> (length: Option<u64>)
    ensures
        length == duration_written(text@),
        length matches Some(micros) ==> micros > 0,
{
    match parse_seconds(text) {
        Some(micros) => if micros > 0 {
            Some(micros)
        } else {
            None
        },
        None => None,
    }
}

/// Writes a timestamp as seconds with six digits after the point.
pub fn format_seconds(micros: u64) -> (text: String)
    ensures
        text@ == seconds_text(micros),
{
    let mut text = String::new();
    append_padded(&mut text, micros / 1_000_000, 1);
    text.append(".");
    proof {
        reveal_strlit(".");
        assert(text@ =~= padded_decimal((micros / 1_000_000) as nat, 1).push('.'));
    }
    append_padded(&mut text, micros % 1_000_000, 6);
    text
}

/// What `format_seconds` writes, `parse_seconds` reads back as the same
/// timestamp.
pub proof fn law_written_timestamp_reads_back(micros: u64)
    ensures
        timestamp_written(seconds_text(micros)) == Some(micros),
{
    let whole = padded_decimal((micros / 1_000_000) as nat, 1);
    let part = padded_decimal((micros % 1_000_000) as nat, 6);
    let text = seconds_text(micros);
    lemma_padded_decimal((micros / 1_000_000) as nat, 1);
    lemma_padded_decimal((micros % 1_000_000) as nat, 6);
    reveal_with_fuel(pow10, 8);
    assert(part.len() == 6);
    let point = whole.len() as int;
    assert(text.len() == point + 7);
    assert forall|i: int| 0 <= i < point implies is_digit(#[trigger] text[i]) by {
        assert(text[i] == whole[i]);
    }
    assert(text[point] == '.');
    lemma_digits_end(text, 0, point);
    assert(text.take(point) =~= whole);
    assert(text.skip(point + 1) =~= part);
    assert(filled_fraction(part).take(6) =~= part);
}

/// The text of a timestamp begins with a digit.
pub proof fn lemma_seconds_text_starts_with_a_digit(micros: u64)
    ensures
        seconds_text(micros).len() > 0,
        is_digit(seconds_text(micros)[0]),
{
    let whole = padded_decimal((micros / 1_000_000) as nat, 1);
    lemma_padded_decimal((micros / 1_000_000) as nat, 1);
    assert(seconds_text(micros)[0] == whole[0]);
}

} // verus!
