//! What the caller chooses for an analysis, and how the choice is handed to
//! the detector.

use crate::timestamp::{
    format_seconds, law_written_timestamp_reads_back, parse_seconds, seconds_text,
    timestamp_written,
};
use vstd::prelude::*;
use vstd::string::*;

verus! {

/// The parameters of one analysis.
#[derive(Clone, Copy, Debug, PartialEq, Eq, Structural)]
pub struct Parameters {
    /// The shortest silence at which the file is cut, in microseconds.
    pub min_silence: u64,
    /// The level below which sound counts as silence, in millionths of a
    /// decibel.
    pub noise_floor: i64,
}

impl Parameters {
    /// The minimum length is positive. Any noise floor will do.
    pub open spec fn acceptable(self) -> bool {
        self.min_silence > 0
    }

    /// Tells whether the parameters can be used.
    pub fn is_acceptable(&self) -> (ok: bool)
        ensures
            ok == self.acceptable(),
    {
        self.min_silence > 0
    }
}

/// The distance of a level from zero.
pub open spec fn magnitude(level: i64) -> u64 {
    if level < 0 {
        (-level) as u64
    } else {
        level as u64
    }
}

/// The level with the given sign and distance from zero, where there is one.
pub open spec fn signed_level(negative: bool, distance: u64) -> Option<i64> {
    if negative {
        if distance <= 0x8000_0000_0000_0000 {
            Some((-distance) as i64)
        } else {
            None
        }
    } else {
        if distance <= i64::MAX {
            Some(distance as i64)
        } else {
            None
        }
    }
}

/// The level that the text `s` denotes: an optional minus sign, and then a
/// number as in a timestamp.
pub open spec fn level_written(s: Seq<char>) -> Option<i64> {
    if s.len() > 0 && s[0] == '-' {
        match timestamp_written(s.skip(1)) {
            Some(distance) => signed_level(true, distance),
            None => None,
        }
    } else {
        match timestamp_written(s) {
            Some(distance) => signed_level(false, distance),
            None => None,
        }
    }
}

/// The text of a level: a minus sign where it is negative, and its distance
/// from zero as in a timestamp.
pub open spec fn level_text(level: i64) -> Seq<char> {
    if level < 0 {
        "-"@ + seconds_text(magnitude(level))
    } else {
        seconds_text(magnitude(level))
    }
}

/// The filter that tells the detector what to look for.
pub open spec fn filter_text(parameters: Parameters) -> Seq<char> {
    "silencedetect=n="@ + level_text(parameters.noise_floor) + "dB:d="@ + seconds_text(
        parameters.min_silence,
    )
}

/// Reads a level in decibels, written with or without a decimal point and
/// with or without a minus sign in front.
pub fn parse_decibels(text: &str) -> (level: Option<i64>)
    ensures
        level == level_written(text@),
{
    let len = text.unicode_len();
    if len > 0 && text.get_char(0) == '-' {
        let rest = text.substring_char(1, len);
        proof {
            assert(text@.subrange(1, len as int) == text@.skip(1));
        }
        match parse_seconds(rest) {
            Some(distance) => if distance < 0x8000_0000_0000_0000 {
                Some(0 - (distance as i64))
            } else if distance == 0x8000_0000_0000_0000 {
                Some(i64::MIN)
            } else {
                None
            },
            None => None,
        }
    } else {
        match parse_seconds(text) {
            Some(distance) => if distance <= i64::MAX as u64 {
                Some(distance as i64)
            } else {
                None
            },
            None => None,
        }
    }
}

/// Writes a level in decibels with six digits after the point.
pub fn format_decibels(level: i64) -> (text: String)
    ensures
        text@ == level_text(level),
{
    if level < 0 {
        let distance: u64 = if level == i64::MIN {
            0x8000_0000_0000_0000
        } else {
            (0 - level) as u64
        };
        let mut text = String::new();
        text.append("-");
        let digits = format_seconds(distance);
        text.append(digits.as_str());
        proof {
            assert(text@ =~= level_text(level));
        }
        text
    } else {
        format_seconds(level as u64)
    }
}

/// Builds the filter argument for the detector from the parameters.
pub fn detector_filter(parameters: &Parameters) -> (filter: String)
    ensures
        filter@ == filter_text(*parameters),
{
    let mut filter = String::new();
    filter.append("silencedetect=n=");
    let level = format_decibels(parameters.noise_floor);
    filter.append(level.as_str());
    filter.append("dB:d=");
    let length = format_seconds(parameters.min_silence);
    filter.append(length.as_str());
    proof {
        assert(filter@ =~= filter_text(*parameters));
    }
    filter
}

/// What `format_decibels` writes, `parse_decibels` reads back as the same
/// level.
pub proof fn law_written_level_reads_back(level: i64)
    ensures
        level_written(level_text(level)) == Some(level),
{
    let digits = seconds_text(magnitude(level));
    law_written_timestamp_reads_back(magnitude(level));
    crate::timestamp::lemma_seconds_text_starts_with_a_digit(magnitude(level));
    if level < 0 {
        reveal_strlit("-");
        let text = level_text(level);
        assert(text[0] == '-');
        assert(text.skip(1) =~= digits);
    } else {
        assert(digits[0] != '-');
    }
}

} // verus!
