use vstd::prelude::*;
use chrono::{Datelike, Timelike};
use vstd::string::StringSliceAdditionalSpecFns;

verus! {

/// A UTC date and time, as its calendar fields.
#[derive(Clone, Copy, Debug, PartialEq, Eq, Structural)]
pub struct Timestamp {
    pub year: i32,
    pub month: u32,
    pub day: u32,
    pub hour: u32,
    pub minute: u32,
    pub second: u32,
    pub nanosecond: u32,
}

/// Why a timestamp text was refused.
#[derive(Clone, Copy, Debug, PartialEq, Eq, Structural)]
pub enum TimestampError {
    /// The text is not of the shape `YYYY-MM-DDTHH:MM:SS.ffffffZ`.
    Shape,
    /// The text has that shape but names no valid date and time.
    Calendar,
}

/// The strftime pattern of the timestamp format.
pub open spec fn ts_format() -> Seq<char> {
    "%Y-%m-%dT%H:%M:%S%.6fZ"@
}

/// The date and time that chrono reads from a text with the timestamp format.
pub uninterp spec fn chrono_parsed(s: Seq<char>) -> Option<Timestamp>;

/// The text that chrono writes for the fields with the timestamp format, or `None`
/// where the fields name no valid date and time.
pub uninterp spec fn chrono_formatted(t: Timestamp) -> Option<Seq<char>>;

/// Relies on chrono::NaiveDateTime::parse_from_str, then its calendar getters.
#[verifier::external_body]
fn parse_naive(s: &str, fmt: &str) -> (r: Option<Timestamp>)
    requires
        fmt@ == ts_format(),
    ensures
        r == chrono_parsed(s@),
{
    chrono::NaiveDateTime::parse_from_str(s, fmt).ok().map(|d| Timestamp {
        year: d.year(),
        month: d.month(),
        day: d.day(),
        hour: d.hour(),
        minute: d.minute(),
        second: d.second(),
        nanosecond: d.nanosecond(),
    })
}

/// Relies on chrono::NaiveDate::from_ymd_opt and and_hms_nano_opt, which refuse
/// fields of no valid date and time, then on NaiveDateTime::format.
#[verifier::external_body]
fn format_naive(t: &Timestamp, fmt: &str) -> (r: Option<String>)
    requires
        fmt@ == ts_format(),
    ensures
        match r {
            Some(x) => chrono_formatted(*t) == Some(x@),
            None => chrono_formatted(*t) is None,
        },
{
    chrono::NaiveDate::from_ymd_opt(t.year, t.month, t.day)
        .and_then(|d| d.and_hms_nano_opt(t.hour, t.minute, t.second, t.nanosecond))
        .map(|d| d.format(fmt).to_string())
}

/// The byte at position `i` fits the pattern `YYYY-MM-DDTHH:MM:SS.ffffffZ`.
pub open spec fn shape_byte(i: int, b: u8) -> bool {
    if i == 4 || i == 7 {
        b == 45u8
    } else if i == 10 {
        b == 84u8
    } else if i == 13 || i == 16 {
        b == 58u8
    } else if i == 19 {
        b == 46u8
    } else if i == 26 {
        b == 90u8
    } else {
        48u8 <= b <= 57u8
    }
}

/// The bytes spell a timestamp with exactly six fractional digits and a final `Z`.
pub open spec fn ts_shape(b: Seq<u8>) -> bool {
    b.len() == 27 && forall|i: int| 0 <= i < 27 ==> #[trigger] shape_byte(i, b[i])
}

fn shape_byte_ok(i: usize, b: u8) -> (r: bool)
    ensures
        r == shape_byte(i as int, b),
{
    if i == 4 || i == 7 {
        b == 45u8
    } else if i == 10 {
        b == 84u8
    } else if i == 13 || i == 16 {
        b == 58u8
    } else if i == 19 {
        b == 46u8
    } else if i == 26 {
        b == 90u8
    } else {
        48u8 <= b && b <= 57u8
    }
}

/// Checks the shape of a timestamp text.
pub fn has_ts_shape(s: &str) -> (r: bool)
    ensures
        r == ts_shape(s.spec_bytes()),
{
    let b = s.as_bytes();
    if b.len() != 27 {
        return false;
    }
    let mut i: usize = 0;
    while i < 27
        invariant
            b@ == s.spec_bytes(),
            b@.len() == 27,
            i <= 27,
            forall|m: int| 0 <= m < i ==> #[trigger] shape_byte(m, b@[m]),
        decreases 27 - i,
    {
        if !shape_byte_ok(i, b[i]) {
            return false;
        }
        i = i + 1;
    }
    true
}

/// Reads a timestamp: the text must have the exact shape, and chrono must accept it.
pub fn deserialize(s: &str) -> (r: Result<Timestamp, TimestampError>)
    ensures
        match r {
            Ok(t) => ts_shape(s.spec_bytes()) && chrono_parsed(s@) == Some(t),
            Err(TimestampError::Shape) => !ts_shape(s.spec_bytes()),
            Err(TimestampError::Calendar) => ts_shape(s.spec_bytes()) && chrono_parsed(s@) is None,
        },
{
    if !has_ts_shape(s) {
        return Err(TimestampError::Shape);
    }
    let fmt: &str = "%Y-%m-%dT%H:%M:%S%.6fZ";
    proof {
        reveal_strlit("%Y-%m-%dT%H:%M:%S%.6fZ");
    }
    match parse_naive(s, fmt) {
        Some(t) => Ok(t),
        None => Err(TimestampError::Calendar),
    }
}

/// Writes a timestamp in the format `YYYY-MM-DDTHH:MM:SS.ffffffZ`, or `None` where
/// its fields name no valid date and time.
pub fn serialize(date: &Timestamp) -> (r: Option<String>)
    ensures
        match r {
            Some(x) => chrono_formatted(*date) == Some(x@),
            None => chrono_formatted(*date) is None,
        },
{
    let fmt: &str = "%Y-%m-%dT%H:%M:%S%.6fZ";
    proof {
        reveal_strlit("%Y-%m-%dT%H:%M:%S%.6fZ");
    }
    format_naive(date, fmt)
}

} // verus!
