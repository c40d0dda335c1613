//! Time stamps: read from a string or a number, written in a format of the
//! caller's choice, in UTC or in a named time zone.

use vstd::prelude::*;
use chrono::{DateTime, NaiveDateTime};
use chrono_tz::Tz;
use serde_json::Value;
use crate::json::{json_as_seconds, json_as_str, json_seconds, json_string, json_text};
use crate::number::{decimal, decimal_of};
use crate::text::string_of;

verus! {

/// The instant that `chrono` reads from `s` under `pattern`, as the seconds
/// since the epoch and the nanoseconds of that second, the text taken as UTC;
/// `None` where `s` does not follow `pattern`.
pub uninterp spec fn instant_of(s: Seq<char>, pattern: Seq<char>) -> Option<(i64, u32)>;

/// The text that `chrono` writes for an instant in UTC under `format`; `None`
/// where `chrono` cannot hold the instant or refuses the format.
pub uninterp spec fn utc_text(secs: i64, nanos: u32, format: Seq<char>) -> Option<Seq<char>>;

/// Whether `chrono_tz` knows a time zone of this name.
pub uninterp spec fn zone_known(zone: Seq<char>) -> bool;

/// The text that `chrono` writes for an instant in the time zone `zone` under
/// `format`; `None` where the zone is unknown, `chrono` cannot hold the
/// instant, or it refuses the format.
pub uninterp spec fn zone_text(secs: i64, nanos: u32, zone: Seq<char>, format: Seq<char>) -> Option<
    Seq<char>,
>;

/// `NaiveDateTime::parse_from_str`, and the instant read as seconds and
/// nanoseconds.
#[verifier::external_body]
pub(crate) fn parse_instant(s: &str, pattern: &str) -> (r: Option<(i64, u32)>)
    ensures
        r == instant_of(s@, pattern@),
{
    match NaiveDateTime::parse_from_str(s, pattern) {
        Ok(t) => Some((t.and_utc().timestamp(), t.and_utc().timestamp_subsec_nanos())),
        Err(_) => None,
    }
}

/// `DateTime::format` on the instant as `DateTime::from_timestamp` makes it,
/// written with `DelayedFormat::write_to`, which reports a format that
/// `chrono` refuses as an error.
#[verifier::external_body]
pub(crate) fn render_utc(secs: i64, nanos: u32, format: &str) -> (r: Option<String>)
    ensures
        match r {
            Some(t) => utc_text(secs, nanos, format@) == Some(t@),
            None => utc_text(secs, nanos, format@) is None,
        },
{
    let t = DateTime::from_timestamp(secs, nanos)?;
    let mut out = String::new();
    match t.format(format).write_to(&mut out) {
        Ok(()) => Some(out),
        Err(_) => None,
    }
}

/// `Tz::from_str`: whether the name is one of the time zone database.
#[verifier::external_body]
pub(crate) fn known_zone(zone: &str) -> (r: bool)
    ensures
        r == zone_known(zone@),
{
    zone.parse::<Tz>().is_ok()
}

/// `DateTime::with_timezone` and `DateTime::format` on the instant as
/// `DateTime::from_timestamp` makes it, in the zone that `Tz::from_str` finds.
#[verifier::external_body]
pub(crate) fn render_in_zone(secs: i64, nanos: u32, zone: &str, format: &str) -> (r: Option<String>)
    ensures
        match r {
            Some(t) => zone_text(secs, nanos, zone@, format@) == Some(t@),
            None => zone_text(secs, nanos, zone@, format@) is None,
        },
{
    let tz = zone.parse::<Tz>().ok()?;
    let t = DateTime::from_timestamp(secs, nanos)?.with_timezone(&tz);
    let mut out = String::new();
    match t.format(format).write_to(&mut out) {
        Ok(()) => Some(out),
        Err(_) => None,
    }
}

/// The pattern of a time stamp in a string: date, `T`, time, a fraction of a
/// second, and a literal `Z`.
pub open spec fn stamp_pattern() -> Seq<char> {
    "%Y-%m-%dT%H:%M:%S.%fZ"@
}

/// The characters of an optional string.
pub open spec fn opt_text(s: Option<&str>) -> Option<Seq<char>> {
    match s {
        Some(t) => Some(t@),
        None => None,
    }
}

/// An instant written under `format`: in the zone `zone` where one is given
/// and known, in UTC otherwise.
pub open spec fn instant_text(
    secs: i64,
    nanos: u32,
    format: Seq<char>,
    zone: Option<Seq<char>>,
) -> Option<Seq<char>> {
    match zone {
        Some(z) => if zone_known(z) {
            zone_text(secs, nanos, z, format)
        } else {
            utc_text(secs, nanos, format)
        },
        None => utc_text(secs, nanos, format),
    }
}

/// A time stamp in a string, written under `format`; the string itself where
/// it is no time stamp or cannot be written.
pub open spec fn string_stamp(s: Seq<char>, format: Seq<char>, zone: Option<Seq<char>>) -> Seq<
    char,
> {
    match instant_of(s, stamp_pattern()) {
        Some(at) => match instant_text(at.0, at.1, format, zone) {
            Some(t) => t,
            None => s,
        },
        None => s,
    }
}

/// A number of seconds since the epoch, written under `format`; the number
/// in decimal where it cannot be written.
pub open spec fn unix_stamp(secs: i64, format: Seq<char>, zone: Option<Seq<char>>) -> Seq<char> {
    match instant_text(secs, 0, format, zone) {
        Some(t) => t,
        None => decimal_of(secs as int),
    }
}

/// The time stamp that a JSON value holds, written under `format`. A string
/// is read as a time stamp; a number is cut to whole seconds since the epoch.
/// A number whose seconds `i64` cannot hold, and a value of any other kind,
/// give the empty text.
pub open spec fn value_stamp(
    string: Option<Seq<char>>,
    seconds: Option<i64>,
    format: Seq<char>,
    zone: Option<Seq<char>>,
) -> Seq<char> {
    match string {
        Some(s) => string_stamp(s, format, zone),
        None => match seconds {
            Some(n) => if n == i64::MAX || n == i64::MIN {
                Seq::empty()
            } else {
                unix_stamp(n, format, zone)
            },
            None => Seq::empty(),
        },
    }
}

/// Whether `format` writes nothing of the fraction of a second: the instant
/// is written as the whole second before it is.
pub open spec fn writes_no_fraction(
    secs: i64,
    nanos: u32,
    format: Seq<char>,
    zone: Option<Seq<char>>,
) -> bool {
    instant_text(secs, nanos, format, zone) == instant_text(secs, 0, format, zone)
}

/// A number of seconds and a string that holds an instant of that second are
/// written alike, under every format that writes the second and nothing of
/// its fraction, and in every zone.
pub proof fn lemma_number_and_string_agree(
    s: Seq<char>,
    secs: i64,
    nanos: u32,
    format: Seq<char>,
    zone: Option<Seq<char>>,
)
    requires
        instant_of(s, stamp_pattern()) == Some((secs, nanos)),
        writes_no_fraction(secs, nanos, format, zone),
        instant_text(secs, 0, format, zone) is Some,
    ensures
        string_stamp(s, format, zone) == unix_stamp(secs, format, zone),
{
}

/// A JSON number and a JSON string that hold one second give one time stamp:
/// the number cut to whole seconds, the string read as an instant of that
/// second, under every format that writes the second and nothing of its
/// fraction.
pub proof fn lemma_value_stamps_agree(
    number: Seq<char>,
    string: Seq<char>,
    secs: i64,
    nanos: u32,
    format: Seq<char>,
    zone: Option<Seq<char>>,
)
    requires
        json_string(number) is None,
        json_seconds(number) == Some(secs),
        i64::MIN < secs < i64::MAX,
        json_string(string) is Some,
        instant_of(json_string(string)->0, stamp_pattern()) == Some((secs, nanos)),
        writes_no_fraction(secs, nanos, format, zone),
        instant_text(secs, 0, format, zone) is Some,
    ensures
        value_stamp(json_string(number), json_seconds(number), format, zone) == value_stamp(
            json_string(string),
            json_seconds(string),
            format,
            zone,
        ),
{
    lemma_number_and_string_agree(json_string(string)->0, secs, nanos, format, zone);
}

fn render_instant(secs: i64, nanos: u32, format: &str, timezone: Option<&str>) -> (r: Option<
    String,
>)
    ensures
        match r {
            Some(t) => instant_text(secs, nanos, format@, opt_text(timezone)) == Some(t@),
            None => instant_text(secs, nanos, format@, opt_text(timezone)) is None,
        },
{
    match timezone {
        Some(zone) => {
            if known_zone(zone) {
                render_in_zone(secs, nanos, zone, format)
            } else {
                render_utc(secs, nanos, format)
            }
        },
        None => render_utc(secs, nanos, format),
    }
}

/// Writes the time stamp that the string `s` holds under `time_format`, in
/// the zone `timezone` where that is given and known, in UTC otherwise.
/// Returns `s` as it is where it holds no time stamp.
pub fn convert_str_to_ts(s: &str, time_format: &str, timezone: Option<&str>) -> (r: String)
    ensures
        r@ == string_stamp(s@, time_format@, opt_text(timezone)),
{
    match parse_instant(s, "%Y-%m-%dT%H:%M:%S.%fZ") {
        Some(at) => match render_instant(at.0, at.1, time_format, timezone) {
            Some(t) => t,
            None => s.to_owned(),
        },
        None => s.to_owned(),
    }
}

/// Writes the instant `value` seconds after the epoch under `time_format`.
/// Returns `value` in decimal where it cannot be written.
pub fn convert_unix_ts(value: i64, time_format: &str, timezone: Option<&str>) -> (r: String)
    ensures
        r@ == unix_stamp(value, time_format@, opt_text(timezone)),
{
    match render_instant(value, 0, time_format, timezone) {
        Some(t) => t,
        None => string_of(decimal(value).as_slice()),
    }
}

/// Writes the time stamp that was found in a JSON value, given what the value
/// is as a string and what it is as a number of seconds.
pub fn convert_ts_parts(
    string: Option<&str>,
    seconds: Option<i64>,
    time_format: &str,
    timezone: Option<&str>,
) -> (r: String)
    ensures
        r@ == value_stamp(opt_text(string), seconds, time_format@, opt_text(timezone)),
{
    match string {
        Some(s) => convert_str_to_ts(s, time_format, timezone),
        None => match seconds {
            Some(n) => {
                if n == i64::MAX || n == i64::MIN {
                    String::new()
                } else {
                    convert_unix_ts(n, time_format, timezone)
                }
            },
            None => String::new(),
        },
    }
}

/// Writes the time stamp that the JSON value `value` holds under
/// `time_format`: a string as `convert_str_to_ts` does, a number as
/// `convert_unix_ts` does with its whole seconds, anything else as the empty
/// string.
pub fn convert_ts_float_or_str(value: &Value, time_format: &str, timezone: Option<&str>) -> (r:
    String)
    ensures
        r@ == value_stamp(
            json_string(json_text(*value)),
            json_seconds(json_text(*value)),
            time_format@,
            opt_text(timezone),
        ),
{
    let string = json_as_str(value);
    let seconds = json_as_seconds(value);
    convert_ts_parts(string, seconds, time_format, timezone)
}

} // verus!
