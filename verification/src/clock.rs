//! Time: reading the clock and writing an instant the way readers see it.
//!
//! An instant is a number of seconds since the start of 1970 in UTC. The
//! `chrono` crate reads the clock and does the calendar arithmetic.

use crate::model::opt_text;
use crate::text::{push_signed_decimal, signed_decimal};
use vstd::prelude::*;

verus! {

/// How the creation time of a post is written: date, hours and minutes.
pub const TIME_FORMAT: &'static str = "%Y-%m-%d %H:%M";

/// How an instant is written where seconds matter.
pub const TIME_FORMAT_SECONDS: &'static str = "%Y-%m-%d %H:%M:%S";

/// The instant `seconds`, written in UTC as the `chrono` crate writes it for
/// the `strftime` pattern `format`; `None` where the calendar of `chrono` does
/// not reach the instant or the pattern is not a valid one.
pub uninterp spec fn formatted_time(seconds: int, format: Seq<char>) -> Option<Seq<char>>;

/// Calls `DateTime::from_timestamp`, `DateTime::format` and
/// `DelayedFormat::write_to` of the `chrono` crate.
///
/// Trusted: the result depends on the two arguments alone, and is `None` where
/// `chrono` cannot represent the instant or rejects the pattern.
#[verifier::external_body]
fn format_utc(seconds: i64, format: &str) -> (r: Option<String>)
    ensures
        opt_text(r) == formatted_time(seconds as int, format@),
{
    let instant = chrono::DateTime::from_timestamp(seconds, 0)?;
    let mut out = String::new();
    instant.format(format).write_to(&mut out).ok()?;
    Some(out)
}

/// Calls `Utc::now` and `DateTime::timestamp` of the `chrono` crate: the
/// seconds since the start of 1970 on the system clock. Nothing is claimed of
/// the value. `chrono` panics if the system clock is set before 1970.
#[verifier::external_body]
fn utc_now() -> i64 {
    chrono::Utc::now().timestamp()
}

/// An instant as readers see it under `format`: as `chrono` writes it, or the
/// plain number of seconds where `chrono` cannot.
pub open spec fn label_of(seconds: int, format: Seq<char>) -> Seq<char> {
    match formatted_time(seconds, format) {
        Some(label) => label,
        None => signed_decimal(seconds),
    }
}

/// Writes the instant `seconds` under the `strftime` pattern `format`.
pub fn format_label(seconds: i64, format: &str) -> (label: String)
    ensures
        label@ == label_of(seconds as int, format@),
{
    match format_utc(seconds, format) {
        Some(label) => label,
        None => {
            let mut label = String::new();
            push_signed_decimal(&mut label, seconds);
            assert(label@ =~= signed_decimal(seconds as int));
            label
        },
    }
}

/// Writes the instant `seconds` as the creation time of a post.
pub fn time_label(seconds: i64) -> (label: String)
    ensures
        label@ == label_of(seconds as int, TIME_FORMAT@),
{
    format_label(seconds, TIME_FORMAT)
}

/// A reading of the clock.
pub struct Stamp {
    /// Seconds since the start of 1970, UTC.
    pub seconds: i64,
    /// The same instant as the creation time of a post.
    pub label: String,
}

/// Reads the clock. Whatever instant it shows, the label is that instant
/// written as a creation time.
pub fn stamp_now() -> (stamp: Stamp)
    ensures
        stamp.label@ == label_of(stamp.seconds as int, TIME_FORMAT@),
{
    let seconds = utc_now();
    Stamp { seconds, label: time_label(seconds) }
}

} // verus!
