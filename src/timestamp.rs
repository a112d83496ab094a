//! The text form of a file's modification time.

use vstd::prelude::*;

verus! {

/// A point in time as seconds and nanoseconds since the Unix epoch.
#[derive(Debug, Clone, Copy, PartialEq, Eq, Structural)]
pub struct ModifiedTime {
    pub secs: i64,
    pub nanos: u32,
}

/// The layout of a `last_edited` text: date, a space, then the time of day.
pub const LAST_EDITED_FORMAT: &'static str = "%Y-%m-%d %H:%M:%S";

/// A character that a `last_edited` text can hold: the date and time
/// fields are digits, the year may carry a sign, and the fields are joined
/// by hyphens, a space and colons.
pub open spec fn is_time_char(c: char) -> bool {
    ('0' <= c && c <= '9') || c == '-' || c == '+' || c == ' ' || c == ':'
}

/// A text in the shape of `last_edited`: not empty, and made of time
/// characters only.
pub open spec fn is_time_text(s: Seq<char>) -> bool {
    s.len() > 0 && forall|i: int| 0 <= i < s.len() ==> is_time_char(#[trigger] s[i])
}

/// Relies on `chrono::DateTime::from_timestamp`, shown in local time by
/// `DateTime::format`: the time in the machine's time zone, or `None` for a
/// time that chrono cannot represent. With the `last_edited` layout chrono
/// writes only digits, signs and the separators of the layout. The text
/// depends on the time zone.
#[verifier::external_body]
fn local_time_text(secs: i64, nanos: u32, format: &str) -> (r: Option<String>)
    requires
        format@ == LAST_EDITED_FORMAT@,
    ensures
        r matches Some(t) ==> is_time_text(t@),
{
    match chrono::DateTime::from_timestamp(secs, nanos) {
        Some(t) => Some(t.with_timezone(&chrono::Local).format(format).to_string()),
        None => None,
    }
}

/// Relies on `chrono::Local::now`, shown by `DateTime::format`: the current
/// time in the machine's time zone, written with the digits, signs and
/// separators of the `last_edited` layout.
#[verifier::external_body]
fn local_now_text(format: &str) -> (r: String)
    requires
        format@ == LAST_EDITED_FORMAT@,
    ensures
        is_time_text(r@),
{
    chrono::Local::now().format(format).to_string()
}

/// The probed modification time as a `last_edited` text: `None` when the
/// probe failed or the time cannot be shown.
pub fn probed_time_text(modified: Option<ModifiedTime>) -> (r: Option<String>)
    ensures
        modified is None ==> r is None,
        r matches Some(t) ==> is_time_text(t@),
{
    match modified {
        Some(t) => local_time_text(t.secs, t.nanos, LAST_EDITED_FORMAT),
        None => None,
    }
}

/// The fallback rule: the text of the probed time when there is one; the
/// clock is read only when there is none.
pub fn time_text_or_now(probed: Option<String>) -> (r: String)
    ensures
        probed matches Some(t) ==> r == t,
        probed is None ==> is_time_text(r@),
{
    match probed {
        Some(t) => t,
        None => local_now_text(LAST_EDITED_FORMAT),
    }
}

/// The `last_edited` text for a file whose modification time was probed:
/// that time in local time, or the current time when the probe failed or the
/// time cannot be shown.
pub fn last_edited_text(modified: Option<ModifiedTime>) -> (r: String)
    ensures
        is_time_text(r@),
{
    time_text_or_now(probed_time_text(modified))
}

} // verus!
