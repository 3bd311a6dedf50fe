//! Timestamp resolution: turning Unix seconds into display text.  The
//! calendar arithmetic comes from the date-time crate behind a trusted
//! wrapper; everything around it is verified.

use vstd::prelude::*;

verus! {

/// The `YYYY-MM-DD HH:MM:SS` display of a Unix timestamp in UTC; empty for a
/// value out of the supported range.
pub uninterp spec fn unix_datetime_text(secs: int) -> Seq<char>;

/// Relies on `chrono::DateTime::from_timestamp` and the
/// `%Y-%m-%d %H:%M:%S` display of the UTC value: the text depends on the
/// seconds alone, and an out-of-range value yields the empty string.
#[verifier::external_body]
pub fn datetime_text(secs: i64) -> (r: String)
    ensures
        r@ == unix_datetime_text(secs as int),
{
    match chrono::DateTime::from_timestamp(secs, 0) {
        Some(dt) => dt.format("%Y-%m-%d %H:%M:%S").to_string(),
        None => String::new(),
    }
}

/// The resolved timestamp text of a comment: the display text when shown and
/// the timestamp is positive, empty otherwise.
pub open spec fn spec_reply_timestamp(created_utc: int, show: bool) -> Seq<char> {
    if show && created_utc > 0 {
        unix_datetime_text(created_utc)
    } else {
        Seq::empty()
    }
}

/// Resolve a comment's timestamp for display.
pub fn extract_reply_timestamp(created_utc: i64, show_timestamp: bool) -> (r: String)
    ensures
        r@ == spec_reply_timestamp(created_utc as int, show_timestamp),
{
    if show_timestamp && created_utc > 0 {
        datetime_text(created_utc)
    } else {
        String::new()
    }
}

/// The resolved timestamp text of a post: the display text when a timestamp
/// is present, empty otherwise.
pub open spec fn spec_post_timestamp(created_utc: Option<i64>) -> Seq<char> {
    match created_utc {
        Some(t) => unix_datetime_text(t as int),
        None => Seq::empty(),
    }
}

/// Resolve a post's timestamp for display.
pub fn extract_post_timestamp(created_utc: Option<i64>) -> (r: String)
    ensures
        r@ == spec_post_timestamp(created_utc),
{
    match created_utc {
        Some(t) => datetime_text(t),
        None => String::new(),
    }
}

} // verus!
