//! The wall clock, read through the `time` crate.
use vstd::prelude::*;
use crate::text::{push_signed_decimal, signed_decimal, string_of};

verus! {

/// The current UTC time as RFC 3339 text, through
/// `time::OffsetDateTime::now_utc().format(&Rfc3339)`; `None` where the
/// formatting fails. Nothing is claimed of the text: it depends on the clock.
#[verifier::external_body]
pub(crate) fn now_utc_rfc3339() -> Option<String> {
    ::time::OffsetDateTime::now_utc().format(&::time::format_description::well_known::Rfc3339).ok()
}

/// The current Unix time in seconds (`OffsetDateTime::unix_timestamp`).
/// Nothing is claimed of it.
#[verifier::external_body]
pub(crate) fn now_unix_timestamp() -> i64 {
    ::time::OffsetDateTime::now_utc().unix_timestamp()
}

/// The current Unix time in nanoseconds
/// (`OffsetDateTime::unix_timestamp_nanos`). Nothing is claimed of it.
#[verifier::external_body]
pub(crate) fn now_unix_timestamp_nanos() -> i128 {
    ::time::OffsetDateTime::now_utc().unix_timestamp_nanos()
}

/// The current UTC time formatted by a `time` format description, through
/// `time::format_description::parse` and `OffsetDateTime::format`; `None`
/// where either fails. Nothing is claimed of the text: it depends on the
/// clock.
#[verifier::external_body]
pub(crate) fn now_formatted(description: &str) -> Option<String> {
    let items = ::time::format_description::parse(description).ok()?;
    ::time::OffsetDateTime::now_utc().format(&items).ok()
}

/// A time stamp from its parts: the formatted text where formatting
/// succeeded, else the Unix time in seconds in decimal.
pub fn stamp_or_seconds(formatted: Option<String>, secs: i64) -> (r: String)
    ensures
        match formatted {
            Some(s) => r@ == s@,
            None => r@ == signed_decimal(secs as int),
        },
{
    match formatted {
        Some(s) => s,
        None => {
            let mut v: Vec<char> = Vec::new();
            push_signed_decimal(&mut v, secs as i128);
            assert(v@ =~= signed_decimal(secs as int));
            string_of(v.as_slice())
        },
    }
}

/// The time stamp of store entries (`stamp_or_seconds` of what the clock
/// gives): RFC 3339 text, or, where formatting fails, the Unix time in
/// seconds in decimal. The clock is read for the seconds only where the
/// text failed.
pub fn now_rfc3339() -> String {
    let formatted = now_utc_rfc3339();
    let secs: i64 = match &formatted {
        Some(_) => 0,
        None => now_unix_timestamp(),
    };
    stamp_or_seconds(formatted, secs)
}

} // verus!
