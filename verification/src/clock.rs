//! Wall-clock time, in milliseconds since the start of 1970 (UTC), and its
//! RFC 2822 text.

use vstd::prelude::*;

verus! {

/// The first millisecond of the year 0.
pub const RFC2822_FIRST_MS: i64 = -62_167_219_200_000;

/// The last millisecond of the year 9999.
pub const RFC2822_LAST_MS: i64 = 253_402_300_799_999;

/// The RFC 2822 text of an instant in UTC, such as
/// `Thu, 05 Oct 2023 15:00:00 +0000`.
pub uninterp spec fn rfc2822_utc(millis: i64) -> Seq<char>;

/// `DateTime::<Utc>::to_rfc2822` of the `chrono` crate. It panics outside the
/// years 0 to 9999; such instants are left out. Not proved: the text is known
/// by its name only.
#[verifier::external_body]
fn format_rfc2822(millis: i64) -> (r: String)
    requires
        RFC2822_FIRST_MS <= millis <= RFC2822_LAST_MS,
    ensures
        r@ == rfc2822_utc(millis),
{
    chrono::DateTime::from_timestamp_millis(millis).unwrap().to_rfc2822()
}

/// `Utc::now` of the `chrono` crate, in milliseconds. Nothing is claimed of
/// the instant that comes back.
#[verifier::external_body]
pub(crate) fn wall_clock_millis() -> i64 {
    chrono::Utc::now().timestamp_millis()
}

/// The `Date` header for an instant: its RFC 2822 text, where the format can
/// hold it (the years 0 to 9999).
pub fn http_date(millis: i64) -> (r: Option<String>)
    ensures
        r is Some <==> RFC2822_FIRST_MS <= millis <= RFC2822_LAST_MS,
        r matches Some(text) ==> text@ == rfc2822_utc(millis),
{
    if RFC2822_FIRST_MS <= millis && millis <= RFC2822_LAST_MS {
        Some(format_rfc2822(millis))
    } else {
        None
    }
}

} // verus!
