//! Reading the clock without panicking, and the two texts made of a reading:
//! an RFC 3339 UTC time and a compact stamp for file names.

use vstd::prelude::*;
use crate::monitor::opt_text;

verus! {

/// Seconds from 1970-01-01T00:00:00Z to 10000-01-01T00:00:00Z: the instants
/// before it have a four-digit year.
pub const FOUR_DIGIT_YEARS_END: i64 = 253402300800;

/// A decimal digit.
pub open spec fn digit(c: char) -> bool {
    '0' <= c && c <= '9'
}

/// The shape of an RFC 3339 UTC time in whole seconds: a year of at least
/// four characters, then "-MM-DDTHH:MM:SS" in digits, then 'Z'.
pub open spec fn rfc3339_utc_shape(s: Seq<char>) -> bool {
    let k = s.len() - 16;
    &&& s.len() >= 20
    &&& s[k] == '-' && digit(s[k + 1]) && digit(s[k + 2])
    &&& s[k + 3] == '-' && digit(s[k + 4]) && digit(s[k + 5])
    &&& s[k + 6] == 'T' && digit(s[k + 7]) && digit(s[k + 8])
    &&& s[k + 9] == ':' && digit(s[k + 10]) && digit(s[k + 11])
    &&& s[k + 12] == ':' && digit(s[k + 13]) && digit(s[k + 14])
    &&& s[k + 15] == 'Z'
}

/// The shape of a "%Y%m%d_%H%M%S" stamp: a year of at least four characters,
/// four digits of month and day, '_', six digits of hour, minute and second.
pub open spec fn compact_shape(s: Seq<char>) -> bool {
    let k = s.len() - 11;
    &&& s.len() >= 15
    &&& digit(s[k]) && digit(s[k + 1]) && digit(s[k + 2]) && digit(s[k + 3])
    &&& s[k + 4] == '_'
    &&& digit(s[k + 5]) && digit(s[k + 6]) && digit(s[k + 7])
    &&& digit(s[k + 8]) && digit(s[k + 9]) && digit(s[k + 10])
}

/// An RFC 3339 time of a year from 0 to 9999: 20 characters, the year in four digits.
pub open spec fn four_digit_year_rfc3339(s: Seq<char>) -> bool {
    s.len() == 20 && all_digits(s.take(4))
}

/// A compact stamp of a year from 0 to 9999: 15 characters, the date in eight digits.
pub open spec fn four_digit_year_compact(s: Seq<char>) -> bool {
    s.len() == 15 && all_digits(s.take(8))
}

/// Every character is a digit.
pub open spec fn all_digits(s: Seq<char>) -> bool {
    forall|i: int| 0 <= i < s.len() ==> digit(#[trigger] s[i])
}

/// What `DateTime::from_timestamp(secs, 0)` formatted by
/// `to_rfc3339_opts(SecondsFormat::Secs, true)` gives, if the instant is
/// representable.
pub uninterp spec fn rfc3339_of(secs: i64) -> Option<Seq<char>>;

/// What `DateTime::from_timestamp(secs, 0)` formatted with
/// "%Y%m%d_%H%M%S" gives, if the instant is representable.
pub uninterp spec fn compact_of(secs: i64) -> Option<Seq<char>>;

/// `SystemTime::now().duration_since(UNIX_EPOCH)`: whole seconds since the
/// Unix epoch, or `None` when the clock reads earlier. It depends on the
/// clock, so nothing is stated of it.
#[verifier::external_body]
fn seconds_since_epoch() -> (secs: Option<u64>) {
    std::time::SystemTime::now().duration_since(std::time::UNIX_EPOCH).ok().map(|d| d.as_secs())
}

/// `chrono::DateTime::from_timestamp(secs, 0)` written by
/// `to_rfc3339_opts(SecondsFormat::Secs, true)`: `None` when the instant is
/// out of chrono's range; otherwise the year (four digits for years 0 to 9999,
/// else signed and at least five characters), "-MM-DDTHH:MM:SS" and 'Z' for
/// the zero offset. Instants from 1970 to the end of year 9999 are in range
/// and have a four-digit year.
#[verifier::external_body]
fn format_rfc3339(secs: i64) -> (text: Option<String>)
    ensures
        opt_text(text) == rfc3339_of(secs),
        text matches Some(t) ==> rfc3339_utc_shape(t@),
        0 <= secs < FOUR_DIGIT_YEARS_END ==> text is Some,
        text matches Some(t) ==> (0 <= secs < FOUR_DIGIT_YEARS_END ==> four_digit_year_rfc3339(t@)),
{
    chrono::DateTime::from_timestamp(secs, 0).map(
        |t| t.to_rfc3339_opts(chrono::SecondsFormat::Secs, true),
    )
}

/// `chrono::DateTime::from_timestamp(secs, 0)` written with
/// "%Y%m%d_%H%M%S": `None` when the instant is out of chrono's range;
/// otherwise the year (four digits for years 0 to 9999, else signed), two
/// digits each of month, day, '_', then hour, minute and second. Instants
/// from 1970 to the end of year 9999 are in range and give 15 characters.
#[verifier::external_body]
fn format_compact(secs: i64) -> (text: Option<String>)
    ensures
        opt_text(text) == compact_of(secs),
        text matches Some(t) ==> compact_shape(t@),
        0 <= secs < FOUR_DIGIT_YEARS_END ==> text is Some,
        text matches Some(t) ==> (0 <= secs < FOUR_DIGIT_YEARS_END ==> four_digit_year_compact(t@)),
{
    chrono::DateTime::from_timestamp(secs, 0).map(|t| t.format("%Y%m%d_%H%M%S").to_string())
}

/// One reading of the clock, as an RFC 3339 UTC time and as a compact stamp.
#[derive(Debug, Clone, PartialEq, Eq)]
pub struct ClockReading {
    pub iso: String,
    pub compact: String,
}

/// A time the clock can give: the RFC 3339 UTC text of some instant.
pub open spec fn clock_time(t: Seq<char>) -> bool {
    &&& exists|secs: i64| #[trigger] rfc3339_of(secs) == Some(t)
    &&& rfc3339_utc_shape(t)
}

/// What a clock reading is: both texts of one and the same instant, in their shapes.
pub open spec fn valid_reading(r: ClockReading) -> bool {
    &&& exists|secs: i64| rfc3339_of(secs) == Some(r.iso@) && compact_of(secs) == Some(r.compact@)
    &&& rfc3339_utc_shape(r.iso@)
    &&& compact_shape(r.compact@)
}

/// The texts of the instant `secs` seconds after the Unix epoch, or `None`
/// when chrono cannot represent it.
pub fn reading_at(secs: u64) -> (r: Option<ClockReading>)
    ensures
        secs > i64::MAX ==> r is None,
        secs <= i64::MAX ==> (r is Some <==> (rfc3339_of(secs as i64) is Some && compact_of(secs as i64) is Some)),
        r matches Some(c) ==> rfc3339_of(secs as i64) == Some(c.iso@) && compact_of(secs as i64) == Some(c.compact@),
        r matches Some(c) ==> valid_reading(c),
        secs < FOUR_DIGIT_YEARS_END ==> (r matches Some(c) && four_digit_year_rfc3339(c.iso@) && four_digit_year_compact(
            c.compact@,
        )),
{
    if secs > i64::MAX as u64 {
        return None;
    }
    let t = secs as i64;
    match (format_rfc3339(t), format_compact(t)) {
        (Some(iso), Some(compact)) => {
            let r = ClockReading { iso, compact };
            assert(rfc3339_of(t) == Some(r.iso@) && compact_of(t) == Some(r.compact@));
            Some(r)
        },
        _ => None,
    }
}

/// Reads the clock: `None` when it reads before 1970 or beyond what chrono
/// represents; never panics.
pub fn read_clock() -> (r: Option<ClockReading>)
    ensures
        r matches Some(c) ==> valid_reading(c),
{
    match seconds_since_epoch() {
        Some(secs) => reading_at(secs),
        None => None,
    }
}

} // verus!
