//! The wall clock, read through chrono, and the shapes of the texts it gives.
use vstd::prelude::*;

verus! {

/// An ASCII decimal digit.
pub open spec fn is_digit(c: char) -> bool {
    '0' <= c <= '9'
}

/// The text of a calendar date as chrono writes it: a year of at least four digits (with
/// a sign when it lies outside 0..=9999), `-`, two digits of month, `-`, two digits of day.
pub open spec fn is_date_text(s: Seq<char>) -> bool {
    let n = s.len();
    &&& n >= 10
    &&& s[n - 6] == '-'
    &&& is_digit(s[n - 5])
    &&& is_digit(s[n - 4])
    &&& s[n - 3] == '-'
    &&& is_digit(s[n - 2])
    &&& is_digit(s[n - 1])
    &&& forall|i: int| 0 <= i < n - 6 ==> is_digit(#[trigger] s[i]) || (i == 0 && (s[i] == '+' || s[i] == '-'))
}

/// An RFC 3339 time in UTC as chrono writes it: a date text, `T`, the time of day
/// (`HH:MM:SS`, with a fraction when there is one) and the offset `+00:00`.
pub open spec fn is_rfc3339_utc(s: Seq<char>) -> bool {
    exists|k: int|
        #![trigger s.take(k)]
        0 <= k < s.len() && s[k] == 'T' && is_date_text(s.take(k)) && s.len() - k - 1 >= 14
            && s.skip(s.len() - 6) == seq!['+', '0', '0', ':', '0', '0']
}

/// The current time in RFC 3339 form.
/// Calls `chrono::Utc::now().to_rfc3339()`. The contract claims only the shape of the text
/// (chrono's `write_rfc3339` with a zero offset and no `Z`), not which time it is.
#[verifier::external_body]
pub(crate) fn now_rfc3339() -> (r: String)
    ensures
        is_rfc3339_utc(r@),
{
    chrono::Utc::now().to_rfc3339()
}

/// Today's date (UTC) as `YYYY-MM-DD`.
/// Calls `chrono::Utc::now().date_naive().to_string()`. The contract claims only the
/// shape of the text (chrono's `Display` of a `NaiveDate`), not which date it is.
#[verifier::external_body]
pub(crate) fn today_utc() -> (r: String)
    ensures
        is_date_text(r@),
{
    chrono::Utc::now().date_naive().to_string()
}

/// The instant an RFC 3339 text denotes, as whole seconds since the Unix epoch and the
/// nanoseconds within that second (as chrono counts them); none when the text does not
/// parse as RFC 3339.
pub uninterp spec fn spec_rfc3339_instant(s: Seq<char>) -> Option<(i64, u32)>;

/// The instant `a` comes strictly before the instant `b`.
pub open spec fn instant_lt(a: (i64, u32), b: (i64, u32)) -> bool {
    a.0 < b.0 || (a.0 == b.0 && a.1 < b.1)
}

/// Parses `s` with `chrono::DateTime::parse_from_rfc3339` and gives the instant it denotes
/// (`timestamp` and `timestamp_subsec_nanos`), none when it does not parse. The contract
/// names the result.
#[verifier::external_body]
pub(crate) fn parse_rfc3339_instant(s: &str) -> (r: Option<(i64, u32)>)
    ensures
        r == spec_rfc3339_instant(s@),
{
    match chrono::DateTime::parse_from_rfc3339(s) {
        Ok(t) => Some((t.timestamp(), t.timestamp_subsec_nanos())),
        Err(_) => None,
    }
}

} // verus!
