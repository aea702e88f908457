//! Timestamps: milliseconds since the Unix epoch, read from and written as
//! text through chrono.

use vstd::prelude::*;

verus! {

/// The instant that an ISO-8601 / RFC 3339 text denotes, in milliseconds,
/// or `None` when the text is not such a date.
pub uninterp spec fn iso_millis(s: Seq<char>) -> Option<i64>;

/// Whether a number of milliseconds since the epoch lies in chrono's range.
pub uninterp spec fn millis_in_range(ms: i64) -> bool;

/// The RFC 3339 text of an instant given in milliseconds.
pub uninterp spec fn rfc3339_of(ms: i64) -> Seq<char>;

/// Relies on chrono's `FromStr for DateTime<Utc>` (a relaxed RFC 3339) and
/// `DateTime::timestamp_millis`: the result depends on the text alone.
#[verifier::external_body]
pub(crate) fn parse_iso_millis(s: &str) -> (r: Option<i64>)
    ensures
        r == iso_millis(s@),
{
    s.parse::<chrono::DateTime<chrono::Utc>>().ok().map(|d| d.timestamp_millis())
}

/// Relies on chrono's `DateTime::from_timestamp_millis`, which returns `None`
/// exactly for out-of-range values.
#[verifier::external_body]
pub(crate) fn millis_representable(ms: i64) -> (r: bool)
    ensures
        r == millis_in_range(ms),
{
    chrono::DateTime::from_timestamp_millis(ms).is_some()
}

/// Relies on chrono's `DateTime::from_timestamp_millis` and `DateTime::to_rfc3339`.
#[verifier::external_body]
pub(crate) fn format_rfc3339(ms: i64) -> (r: Option<String>)
    ensures
        r.is_some() == millis_in_range(ms),
        r.is_some() ==> r.unwrap()@ == rfc3339_of(ms),
{
    chrono::DateTime::from_timestamp_millis(ms).map(|d| d.to_rfc3339())
}

/// Whether every character of `s` is a decimal digit.
pub open spec fn all_digits(s: Seq<char>) -> bool {
    forall|i: int| 0 <= i < s.len() ==> '0' <= #[trigger] s[i] <= '9'
}

/// The value of a string of decimal digits.
pub open spec fn digits_value(s: Seq<char>) -> int
    decreases s.len(),
{
    if s.len() == 0 {
        0
    } else {
        digits_value(s.drop_last()) * 10 + (s.last() as int - '0' as int)
    }
}

/// The integer that `s` spells: an optional `+` or `-` and at least one digit.
pub open spec fn integer_of_text(s: Seq<char>) -> Option<int> {
    if s.len() > 0 && (s[0] == '+' || s[0] == '-') {
        let d = s.drop_first();
        if d.len() > 0 && all_digits(d) {
            Some(if s[0] == '-' { -digits_value(d) } else { digits_value(d) })
        } else {
            None
        }
    } else if s.len() > 0 && all_digits(s) {
        Some(digits_value(s))
    } else {
        None
    }
}

/// What `str::parse::<i64>` gives: the integer spelt, when it fits in an `i64`.
pub open spec fn i64_of_text(s: Seq<char>) -> Option<i64> {
    match integer_of_text(s) {
        Some(v) => if i64::MIN <= v <= i64::MAX {
            Some(v as i64)
        } else {
            None
        },
        None => None,
    }
}

/// Relies on `str::parse::<i64>`: an optional sign followed by decimal digits,
/// and a value within `i64`.
#[verifier::external_body]
pub(crate) fn parse_i64(s: &str) -> (r: Option<i64>)
    ensures
        r == i64_of_text(s@),
{
    s.parse::<i64>().ok()
}

/// The instant a stored timestamp text denotes: an ISO-8601 date is tried
/// first, then a whole number of milliseconds; `None` when both fail.
pub open spec fn timestamp_of_text(s: Seq<char>) -> Option<i64> {
    match iso_millis(s) {
        Some(ms) => Some(ms),
        None => match i64_of_text(s) {
            Some(ms) => if millis_in_range(ms) {
                Some(ms)
            } else {
                None
            },
            None => None,
        },
    }
}

/// Chooses between the two readings of a timestamp text: the ISO-8601
/// reading when there is one, else the integer reading when chrono can hold
/// that instant (`integer_in_range`), else none.
pub fn pick_timestamp(iso: Option<i64>, integer: Option<i64>, integer_in_range: bool) -> (r: Option<i64>)
    ensures
        r == match iso {
            Some(ms) => Some(ms),
            None => match integer {
                Some(ms) => if integer_in_range {
                    Some(ms)
                } else {
                    None
                },
                None => None,
            },
        },
{
    match iso {
        Some(ms) => Some(ms),
        None => match integer {
            Some(ms) => if integer_in_range {
                Some(ms)
            } else {
                None
            },
            None => None,
        },
    }
}

/// Reads a timestamp text in either of the two encodings the origin uses.
pub fn parse_timestamp(s: &str) -> (r: Option<i64>)
    ensures
        r == timestamp_of_text(s@),
{
    let iso = parse_iso_millis(s);
    if iso.is_some() {
        return pick_timestamp(iso, None, false);
    }
    let integer = parse_i64(s);
    let in_range = match integer {
        Some(ms) => millis_representable(ms),
        None => false,
    };
    pick_timestamp(iso, integer, in_range)
}

/// The instant a metadata `createdAt` number denotes, if it is one chrono can hold.
pub open spec fn timestamp_of_millis(ms: u64) -> Option<i64> {
    if ms <= i64::MAX as u64 && millis_in_range(ms as i64) {
        Some(ms as i64)
    } else {
        None
    }
}

/// Reads a metadata `createdAt` number of milliseconds.
pub fn timestamp_from_millis(ms: u64) -> (r: Option<i64>)
    ensures
        r == timestamp_of_millis(ms),
{
    if ms <= i64::MAX as u64 && millis_representable(ms as i64) {
        Some(ms as i64)
    } else {
        None
    }
}

} // verus!
