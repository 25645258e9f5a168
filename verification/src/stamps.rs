//! Identifiers and times as text: UUIDs in their hyphenated form, RFC 3339
//! dates, and the compact stamp in backup file names.

use vstd::prelude::*;
use vstd::arithmetic::power::pow;
use crate::entities::Timestamp;

verus! {

/// Lower-case hexadecimal digit for `d < 16`.
pub open spec fn hex_digit(d: int) -> char {
    if d < 10 {
        ((d + 48) as u32) as char
    } else {
        ((d + 87) as u32) as char
    }
}

/// The `k`th of the 32 hexadecimal digits of `id`, most significant first.
pub open spec fn nibble(id: u128, k: int) -> int {
    (id as int / pow(16, (31 - k) as nat)) % 16
}

/// Which hexadecimal digit the character at position `i` of the hyphenated
/// form shows.
pub open spec fn digit_index(i: int) -> int {
    if i < 8 {
        i
    } else if i < 13 {
        i - 1
    } else if i < 18 {
        i - 2
    } else if i < 23 {
        i - 3
    } else {
        i - 4
    }
}

/// The hyphenated lower-case form of a UUID: 8-4-4-4-12 hexadecimal digits.
pub open spec fn uuid_hyphenated(id: u128) -> Seq<char> {
    Seq::new(
        36,
        |i: int|
            if i == 8 || i == 13 || i == 18 || i == 23 {
                '-'
            } else {
                hex_digit(nibble(id, digit_index(i)))
            },
    )
}

/// `uuid::Uuid::from_u128(id).to_string()`: the uuid crate documents its
/// `Display` form as the hyphenated form in lower case, which this contract
/// states.
#[verifier::external_body]
pub(crate) fn uuid_text(id: u128) -> (r: String)
    ensures
        r@ == uuid_hyphenated(id),
{
    uuid::Uuid::from_u128(id).to_string()
}

/// The RFC 3339 text of an instant, as chrono writes it.
pub uninterp spec fn rfc3339_of(secs: i64, nanos: u32) -> Option<Seq<char>>;

/// `chrono::DateTime::<Utc>::from_timestamp(secs, nanos)` followed by
/// `to_rfc3339`: `None` when chrono cannot represent the instant. The text
/// depends on the instant alone and is named `rfc3339_of`.
#[verifier::external_body]
fn rfc3339_text(secs: i64, nanos: u32) -> (r: Option<String>)
    ensures
        match r {
            Some(s) => rfc3339_of(secs, nanos) == Some(s@),
            None => rfc3339_of(secs, nanos) is None,
        },
{
    match chrono::DateTime::<chrono::Utc>::from_timestamp(secs, nanos) {
        Some(t) => Some(t.to_rfc3339()),
        None => None,
    }
}

/// The RFC 3339 text of a timestamp, empty when it is out of chrono's range.
pub fn timestamp_text(t: Timestamp) -> (r: String)
    ensures
        r@ == match rfc3339_of(t.secs, t.nanos) {
            Some(s) => s,
            None => Seq::<char>::empty(),
        },
{
    match rfc3339_text(t.secs, t.nanos) {
        Some(s) => s,
        None => String::new(),
    }
}

/// The pattern of the time stamp in backup file names.
pub const BACKUP_STAMP_PATTERN: &'static str = "%Y%m%d_%H%M%S";

/// An ASCII decimal digit.
pub open spec fn is_digit(c: char) -> bool {
    '0' <= c && c <= '9'
}

/// The two digits at `at` and `at + 1` of `s` read as a number between
/// `lo` and `hi`.
pub open spec fn two_digits_between(s: Seq<char>, at: int, lo: int, hi: int) -> bool {
    &&& is_digit(s[at])
    &&& is_digit(s[at + 1])
    &&& lo <= (s[at] as int - 48) * 10 + (s[at + 1] as int - 48) <= hi
}

/// A year as chrono's `%Y` writes it: four digits for the years 0 to 9999,
/// otherwise a sign followed by at least four digits.
pub open spec fn is_year_text(y: Seq<char>) -> bool {
    ||| y.len() == 4 && forall|i: int| 0 <= i < 4 ==> is_digit(#[trigger] y[i])
    ||| y.len() >= 5 && (y[0] == '+' || y[0] == '-') && forall|i: int|
        1 <= i < y.len() ==> is_digit(#[trigger] y[i])
}

/// Text of the shape `%Y%m%d_%H%M%S`: a year, then month (01-12), day
/// (01-31), `_`, hour (00-23), minute (00-59) and second (00-60), two digits
/// each.
pub open spec fn is_compact_stamp(s: Seq<char>) -> bool {
    let n = s.len() as int;
    &&& n >= 15
    &&& is_year_text(s.take(n - 11))
    &&& two_digits_between(s, n - 11, 1, 12)
    &&& two_digits_between(s, n - 9, 1, 31)
    &&& s[n - 7] == '_'
    &&& two_digits_between(s, n - 6, 0, 23)
    &&& two_digits_between(s, n - 4, 0, 59)
    &&& two_digits_between(s, n - 2, 0, 60)
}

/// `chrono::Utc::now().format(pattern).to_string()` for the backup stamp
/// pattern. The time comes from the clock, so only the shape of the text is
/// stated, as chrono's `strftime` documentation gives each field.
#[verifier::external_body]
pub(crate) fn utc_now_formatted(pattern: &str) -> (r: String)
    requires
        pattern@ == BACKUP_STAMP_PATTERN@,
    ensures
        is_compact_stamp(r@),
{
    chrono::Utc::now().format(pattern).to_string()
}

} // verus!
