//! The current time.

use time::format_description::well_known::Rfc3339;
use time::OffsetDateTime;
use vstd::prelude::*;

use crate::number;
use crate::text;

verus! {

/// Whether `s` is a date and a time of day, to the second:
/// `2024-01-31T23:59:59`.
pub open spec fn is_date_time(s: Seq<char>) -> bool {
    &&& s.len() == 19
    &&& number::all_digits(s.subrange(0, 4))
    &&& s[4] == '-'
    &&& number::all_digits(s.subrange(5, 7))
    &&& s[7] == '-'
    &&& number::all_digits(s.subrange(8, 10))
    &&& s[10] == 'T'
    &&& number::all_digits(s.subrange(11, 13))
    &&& s[13] == ':'
    &&& number::all_digits(s.subrange(14, 16))
    &&& s[16] == ':'
    &&& number::all_digits(s.subrange(17, 19))
}

/// Whether `s` is an offset from UTC: `Z`, or a sign with hours and minutes.
pub open spec fn is_offset(s: Seq<char>) -> bool {
    ||| s == seq!['Z']
    ||| {
        &&& s.len() == 6
        &&& s[0] == '+' || s[0] == '-'
        &&& number::all_digits(s.subrange(1, 3))
        &&& s[3] == ':'
        &&& number::all_digits(s.subrange(4, 6))
    }
}

/// Whether `s` has the shape of an RFC 3339 timestamp: a date and a time of
/// day, up to nine digits of a second where it is not a whole one, and an
/// offset.
pub open spec fn is_rfc3339(s: Seq<char>) -> bool {
    &&& s.len() >= 20
    &&& is_date_time(s.take(19))
    &&& if s[19] == '.' {
        let digits = number::digits_len(s.skip(20)) as int;
        1 <= digits <= 9 && is_offset(s.skip(20 + digits))
    } else {
        is_offset(s.skip(19))
    }
}

/// Whether `s` can be the timestamp of an event: empty where the time could not
/// be written.
pub open spec fn is_stamp(s: Seq<char>) -> bool {
    s.len() == 0 || is_rfc3339(s)
}

/// The current time as RFC 3339 text: `OffsetDateTime::now_local`, or
/// `OffsetDateTime::now_utc` where the local offset cannot be had, written by
/// `OffsetDateTime::format`; none where that reports an error.
///
/// Claimed of the text is its shape, which `Rfc3339` has in common for all
/// times that it writes. Which time it says, and whether it can be written,
/// rests on the clock and on the machine's time zone: not a year outside 0 to
/// 9999, nor an offset of a day or more or with a part of a minute.
#[verifier::external_body]
fn written_now() -> (written: Option<String>)
    ensures
        written matches Some(s) ==> is_rfc3339(s@),
{
    OffsetDateTime::now_local()
        .unwrap_or_else(|_| OffsetDateTime::now_utc())
        .format(&Rfc3339)
        .ok()
}

/// The timestamp for a time as it was written, if it could be.
pub fn stamp(written: Option<String>) -> (stamp: String)
    ensures
        stamp@ == (match text::opt_text(written) {
            Some(s) => s,
            None => Seq::empty(),
        }),
{
    match written {
        Some(s) => s,
        None => String::new(),
    }
}

/// The timestamp for the current time.
pub fn now_rfc3339() -> (now: String)
    ensures
        is_stamp(now@),
{
    stamp(written_now())
}

} // verus!
