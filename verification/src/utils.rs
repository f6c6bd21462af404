//! Conversions shared by the record decoders: timestamps, colours, decimal
//! numbers and the outcome of the JSON codec.

use vstd::prelude::*;
use crate::error::NoteError;

verus! {

/// Milliseconds from the Unix epoch to the first instant that chrono has a
/// date for: the start of the year -262143.
pub const MIN_DATETIME_MILLIS: i64 = -8_334_601_228_800_000;

/// Milliseconds from the Unix epoch to the last millisecond that chrono has a
/// date for: the end of the year 262142.
pub const MAX_DATETIME_MILLIS: i64 = 8_210_266_876_799_999;

/// Milliseconds from the Unix epoch to the first instant of the year 9999.
pub const YEAR_9999_MILLIS: i64 = 253_370_764_800_000;

/// Whether a number of milliseconds since the Unix epoch is a UTC date and
/// time: it lies between the first and the last instant that chrono has a
/// date for.
pub open spec fn millis_is_datetime(millis: int) -> bool {
    MIN_DATETIME_MILLIS <= millis <= MAX_DATETIME_MILLIS
}

/// A UTC date and time at or after the Unix epoch, held as milliseconds since
/// the epoch.
#[derive(Clone, Copy, Debug, PartialEq, Eq, Hash, Structural)]
pub struct Timestamp {
    pub millis: i64,
}

impl Timestamp {
    /// A timestamp is well formed when its milliseconds are not negative and
    /// are a UTC date and time.
    pub open spec fn wf(self) -> bool {
        0 <= self.millis && millis_is_datetime(self.millis as int)
    }

    /// Milliseconds since the Unix epoch.
    pub fn to_millis(&self) -> (millis: i64)
        ensures
            millis == self.millis,
    {
        self.millis
    }
}

/// The timestamp that a 64-bit number of milliseconds stands for, where the
/// number is a UTC date and time.
pub open spec fn timestamp_of(ts: u64) -> Option<Timestamp> {
    if ts <= MAX_DATETIME_MILLIS {
        Some(Timestamp { millis: ts as i64 })
    } else {
        None
    }
}

/// Asks `chrono::DateTime::<Utc>::from_timestamp_millis` whether it has a date
/// and time for the number. The contract claims what chrono's source shows:
/// the call counts the days since the epoch and has a date for each day from
/// the first of the year -262143 to the last of the year 262142, which are the
/// milliseconds from [`MIN_DATETIME_MILLIS`] to [`MAX_DATETIME_MILLIS`].
#[verifier::external_body]
pub(crate) fn datetime_exists(millis: i64) -> (ok: bool)
    ensures
        ok == millis_is_datetime(millis as int),
{
    chrono::DateTime::<chrono::Utc>::from_timestamp_millis(millis).is_some()
}

/// Reads a 64-bit number of milliseconds since the Unix epoch as a timestamp.
/// The number is rejected, and handed back in the error, where it is no UTC
/// date and time: every number up to [`MAX_DATETIME_MILLIS`] is accepted,
/// every greater one is rejected.
pub fn convert_timestamp_to_datetime(ts: u64) -> (r: Result<Timestamp, NoteError>)
    ensures
        match timestamp_of(ts) {
            Some(t) => r == Ok::<Timestamp, NoteError>(t),
            None => r == Err::<Timestamp, NoteError>(NoteError::InvalidTimestamp(ts)),
        },
        ts <= YEAR_9999_MILLIS ==> r == Ok::<Timestamp, NoteError>(Timestamp { millis: ts as i64 }),
        ts > i64::MAX ==> r == Err::<Timestamp, NoteError>(NoteError::InvalidTimestamp(ts)),
        r matches Ok(t) ==> t.wf() && t.millis == ts,
{
    if ts > 0x7fff_ffff_ffff_ffff {
        return Err(NoteError::InvalidTimestamp(ts));
    }
    let millis: i64 = ts as i64;
    if datetime_exists(millis) {
        Ok(Timestamp { millis })
    } else {
        Err(NoteError::InvalidTimestamp(ts))
    }
}

/// Every timestamp is what its own milliseconds are converted to.
pub proof fn lemma_timestamp_round_trip(t: Timestamp)
    requires
        t.wf(),
    ensures
        timestamp_of(t.millis as u64) == Some(t),
{
}

/// Every instant from the epoch to the year 9999 is a timestamp, and is what
/// its own milliseconds are converted to.
pub proof fn lemma_timestamps_to_year_9999(millis: i64)
    requires
        0 <= millis <= YEAR_9999_MILLIS,
    ensures
        (Timestamp { millis }).wf(),
        timestamp_of(millis as u64) == Some(Timestamp { millis }),
{
}

/// The ARGB colour that a signed 32-bit number of a JSON document stands for:
/// the same 32 bits, read as an unsigned number.
pub open spec fn color_of(signed: i32) -> u32 {
    signed as u32
}

/// The signed number that a JSON document writes for an ARGB colour.
pub open spec fn signed_of_color(color: u32) -> i32 {
    color as i32
}

/// Reads the signed number of a JSON colour field as an ARGB colour.
pub fn deserialize_color(color: i32) -> (r: u32)
    ensures
        r == color_of(color),
{
    #[verifier::truncate]
    (color as u32)
}

/// Every colour is read back from the signed number that stands for it.
pub proof fn lemma_color_round_trip(c: u32)
    ensures
        color_of(signed_of_color(c)) == c,
{
    assert((c as i32) as u32 == c) by (bit_vector);
}

/// Turns what the JSON codec made of `json_str` into the library's result: a
/// failure is kept together with the text that caused it.
pub fn parse_json<T>(parsed: Result<T, serde_json::Error>, json_str: &str) -> (r: Result<
    T,
    NoteError,
>)
    ensures
        parsed matches Ok(v) ==> r == Ok::<T, NoteError>(v),
        parsed matches Err(e) ==> (r matches Err(NoteError::Json { error, json_string }) && error
            == e && json_string@ == json_str@),
{
    match parsed {
        Ok(value) => Ok(value),
        Err(error) => Err(NoteError::Json { error, json_string: json_str.to_owned() }),
    }
}

/// The items of a list, the last one first.
pub fn reversed<T>(items: Vec<T>) -> (r: Vec<T>)
    ensures
        r@ == items@.reverse(),
{
    let mut rest = items;
    let mut r: Vec<T> = Vec::new();
    let ghost all = rest@;
    while rest.len() > 0
        invariant
            rest@.len() <= all.len(),
            rest@ == all.subrange(0, rest@.len() as int),
            r@.len() == all.len() - rest@.len(),
            forall|i: int| 0 <= i < r@.len() ==> r@[i] == all[all.len() - 1 - i],
        decreases rest@.len(),
    {
        let item = rest.pop().unwrap();
        r.push(item);
    }
    assert(r@ =~= all.reverse());
    r
}

} // verus!
