//! Points in time with a UTC offset, and their RFC 3339 form.
use crate::text::concat3;
use vstd::prelude::*;

verus! {

pub const NANOS_PER_SECOND: i128 = 1_000_000_000;

/// The first nanosecond of the year 0 on the local clock.
pub const FIRST_FORMATTABLE: i128 = -62_167_219_200_000_000_000;

/// The last nanosecond of the year 9999 on the local clock.
pub const LAST_FORMATTABLE: i128 = 253_402_300_799_999_999_999;

/// A point in time: what a local clock shows, in nanoseconds since
/// 1970-01-01T00:00:00 on that clock, and the clock's offset from UTC.
#[derive(Debug, Clone, Copy, PartialEq, Eq, Structural)]
pub struct Timestamp {
    pub local_nanos: i128,
    pub offset_seconds: i32,
}

/// Whether RFC 3339 can express the local time and the offset: a year of four
/// digits, an offset of whole minutes below a day.
pub open spec fn formattable(local_nanos: i128, offset_seconds: i32) -> bool {
    &&& FIRST_FORMATTABLE <= local_nanos <= LAST_FORMATTABLE
    &&& -86_400 < offset_seconds < 86_400
    &&& offset_seconds as int % 60 == 0
}

/// What `time::OffsetDateTime::format` with `Rfc3339` writes.
pub uninterp spec fn rfc3339_text(local_nanos: i128, offset_seconds: i32) -> Seq<char>;

/// What `time::OffsetDateTime::parse` with `Rfc3339` reads: local time and
/// offset, or the text of the error.
pub uninterp spec fn rfc3339_parsed(text: Seq<char>) -> Result<(i128, i32), Seq<char>>;

/// A result with the error taken by its text.
pub open spec fn rfc3339_result(r: Result<(i128, i32), String>) -> Result<(i128, i32), Seq<char>> {
    match r {
        Ok(value) => Ok(value),
        Err(message) => Err(message@),
    }
}

/// `time::OffsetDateTime::format` with `Rfc3339`, on the date and time that the
/// local clock shows with the offset beside it. Formatting fails only on a year
/// or an offset that is left out here, and the result is a function of the two
/// values, here called `rfc3339_text`.
#[verifier::external_body]
fn format_rfc3339(local_nanos: i128, offset_seconds: i32) -> (text: String)
    requires
        formattable(local_nanos, offset_seconds),
    ensures
        text@ == rfc3339_text(local_nanos, offset_seconds),
{
    let offset = time::UtcOffset::from_whole_seconds(offset_seconds).expect("offset below a day");
    time::OffsetDateTime::from_unix_timestamp_nanos(local_nanos)
        .expect("a year of four digits")
        .replace_offset(offset)
        .format(&time::format_description::well_known::Rfc3339)
        .expect("RFC3339 formatting should succeed")
}

/// `time::OffsetDateTime::parse` with `Rfc3339`: its result is a function of
/// the text, here called `rfc3339_parsed`; the error is handed on as the text
/// that its `Display` gives. What is read has a year of four digits and an
/// offset of whole minutes below a day, and what `format` wrote is read back.
#[verifier::external_body]
fn parse_rfc3339(text: &str) -> (r: Result<(i128, i32), String>)
    ensures
        rfc3339_result(r) == rfc3339_parsed(text@),
        r matches Ok(value) ==> formattable(value.0, value.1),
        forall|l: i128, o: i32|
            formattable(l, o) && text@ == #[trigger] rfc3339_text(l, o) ==> (r is Ok && r->Ok_0 == (l, o)),
{
    match time::OffsetDateTime::parse(text, &time::format_description::well_known::Rfc3339) {
        Ok(value) => Ok((
            value.replace_offset(time::UtcOffset::UTC).unix_timestamp_nanos(),
            value.offset().whole_seconds(),
        )),
        Err(error) => Err(error.to_string()),
    }
}

impl Timestamp {
    /// Nanoseconds since 1970-01-01T00:00:00 UTC.
    pub open spec fn unix(self) -> int {
        self.local_nanos - self.offset_seconds * 1_000_000_000
    }

    /// Whether the timestamp has an RFC 3339 form.
    pub open spec fn formattable(self) -> bool {
        formattable(self.local_nanos, self.offset_seconds)
    }

    /// The RFC 3339 form.
    pub open spec fn rfc3339(self) -> Seq<char> {
        rfc3339_text(self.local_nanos, self.offset_seconds)
    }

    /// The point in time `nanos` nanoseconds after the Unix epoch, in UTC.
    pub fn utc(nanos: i128) -> (r: Timestamp)
        ensures
            r.local_nanos == nanos,
            r.offset_seconds == 0,
            r.unix() == nanos,
    {
        Timestamp { local_nanos: nanos, offset_seconds: 0 }
    }

    /// Nanoseconds since the Unix epoch.
    pub fn unix_nanos(&self) -> (r: i128)
        requires
            self.formattable(),
        ensures
            r == self.unix(),
    {
        self.local_nanos - self.offset_seconds as i128 * NANOS_PER_SECOND
    }

    /// Whether the timestamp is at or after another one.
    pub fn is_not_before(&self, other: &Timestamp) -> (r: bool)
        ensures
            r == (self.unix() >= other.unix()),
    {
        let shift: i128 = (self.offset_seconds as i128 - other.offset_seconds as i128)
            * NANOS_PER_SECOND;
        match self.local_nanos.checked_sub(other.local_nanos) {
            Some(distance) => distance >= shift,
            None => self.local_nanos > other.local_nanos,
        }
    }

    /// Whether the timestamp has an RFC 3339 form.
    pub fn is_formattable(&self) -> (r: bool)
        ensures
            r == self.formattable(),
    {
        FIRST_FORMATTABLE <= self.local_nanos && self.local_nanos <= LAST_FORMATTABLE
            && -86_400 < self.offset_seconds && self.offset_seconds < 86_400
            && self.offset_seconds % 60 == 0
    }
}

/// The RFC 3339 form of a timestamp.
pub fn format_timestamp(timestamp: Timestamp) -> (r: String)
    requires
        timestamp.formattable(),
    ensures
        r@ == timestamp.rfc3339(),
{
    format_rfc3339(timestamp.local_nanos, timestamp.offset_seconds)
}

/// The message for a stored timestamp that cannot be read.
pub open spec fn timestamp_message(value: Seq<char>, error: Seq<char>) -> Seq<char> {
    "invalid stored RFC3339 timestamp '"@ + value + "': "@ + error
}

/// Reads a stored RFC 3339 timestamp.
pub fn parse_timestamp(value: &str) -> (r: Result<Timestamp, String>)
    ensures
        r is Ok == rfc3339_parsed(value@) is Ok,
        r matches Ok(t) ==> rfc3339_parsed(value@) == Ok::<(i128, i32), Seq<char>>(
            (t.local_nanos, t.offset_seconds),
        ) && t.formattable(),
        r matches Err(message) ==> rfc3339_parsed(value@) is Err && message@ == timestamp_message(
            value@,
            rfc3339_parsed(value@)->Err_0,
        ),
        forall|t: Timestamp|
            t.formattable() && value@ == #[trigger] t.rfc3339() ==> r == Ok::<Timestamp, String>(t),
{
    match parse_rfc3339(value) {
        Ok((local_nanos, offset_seconds)) => Ok(Timestamp { local_nanos, offset_seconds }),
        Err(error) => Err(
            concat3("invalid stored RFC3339 timestamp '", value, "': ").concat(error.as_str()),
        ),
    }
}

/// The same moment is the same on every clock: an offset moves what the local clock shows,
/// and not the moment.
pub proof fn law_offsets_do_not_move_the_moment(unix: i128, offset_seconds: i32)
    requires
        i128::MIN / 2 <= unix <= i128::MAX / 2,
    ensures
        (Timestamp {
            local_nanos: (unix + offset_seconds * 1_000_000_000) as i128,
            offset_seconds,
        }).unix() == unix,
        (Timestamp { local_nanos: unix, offset_seconds: 0 }).unix() == unix,
{
}

} // verus!
