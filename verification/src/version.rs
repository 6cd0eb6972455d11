//! Version records: a version string and the moment it was created.

use vstd::prelude::*;
use time::format_description::well_known::Rfc3339;
use time::OffsetDateTime;

verus! {

/// A day of the proleptic Gregorian calendar.
#[derive(Clone, Copy, Debug, PartialEq, Eq, Structural)]
pub struct CalendarDate {
    pub year: i32,
    pub month: u8,
    pub day: u8,
}

/// A point in time together with the calendar day it falls on in the
/// offset it was written with.
///
/// Records are ordered by the point in time, and shown by the day. The
/// fields are taken as they are given: a timestamp read by this module has a
/// day that belongs to its instant, and nothing here relies on it.
#[derive(Clone, Copy, Debug, PartialEq, Eq, Structural)]
pub struct Timestamp {
    /// Whole seconds since 1970-01-01T00:00:00Z.
    pub seconds: i64,
    /// Nanoseconds within the second.
    pub nanosecond: u32,
    /// The day in the timestamp's own offset.
    pub date: CalendarDate,
}

/// One released version.
#[derive(Debug)]
pub struct VersionRecord {
    pub version: String,
    pub creation: Timestamp,
}

/// What a record says: the text of its version and when it was created.
pub struct Record {
    pub version: Seq<char>,
    pub creation: Timestamp,
}

impl View for VersionRecord {
    type V = Record;

    open spec fn view(&self) -> Record {
        Record { version: self.version@, creation: self.creation }
    }
}

/// What the records of a list say, in the order of the list.
pub open spec fn views(records: Seq<VersionRecord>) -> Seq<Record> {
    records.map_values(|record: VersionRecord| record@)
}

/// The UTC day on which the Unix time `seconds` falls, as
/// `OffsetDateTime::from_unix_timestamp` finds it; `None` for a time
/// outside the years that `time` represents.
pub uninterp spec fn utc_date(seconds: int) -> Option<CalendarDate>;

/// What `OffsetDateTime::parse` reads from `text` as an RFC 3339
/// timestamp; `None` where `text` is no such timestamp.
pub uninterp spec fn rfc3339_reading(text: Seq<char>) -> Option<Timestamp>;

/// Calls `OffsetDateTime::from_unix_timestamp` and takes the result apart.
/// The call fails only on a time out of range; on success the value is in
/// UTC, on the second `seconds`, with no fraction, and its day is the one
/// named `utc_date(seconds)`.
#[verifier::external_body]
fn read_unix(seconds: i64) -> (r: Option<Timestamp>)
    ensures
        match r {
            Some(t) => t.seconds == seconds && t.nanosecond == 0 && utc_date(seconds as int)
                == Some(t.date),
            None => utc_date(seconds as int) is None,
        },
{
    match OffsetDateTime::from_unix_timestamp(seconds) {
        Ok(t) => Some(
            Timestamp {
                seconds: t.unix_timestamp(),
                nanosecond: t.nanosecond(),
                date: CalendarDate { year: t.year(), month: u8::from(t.month()), day: t.day() },
            },
        ),
        Err(_) => None,
    }
}

/// Calls `OffsetDateTime::parse` with the RFC 3339 format and takes the
/// result apart. The result depends on `text` alone and is named
/// `rfc3339_reading(text)`.
#[verifier::external_body]
fn read_rfc3339(text: &str) -> (r: Option<Timestamp>)
    ensures
        r == rfc3339_reading(text@),
{
    match OffsetDateTime::parse(text, &Rfc3339) {
        Ok(t) => Some(
            Timestamp {
                seconds: t.unix_timestamp(),
                nanosecond: t.nanosecond(),
                date: CalendarDate { year: t.year(), month: u8::from(t.month()), day: t.day() },
            },
        ),
        Err(_) => None,
    }
}

/// The decimal digit for `d`.
pub open spec fn digit(d: int) -> char {
    (('0' as int) + d) as char
}

/// `n` in decimal, without leading zeros.
pub open spec fn decimal(n: nat) -> Seq<char>
    decreases n,
{
    if n < 10 {
        seq![digit(n as int)]
    } else {
        decimal(n / 10).push(digit((n % 10) as int))
    }
}

/// `n` in decimal, with zeros in front up to `width` characters.
pub open spec fn padded(n: nat, width: nat) -> Seq<char> {
    let digits = decimal(n);
    if digits.len() < width {
        crate::text::repeated('0', (width - digits.len()) as nat) + digits
    } else {
        digits
    }
}

impl CalendarDate {
    /// The day as `YYYY-MM-DD`: the year on four digits at least, behind a
    /// minus sign where it is negative, the month and the day on two.
    pub open spec fn text(self) -> Seq<char> {
        (if self.year < 0 {
            seq!['-']
        } else {
            Seq::<char>::empty()
        }) + padded((if self.year < 0 {
            -(self.year as int)
        } else {
            self.year as int
        }) as nat, 4) + seq!['-'] + padded(self.month as nat, 2) + seq!['-'] + padded(
            self.day as nat,
            2,
        )
    }

    /// Writes the day as `YYYY-MM-DD`.
    pub fn to_text(&self) -> (out: Vec<char>)
        ensures
            out@ == self.text(),
    {
        let mut out: Vec<char> = Vec::new();
        let year: i64 = self.year as i64;
        let magnitude: u32 = if year < 0 {
            out.push('-');
            (-year) as u32
        } else {
            year as u32
        };
        push_padded(&mut out, magnitude, 4);
        out.push('-');
        push_padded(&mut out, self.month as u32, 2);
        out.push('-');
        push_padded(&mut out, self.day as u32, 2);
        out
    }
}

/// The character for the digit `d`.
fn digit_char(d: u32) -> (c: char)
    requires
        d < 10,
    ensures
        c == digit(d as int),
{
    let code: u8 = 48 + (d as u8);
    code as char
}

/// The decimal digits of `n`.
fn decimal_digits(n: u32) -> (out: Vec<char>)
    ensures
        out@ == decimal(n as nat),
    decreases n,
{
    if n < 10 {
        let mut out: Vec<char> = Vec::new();
        out.push(digit_char(n));
        out
    } else {
        let mut out = decimal_digits(n / 10);
        out.push(digit_char(n % 10));
        out
    }
}

/// Appends `n` in decimal on `width` characters at least.
fn push_padded(out: &mut Vec<char>, n: u32, width: usize)
    ensures
        final(out)@ == old(out)@ + padded(n as nat, width as nat),
{
    let digits = decimal_digits(n);
    if digits.len() < width {
        crate::text::push_repeated(out, '0', width - digits.len());
    }
    crate::text::push_all(out, &digits);
    assert(final(out)@ == old(out)@ + padded(n as nat, width as nat)) by {
        let zeros = crate::text::repeated('0', (width - digits.len()) as nat);
        if digits.len() < width {
            assert((old(out)@ + zeros) + digits@ == old(out)@ + (zeros + digits@));
        }
    }
}

impl Timestamp {
    /// Nanoseconds since 1970-01-01T00:00:00Z.
    pub open spec fn instant(self) -> int {
        self.seconds as int * 1_000_000_000 + self.nanosecond as int
    }

    /// The timestamp of the Unix time `seconds`, in UTC. `None` where the
    /// time lies outside the years that can be represented.
    pub fn from_unix(seconds: i64) -> (r: Option<Timestamp>)
        ensures
            match r {
                Some(t) => t.seconds == seconds && t.nanosecond == 0 && utc_date(seconds as int)
                    == Some(t.date),
                None => utc_date(seconds as int) is None,
            },
    {
        read_unix(seconds)
    }

    /// Reads an RFC 3339 timestamp. `None` where `text` is none.
    pub fn parse_rfc3339(text: &str) -> (r: Option<Timestamp>)
        ensures
            r == rfc3339_reading(text@),
    {
        read_rfc3339(text)
    }

    /// Tells whether `self` is no earlier than `other`.
    pub fn not_before(&self, other: &Timestamp) -> (b: bool)
        ensures
            b == (self.instant() >= other.instant()),
    {
        let a: i128 = (self.seconds as i128) * 1_000_000_000 + (self.nanosecond as i128);
        let b: i128 = (other.seconds as i128) * 1_000_000_000 + (other.nanosecond as i128);
        a >= b
    }
}

impl VersionRecord {
    /// A copy of the record.
    pub fn duplicate(&self) -> (r: VersionRecord)
        ensures
            r == *self,
    {
        VersionRecord { version: self.version.clone(), creation: self.creation }
    }
}

} // verus!
