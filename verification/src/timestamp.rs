//! Points in time and their textual form.

use vstd::prelude::*;

verus! {

/// A point in time as it was written down: the instant, and the offset from
/// UTC of the clock that showed it.
#[derive(Clone, Copy, Debug, PartialEq, Eq, Structural)]
pub struct Timestamp {
    /// Nanoseconds since the Unix epoch.
    pub unix_nanos: i128,
    /// Seconds east of UTC.
    pub offset_seconds: i32,
}

/// What formatting a point in time as RFC 3339 gives: the text, or why there
/// is none.
pub uninterp spec fn rfc3339_text(unix_nanos: i128, offset_seconds: i32) -> Result<
    Seq<char>,
    Seq<char>,
>;

/// What reading an RFC 3339 text gives: nanoseconds since the Unix epoch and
/// seconds east of UTC, or why it cannot be read.
pub uninterp spec fn rfc3339_time(text: Seq<char>) -> Result<(i128, i32), Seq<char>>;

/// The texts of a result.
pub open spec fn text_result(res: Result<String, String>) -> Result<Seq<char>, Seq<char>> {
    match res {
        Ok(s) => Ok(s@),
        Err(e) => Err(e@),
    }
}

/// The time or the error text of a result.
pub open spec fn time_result(res: Result<(i128, i32), String>) -> Result<(i128, i32), Seq<char>> {
    match res {
        Ok(t) => Ok(t),
        Err(e) => Err(e@),
    }
}

/// Reading `text` gives this instant and offset.
pub open spec fn reads_back(text: Seq<char>, unix_nanos: i128, offset_seconds: i32) -> bool {
    rfc3339_time(text) matches Ok(t) && t == (unix_nanos, offset_seconds)
}

/// `time::OffsetDateTime::format` with the well-known description `Rfc3339`,
/// on the point in time that has this instant and this offset. The result is
/// a function of the two numbers. Formatting writes the date, the time with
/// all its subsecond digits and the offset, and refuses what these cannot
/// express (a year outside 0 to 9999, an offset with seconds), so that reading
/// a text it wrote gives the same instant and offset back. A number outside
/// what the crate can hold is an error as well.
#[verifier::external_body]
fn write_rfc3339(unix_nanos: i128, offset_seconds: i32) -> (res: Result<String, String>)
    ensures
        text_result(res) == rfc3339_text(unix_nanos, offset_seconds),
        res matches Ok(s) ==> reads_back(s@, unix_nanos, offset_seconds),
{
    let utc = time::OffsetDateTime::from_unix_timestamp_nanos(unix_nanos).map_err(
        |e| e.to_string(),
    )?;
    let offset = time::UtcOffset::from_whole_seconds(offset_seconds).map_err(|e| e.to_string())?;
    let local = utc.checked_to_offset(offset).ok_or_else(
        || time::error::Format::InvalidComponent("offset").to_string(),
    )?;
    local.format(&time::format_description::well_known::Rfc3339).map_err(|e| e.to_string())
}

/// `time::OffsetDateTime::parse` with the well-known description `Rfc3339`.
/// The result is a function of the text.
#[verifier::external_body]
fn read_rfc3339(text: &str) -> (res: Result<(i128, i32), String>)
    ensures
        time_result(res) == rfc3339_time(text@),
{
    time::OffsetDateTime::parse(text, &time::format_description::well_known::Rfc3339).map(
        |t| (t.unix_timestamp_nanos(), t.offset().whole_seconds()),
    ).map_err(|e| e.to_string())
}

impl Timestamp {
    /// The RFC 3339 text of this point in time.
    pub open spec fn text(self) -> Result<Seq<char>, Seq<char>> {
        rfc3339_text(self.unix_nanos, self.offset_seconds)
    }

    /// The point in time that an RFC 3339 text stands for.
    pub open spec fn of_text(text: Seq<char>) -> Result<Timestamp, Seq<char>> {
        match rfc3339_time(text) {
            Ok((unix_nanos, offset_seconds)) => Ok(Timestamp { unix_nanos, offset_seconds }),
            Err(e) => Err(e),
        }
    }

    /// Write this point in time as RFC 3339. What was written reads back as
    /// the same point in time.
    pub fn format(&self) -> (res: Result<String, String>)
        ensures
            text_result(res) == self.text(),
            res matches Ok(s) ==> Timestamp::of_text(s@) == Ok::<Timestamp, Seq<char>>(*self),
    {
        write_rfc3339(self.unix_nanos, self.offset_seconds)
    }

    /// Read an RFC 3339 text.
    pub fn parse(text: &str) -> (res: Result<Timestamp, String>)
        ensures
            match res {
                Ok(t) => Timestamp::of_text(text@) == Ok::<Timestamp, Seq<char>>(t),
                Err(e) => Timestamp::of_text(text@) == Err::<Timestamp, Seq<char>>(e@),
            },
    {
        match read_rfc3339(text) {
            Ok((unix_nanos, offset_seconds)) => Ok(Timestamp { unix_nanos, offset_seconds }),
            Err(e) => Err(e),
        }
    }
}

} // verus!
