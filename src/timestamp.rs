//! Creation times read from EXIF text.
use vstd::prelude::*;

verus! {

/// The instant, in milliseconds since the Unix epoch (UTC), that chrono reads
/// from `text` under the strftime layout `layout`, or `None` where it cannot.
pub uninterp spec fn utc_millis_of(text: Seq<char>, layout: Seq<char>) -> Option<i64>;

/// Relies on chrono's `NaiveDateTime::parse_from_str` (read as UTC through
/// `and_utc`, then `timestamp_millis`): the result depends on the two strings alone.
#[verifier::external_body]
fn parse_utc_millis(text: &str, layout: &str) -> (r: Option<i64>)
    ensures
        r == utc_millis_of(text@, layout@),
{
    match chrono::NaiveDateTime::parse_from_str(text, layout) {
        Ok(dt) => Some(dt.and_utc().timestamp_millis()),
        Err(_) => None,
    }
}

/// The layout of EXIF's `DateTime` tag: `YYYY:MM:DD HH:MM:SS`.
pub open spec fn exif_layout() -> Seq<char> {
    "%Y:%m:%d %H:%M:%S"@
}

/// The millisecond value of a parse outcome: the epoch itself where the parse failed.
pub open spec fn millis_or_epoch(parsed: Option<i64>) -> i64 {
    match parsed {
        Some(m) => m,
        None => 0,
    }
}

/// An absolute instant, in milliseconds since the Unix epoch.
pub struct Timestamp {
    pub millis: i64,
}

impl Timestamp {
    /// The epoch itself, which also stands for a creation time that is missing
    /// or cannot be read.
    pub fn epoch() -> (r: Timestamp)
        ensures
            r.millis == 0,
    {
        Timestamp { millis: 0 }
    }

    /// The timestamp for a parse outcome: the parsed instant, or the epoch
    /// where parsing failed.
    pub fn from_parsed(parsed: Option<i64>) -> (r: Timestamp)
        ensures
            r.millis == millis_or_epoch(parsed),
    {
        match parsed {
            Some(m) => Timestamp { millis: m },
            None => Timestamp::epoch(),
        }
    }

    /// Reads EXIF creation-time text (`YYYY:MM:DD HH:MM:SS`, UTC). Text that
    /// does not parse gives the epoch: the two cannot be told apart afterwards.
    pub fn from_string(s: &str) -> (r: Timestamp)
        ensures
            r.millis == millis_or_epoch(utc_millis_of(s@, exif_layout())),
    {
        let parsed = parse_utc_millis(s, "%Y:%m:%d %H:%M:%S");
        Timestamp::from_parsed(parsed)
    }
}

impl PartialEq for Timestamp {
    fn eq(&self, other: &Timestamp) -> (r: bool) {
        self.millis == other.millis
    }
}

impl Eq for Timestamp {}

impl vstd::std_specs::cmp::PartialEqSpecImpl for Timestamp {
    open spec fn obeys_eq_spec() -> bool {
        true
    }

    open spec fn eq_spec(&self, other: &Timestamp) -> bool {
        self.millis == other.millis
    }
}

} // verus!
