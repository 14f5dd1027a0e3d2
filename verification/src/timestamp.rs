//! Instants in time and the parsing of timestamps given as text.

use vstd::prelude::*;

verus! {

/// Nanoseconds in one second.
pub const NANOS_PER_SECOND: u32 = 1_000_000_000;

/// Number of accepted timestamp formats.
pub const FORMAT_COUNT: usize = 6;

/// An instant: whole seconds since the Unix epoch, negative before it, and
/// the nanoseconds that have passed since that second began.
#[derive(Clone, Copy, Debug, PartialEq, Eq, Structural)]
pub struct Timestamp {
    pub seconds: i64,
    pub nanos: u32,
}

impl Timestamp {
    /// The fraction is less than one second.
    pub open spec fn wf(self) -> bool {
        self.nanos < NANOS_PER_SECOND
    }

    /// Nanoseconds from the Unix epoch to this instant.
    pub open spec fn since_epoch(self) -> int {
        self.seconds * 1_000_000_000 + self.nanos
    }

    /// The instant at the start of second `seconds`.
    pub fn from_seconds(seconds: i64) -> (instant: Timestamp)
        ensures
            instant == (Timestamp { seconds, nanos: 0 }),
            instant.wf(),
    {
        Timestamp { seconds, nanos: 0 }
    }
}

/// An instant given by its distance from the Unix epoch and the side of the
/// epoch on which it lies, the way a clock reading is taken apart.
#[derive(Clone, Copy, Debug, PartialEq, Eq, Structural)]
pub struct EpochOffset {
    /// The instant lies before the epoch.
    pub before: bool,
    /// Whole seconds of the distance.
    pub seconds: u64,
    /// Nanoseconds of the distance beyond the whole seconds.
    pub nanos: u32,
}

impl EpochOffset {
    /// The fraction is less than one second, and the epoch itself is not
    /// said to lie before the epoch.
    pub open spec fn wf(self) -> bool {
        &&& self.nanos < NANOS_PER_SECOND
        &&& self.before ==> self.seconds > 0 || self.nanos > 0
    }

    /// Nanoseconds from the Unix epoch to this instant, negative before it.
    pub open spec fn since_epoch(self) -> int {
        if self.before {
            -(self.seconds * 1_000_000_000 + self.nanos)
        } else {
            self.seconds * 1_000_000_000 + self.nanos
        }
    }
}

impl Timestamp {
    /// The instant at the given distance from the epoch, or `None` where
    /// its whole seconds do not fit the range of a timestamp.
    pub fn from_offset(offset: EpochOffset) -> (instant: Option<Timestamp>)
        ensures
            instant is Some <==> i64::MIN <= offset.since_epoch() / 1_000_000_000 <= i64::MAX,
            instant matches Some(t) ==> t.wf() && t.since_epoch() == offset.since_epoch(),
    {
        let distance: u128 = offset.seconds as u128 * 1_000_000_000 + offset.nanos as u128;
        let whole: u128 = distance / 1_000_000_000;
        let part: u128 = distance % 1_000_000_000;
        if !offset.before {
            if whole > 0x7fff_ffff_ffff_ffff {
                None
            } else {
                Some(Timestamp { seconds: whole as i64, nanos: part as u32 })
            }
        } else if part == 0 {
            if whole > 0x8000_0000_0000_0000 {
                None
            } else {
                let seconds: i128 = -(whole as i128);
                Some(Timestamp { seconds: seconds as i64, nanos: 0 })
            }
        } else {
            if whole >= 0x8000_0000_0000_0000 {
                None
            } else {
                let seconds: i128 = -(whole as i128) - 1;
                Some(Timestamp { seconds: seconds as i64, nanos: (1_000_000_000 - part) as u32 })
            }
        }
    }

    /// The distance of this instant from the epoch.
    pub fn to_offset(self) -> (offset: EpochOffset)
        ensures
            offset.wf(),
            offset.since_epoch() == self.since_epoch(),
    {
        let signed: i128 = self.seconds as i128 * 1_000_000_000 + self.nanos as i128;
        let before: bool = signed < 0;
        let distance: u128 = if before {
            (-signed) as u128
        } else {
            signed as u128
        };
        let whole: u128 = distance / 1_000_000_000;
        let part: u128 = distance % 1_000_000_000;
        EpochOffset { before, seconds: whole as u64, nanos: part as u32 }
    }
}

/// An instant taken apart into its distance from the epoch and put together
/// again is the same instant, to the nanosecond.
pub proof fn lemma_offset_round_trip(instant: Timestamp, offset: EpochOffset, back: Timestamp)
    requires
        instant.wf(),
        offset.wf(),
        back.wf(),
        offset.since_epoch() == instant.since_epoch(),
        back.since_epoch() == offset.since_epoch(),
    ensures
        back == instant,
        i64::MIN <= offset.since_epoch() / 1_000_000_000 <= i64::MAX,
{
}

/// Two distances from the epoch that denote the same instant are the same.
pub proof fn lemma_offset_unique(a: EpochOffset, b: EpochOffset)
    requires
        a.wf(),
        b.wf(),
        a.since_epoch() == b.since_epoch(),
    ensures
        a == b,
{
}

/// Why a timestamp could not be read.
#[derive(Clone, Copy, Debug, PartialEq, Eq, Structural)]
pub enum TimeError {
    /// The text matches none of the accepted formats.
    UnsupportedFormat,
}

/// The accepted formats, in the order in which they are tried: date and time
/// joined by `T`, by a space, or by nothing, each with and then without
/// milliseconds, and each ending in an offset from UTC.
pub open spec fn time_formats() -> Seq<Seq<char>> {
    seq![
        "%Y-%m-%dT%H:%M:%S.%3f%z"@,
        "%Y-%m-%dT%H:%M:%S%z"@,
        "%Y-%m-%d %H:%M:%S.%3f%z"@,
        "%Y-%m-%d %H:%M:%S%z"@,
        "%Y-%m-%d%H:%M:%S.%3f%z"@,
        "%Y-%m-%d%H:%M:%S%z"@,
    ]
}

/// The accepted format at `index`.
pub fn time_format(index: usize) -> (format: &'static str)
    requires
        index < FORMAT_COUNT,
    ensures
        format@ == time_formats()[index as int],
{
    if index == 0 {
        "%Y-%m-%dT%H:%M:%S.%3f%z"
    } else if index == 1 {
        "%Y-%m-%dT%H:%M:%S%z"
    } else if index == 2 {
        "%Y-%m-%d %H:%M:%S.%3f%z"
    } else if index == 3 {
        "%Y-%m-%d %H:%M:%S%z"
    } else if index == 4 {
        "%Y-%m-%d%H:%M:%S.%3f%z"
    } else {
        "%Y-%m-%d%H:%M:%S%z"
    }
}

/// What `chrono::DateTime::parse_from_str` makes of `text` under `format`:
/// `None` where it reports an error, else the instant it read, as whole
/// seconds since the Unix epoch and nanoseconds past that second.
pub uninterp spec fn chrono_parse(text: Seq<char>, format: Seq<char>) -> Option<(i64, u32)>;

/// Reads `text` as a date and time with an offset from UTC, laid out as
/// `format` says.
///
/// Calls `chrono::DateTime::parse_from_str` and hands back the instant it
/// read through `timestamp` and `timestamp_subsec_nanos`. The contract only
/// names that result; it claims nothing of its value. Taken on trust: that
/// the call depends on its two arguments alone.
#[verifier::external_body]
fn parse_with_format(text: &str, format: &str) -> (parsed: Option<(i64, u32)>)
    ensures
        parsed == chrono_parse(text@, format@),
{
    match chrono::DateTime::parse_from_str(text, format) {
        Ok(moment) => Some((moment.timestamp(), moment.timestamp_subsec_nanos())),
        Err(_) => None,
    }
}

/// What each accepted format makes of `text`, in order.
pub open spec fn format_results(text: Seq<char>) -> Seq<Option<(i64, u32)>> {
    Seq::new(FORMAT_COUNT as nat, |i: int| chrono_parse(text, time_formats()[i]))
}

/// The first result that is not `None`.
pub open spec fn first_match_of(results: Seq<Option<(i64, u32)>>) -> Option<(i64, u32)>
    decreases results.len(),
{
    if results.len() == 0 {
        None
    } else if results[0] is Some {
        results[0]
    } else {
        first_match_of(results.drop_first())
    }
}

/// The timestamp that a list of per-format results stands for: the first
/// match wins and is kept to the whole second, its fraction dropped. With no
/// match the format is unsupported.
pub open spec fn time_of(results: Seq<Option<(i64, u32)>>) -> Result<Timestamp, TimeError> {
    match first_match_of(results) {
        Some(parsed) => Ok(Timestamp { seconds: parsed.0, nanos: 0 }),
        None => Err(TimeError::UnsupportedFormat),
    }
}

/// Picks the timestamp out of the results of trying each format in turn.
pub fn first_match(results: &Vec<Option<(i64, u32)>>) -> (time: Result<Timestamp, TimeError>)
    ensures
        time == time_of(results@),
{
    let mut i: usize = 0;
    assert(results@.skip(0) =~= results@);
    while i < results.len()
        invariant
            i <= results.len(),
            first_match_of(results@.skip(i as int)) == first_match_of(results@),
        decreases results.len() - i,
    {
        let ghost rest = results@.skip(i as int);
        assert(rest[0] == results@[i as int]);
        assert(rest.drop_first() =~= results@.skip(i + 1));
        match results[i] {
            Some(parsed) => {
                return Ok(Timestamp::from_seconds(parsed.0));
            },
            None => {},
        }
        i = i + 1;
    }
    assert(results@.skip(i as int) =~= Seq::<Option<(i64, u32)>>::empty());
    Err(TimeError::UnsupportedFormat)
}

/// Reads a timestamp given as text.
///
/// The text is tried against each accepted format; the first that matches
/// gives the instant, kept to the whole second.
pub fn parse_time(time: &str) -> (parsed: Result<Timestamp, TimeError>)
    ensures
        parsed == time_of(format_results(time@)),
        parsed matches Ok(instant) ==> instant.wf(),
{
    let mut results: Vec<Option<(i64, u32)>> = Vec::new();
    let mut i: usize = 0;
    while i < FORMAT_COUNT
        invariant
            i <= FORMAT_COUNT,
            results@.len() == i,
            forall|j: int| 0 <= j < i ==> results@[j] == chrono_parse(time@, time_formats()[j]),
        decreases FORMAT_COUNT - i,
    {
        results.push(parse_with_format(time, time_format(i)));
        i = i + 1;
    }
    assert(results@ =~= format_results(time@));
    first_match(&results)
}

/// Keeping an instant to the whole second moves it back by exactly its
/// fraction: by less than one second where the fraction is less than one
/// second.
pub proof fn lemma_whole_second_tolerance(seconds: i64, nanos: u32)
    ensures
        ({
            let read = Timestamp { seconds, nanos };
            let kept = Timestamp { seconds, nanos: 0 };
            &&& time_of(seq![Some((seconds, nanos))]) == Ok::<Timestamp, TimeError>(kept)
            &&& read.since_epoch() - kept.since_epoch() == nanos
            &&& read.wf() ==> 0 <= read.since_epoch() - kept.since_epoch() < 1_000_000_000
        }),
{
}

} // verus!
