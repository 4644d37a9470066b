//! Progress of an encoder run, read from its diagnostic output.
//!
//! The encoder first says how long the media is (`Duration: 00:01:30.05`) and
//! then, again and again, how far it has come (`time=00:00:45.02`). Progress is
//! the second over the first, in millionths, and stays below one million for
//! as long as the encoder runs.

use crate::models::transcode::PROGRESS_CAP;
use crate::utils::decimal::{
    all_digits,
    digits_value,
    is_seconds,
    parse_digits,
    parse_seconds,
    seconds_micros,
};
use crate::utils::text::chars_of;
use vstd::arithmetic::div_mod::lemma_div_is_ordered;
use vstd::prelude::*;

verus! {

/// The line that tells the length of the media.
pub const DURATION_PATTERN: &'static str = r"Duration: (\d+):(\d+):(\d+\.\d+)";

/// The line that tells how far the encoder has come.
pub const TIME_PATTERN: &'static str = r"time=(\d+):(\d+):(\d+\.\d+)";

/// Microseconds in a minute.
pub const MICROS_PER_MINUTE: u64 = 60_000_000;

/// Microseconds in an hour.
pub const MICROS_PER_HOUR: u64 = 3_600_000_000;

/// What the first match of the regular expression `pattern` in `haystack`
/// captured: the text of every group, group 0 being the whole match, a group
/// that took no part being `None`. `None` where nothing matches or the pattern
/// is no regular expression.
pub uninterp spec fn regex_captures(pattern: Seq<char>, haystack: Seq<char>) -> Option<
    Seq<Option<Seq<char>>>,
>;

/// `regex::Regex::new` followed by `Regex::captures`: compiles `pattern`,
/// searches `haystack` for its first match and hands out the text of each
/// capture group. The result is named [`regex_captures`]; nothing more is
/// claimed of it.
#[verifier::external_body]
fn capture_groups(pattern: &str, haystack: &str) -> (groups: Option<Vec<Option<String>>>)
    ensures
        groups.deep_view() == regex_captures(pattern@, haystack@),
{
    let compiled = regex::Regex::new(pattern).ok()?;
    let found = compiled.captures(haystack)?;
    Some(found.iter().map(|group| group.map(|m| m.as_str().to_owned())).collect())
}

/// A number as far as it fits in 64 bits.
pub open spec fn fitting(value: Option<nat>) -> Option<u64> {
    match value {
        Some(n) => if n <= u64::MAX {
            Some(n as u64)
        } else {
            None
        },
        None => None,
    }
}

/// The microseconds that the captures of one of the two patterns stand for:
/// hours, minutes and seconds in groups 1 to 3. `None` unless there are
/// exactly these groups and each is a number.
pub open spec fn timecode_micros(groups: Seq<Option<Seq<char>>>) -> Option<nat> {
    if groups.len() == 4 && groups[1] is Some && groups[2] is Some && groups[3] is Some
        && all_digits(groups[1]->0) && all_digits(groups[2]->0) && is_seconds(groups[3]->0) {
        Some(
            digits_value(groups[1]->0) * 3_600_000_000 + digits_value(groups[2]->0) * 60_000_000
                + seconds_micros(groups[3]->0),
        )
    } else {
        None
    }
}

/// The time that a line tells under `pattern`, if it tells one.
pub open spec fn line_timecode(pattern: Seq<char>, line: Seq<char>) -> Option<u64> {
    match regex_captures(pattern, line) {
        Some(groups) => fitting(timecode_micros(groups)),
        None => None,
    }
}

fn parse_whole(text: &str) -> (value: Option<u64>)
    ensures
        match value {
            Some(v) => all_digits(text@) && v == digits_value(text@),
            None => !all_digits(text@) || digits_value(text@) > u64::MAX,
        },
{
    let chars = chars_of(text);
    proof {
        assert(chars@.subrange(0, chars.len() as int) =~= text@);
    }
    parse_digits(&chars, 0, chars.len())
}

/// Turns captured hours, minutes and seconds into microseconds:
/// [`timecode_micros`], as far as it fits.
pub fn timecode_of(groups: &Vec<Option<String>>) -> (micros: Option<u64>)
    ensures
        micros == fitting(timecode_micros(groups.deep_view())),
{
    if groups.len() != 4 {
        return None;
    }
    proof {
        let view = groups.deep_view();
        assert(view[1] == groups@[1].deep_view());
        assert(view[2] == groups@[2].deep_view());
        assert(view[3] == groups@[3].deep_view());
    }
    let (hours_text, minutes_text, seconds_text) = match (&groups[1], &groups[2], &groups[3]) {
        (Some(h), Some(m), Some(s)) => (h, m, s),
        _ => {
            return None;
        },
    };
    let hours = match parse_whole(hours_text.as_str()) {
        Some(h) => h,
        None => {
            return None;
        },
    };
    let minutes = match parse_whole(minutes_text.as_str()) {
        Some(m) => m,
        None => {
            return None;
        },
    };
    let seconds = match parse_seconds(seconds_text.as_str()) {
        Some(s) => s,
        None => {
            return None;
        },
    };
    let hour_part = match hours.checked_mul(MICROS_PER_HOUR) {
        Some(part) => part,
        None => {
            return None;
        },
    };
    let minute_part = match minutes.checked_mul(MICROS_PER_MINUTE) {
        Some(part) => part,
        None => {
            return None;
        },
    };
    match hour_part.checked_add(minute_part) {
        Some(sum) => sum.checked_add(seconds),
        None => None,
    }
}

/// The time that `line` tells under `pattern`: [`line_timecode`].
pub fn timecode_in_line(pattern: &str, line: &str) -> (micros: Option<u64>)
    ensures
        micros == line_timecode(pattern@, line@),
{
    match capture_groups(pattern, line) {
        Some(groups) => timecode_of(&groups),
        None => None,
    }
}

/// Progress in millionths: `current` over `duration`, rounded down and held at
/// [`PROGRESS_CAP`]. Without a duration there is no progress.
pub open spec fn progress_ratio(current: nat, duration: nat) -> nat {
    if duration == 0 {
        0
    } else if current * 1_000_000 / duration > PROGRESS_CAP {
        PROGRESS_CAP as nat
    } else {
        current * 1_000_000 / duration
    }
}

/// Computes [`progress_ratio`].
pub fn progress_of(current: u64, duration: u64) -> (progress: u32)
    ensures
        progress == progress_ratio(current as nat, duration as nat),
        progress <= PROGRESS_CAP,
{
    if duration == 0 {
        return 0;
    }
    let raw: u128 = (current as u128) * 1_000_000 / (duration as u128);
    if raw > PROGRESS_CAP as u128 {
        PROGRESS_CAP
    } else {
        raw as u32
    }
}

/// Progress never runs backwards while the encoder's clock runs forwards: for
/// one duration, a later time gives no smaller a progress.
pub proof fn lemma_progress_monotonic(earlier: nat, later: nat, duration: nat)
    requires
        earlier <= later,
    ensures
        progress_ratio(earlier, duration) <= progress_ratio(later, duration),
{
    if duration > 0 {
        lemma_div_is_ordered(
            (earlier * 1_000_000) as int,
            (later * 1_000_000) as int,
            duration as int,
        );
    }
}

/// Progress stays below 1.0, whatever the encoder prints.
pub proof fn lemma_progress_below_done(current: nat, duration: nat)
    ensures
        progress_ratio(current, duration) <= PROGRESS_CAP,
        progress_ratio(current, duration) < crate::models::transcode::PROGRESS_DONE,
{
}

/// The duration known after a line: the first positive one that was told.
pub open spec fn duration_after(known: Option<u64>, told: Option<u64>) -> Option<u64> {
    match known {
        Some(duration) => Some(duration),
        None => match told {
            Some(duration) => if duration > 0 {
                Some(duration)
            } else {
                None
            },
            None => None,
        },
    }
}

/// The progress to report after a line: none unless the line tells a time and
/// the duration is known.
pub open spec fn progress_after(duration: Option<u64>, time: Option<u64>) -> Option<u32> {
    match (duration, time) {
        (Some(duration), Some(time)) => Some(
            progress_ratio(time as nat, duration as nat) as u32,
        ),
        _ => None,
    }
}

/// What the monitor of one encoder run remembers between lines.
#[derive(Debug)]
pub struct ProgressTracker {
    duration: Option<u64>,
}

impl ProgressTracker {
    /// The length of the media in microseconds, once it is known.
    pub closed spec fn duration(&self) -> Option<u64> {
        self.duration
    }

    /// A tracker that knows no duration yet.
    pub fn new() -> (tracker: Self)
        ensures
            tracker.duration() is None,
    {
        ProgressTracker { duration: None }
    }

    /// The duration in microseconds, once it is known.
    pub fn known_duration(&self) -> (duration: Option<u64>)
        ensures
            duration == self.duration(),
    {
        self.duration
    }

    /// Takes in what one line told. The duration is set once, by the first
    /// line that tells a positive one; a time gives a progress as soon as the
    /// duration is known.
    pub fn advance(&mut self, told_duration: Option<u64>, told_time: Option<u64>) -> (progress:
        Option<u32>)
        ensures
            final(self).duration() == duration_after(old(self).duration(), told_duration),
            progress == progress_after(final(self).duration(), told_time),
    {
        if self.duration.is_none() {
            if let Some(duration) = told_duration {
                if duration > 0 {
                    self.duration = Some(duration);
                }
            }
        }
        match (self.duration, told_time) {
            (Some(duration), Some(time)) => Some(progress_of(time, duration)),
            _ => None,
        }
    }

    /// Takes in one line of the encoder's diagnostic output. A line that tells
    /// nothing, or tells it in a way that cannot be read, changes nothing and
    /// gives no progress.
    pub fn observe(&mut self, line: &str) -> (progress: Option<u32>)
        ensures
            final(self).duration() == duration_after(
                old(self).duration(),
                line_timecode(DURATION_PATTERN@, line@),
            ),
            progress == progress_after(final(self).duration(), line_timecode(TIME_PATTERN@, line@)),
    {
        let told_duration = if self.duration.is_none() {
            timecode_in_line(DURATION_PATTERN, line)
        } else {
            None
        };
        let told_time = timecode_in_line(TIME_PATTERN, line);
        self.advance(told_duration, told_time)
    }
}

} // verus!
