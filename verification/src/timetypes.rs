//! Times in milliseconds, spans of time, and subtitle entries.

use vstd::prelude::*;

verus! {

/// A signed length of time in milliseconds. It may be negative: a shift
/// towards the origin of the timeline.
#[derive(Clone, Copy, Debug, PartialEq, Eq, Structural)]
pub struct TimeDelta {
    pub msecs: i64,
}

/// A point on the media timeline, in milliseconds from its origin. Points
/// before the origin are representable; they arise when a shift is applied.
#[derive(Clone, Copy, Debug, PartialEq, Eq, Structural)]
pub struct TimePoint {
    pub msecs: i64,
}

/// The time during which a subtitle is shown.
#[derive(Clone, Copy, Debug, PartialEq, Eq, Structural)]
pub struct TimeSpan {
    pub start: TimePoint,
    pub end: TimePoint,
}

/// One subtitle: a span and the text shown during it, if there is any.
#[derive(Clone, Debug, PartialEq, Eq)]
pub struct SubtitleEntry {
    pub timespan: TimeSpan,
    pub line: Option<String>,
}

/// The mathematical value of a `TimeSpan`: two unbounded integers.
pub struct SpanView {
    pub start: int,
    pub end: int,
}

impl SpanView {
    /// True when the span does not end before it starts.
    pub open spec fn ordered(self) -> bool {
        self.start <= self.end
    }
}

/// The mathematical value of a `SubtitleEntry`.
pub struct EntryView {
    pub span: SpanView,
    pub line: Option<Seq<char>>,
}

impl View for TimeDelta {
    type V = int;

    open spec fn view(&self) -> int {
        self.msecs as int
    }
}

impl View for TimePoint {
    type V = int;

    open spec fn view(&self) -> int {
        self.msecs as int
    }
}

impl View for TimeSpan {
    type V = SpanView;

    open spec fn view(&self) -> SpanView {
        SpanView { start: self.start@, end: self.end@ }
    }
}

impl View for SubtitleEntry {
    type V = EntryView;

    open spec fn view(&self) -> EntryView {
        EntryView {
            span: self.timespan@,
            line: match self.line {
                Some(text) => Some(text@),
                None => None,
            },
        }
    }
}

/// The values of a sequence of entries, in the same order.
pub open spec fn entry_views(entries: Seq<SubtitleEntry>) -> Seq<EntryView> {
    entries.map_values(|e: SubtitleEntry| e@)
}

impl SubtitleEntry {
    /// The subtitle shown from `start` to `end`, both in milliseconds, with
    /// the text `line`.
    pub fn new(start: i64, end: i64, line: Option<String>) -> (entry: SubtitleEntry)
        ensures
            entry.timespan.start.msecs == start,
            entry.timespan.end.msecs == end,
            entry.line == line,
    {
        SubtitleEntry {
            timespan: TimeSpan { start: TimePoint { msecs: start }, end: TimePoint { msecs: end } },
            line,
        }
    }
}

impl TimeDelta {
    /// The length of time of `msecs` milliseconds.
    pub fn from_msecs(msecs: i64) -> (delta: TimeDelta)
        ensures
            delta@ == msecs,
    {
        TimeDelta { msecs }
    }

    /// The length in milliseconds.
    pub fn msecs(&self) -> (msecs: i64)
        ensures
            msecs == self@,
    {
        self.msecs
    }
}

impl TimePoint {
    /// The point `msecs` milliseconds after the origin.
    pub fn from_msecs(msecs: i64) -> (point: TimePoint)
        ensures
            point@ == msecs,
    {
        TimePoint { msecs }
    }

    /// The milliseconds from the origin to the point.
    pub fn msecs(&self) -> (msecs: i64)
        ensures
            msecs == self@,
    {
        self.msecs
    }
}

} // verus!
