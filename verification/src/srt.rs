//! SubRip text, read and written by the `subparse` crate.

use crate::timestamp::is_digit;
use crate::timetypes::{entry_views, EntryView, SpanView, SubtitleEntry, TimeSpan};
use subparse::SrtFile;
use subparse::SubtitleFileInterface;
use vstd::prelude::*;

verus! {

/// The error type of `subparse`. Nothing is read from it: it says only that
/// a call failed.
#[verifier::external_type_specification]
#[verifier::external_body]
pub struct ExSubparseError(subparse::errors::Error);

/// Why the text of a SubRip file could not be read.
#[derive(Clone, Copy, Debug, PartialEq, Eq, Structural)]
pub enum SrtError {
    /// The text holds a run of more than `MAX_DIGITS` digits.
    NumberTooLong,
    /// `subparse` does not accept the text as a SubRip file.
    Syntax,
}

/// The longest run of digits that text handed to `subparse` may hold.
pub const MAX_DIGITS: usize = 12;

/// True when the characters of `text` from `from` to `from + limit`, one
/// more than `limit` of them, exist and are all digits.
pub open spec fn run_exceeds(text: Seq<char>, from: int, limit: int) -> bool {
    &&& from + limit < text.len()
    &&& forall|k: int| from <= k <= from + limit ==> is_digit(#[trigger] text[k])
}

/// True when no run of digits in `text` is longer than `limit`.
pub open spec fn numbers_within(text: Seq<char>, limit: int) -> bool {
    forall|from: int| 0 <= from ==> !#[trigger] run_exceeds(text, from, limit)
}

/// The least number that takes more than `MAX_DIGITS` digits to write.
pub open spec fn beyond_digits() -> int {
    1_000_000_000_000
}

/// True when `n`, written without its sign, has at most `MAX_DIGITS` digits.
pub open spec fn is_short(n: int) -> bool {
    -beyond_digits() < n < beyond_digits()
}

/// The bound on runs of digits is enough for the timestamps of a timing
/// line: from hours, minutes, seconds and milliseconds of at most
/// `MAX_DIGITS` digits each, the count `ms + 1000 * (s + 60 * (m + 60 * h))`
/// and every step on the way to it stay within `i64`.
pub proof fn lemma_short_numbers_fit(h: int, m: int, s: int, ms: int)
    requires
        is_short(h),
        is_short(m),
        is_short(s),
        is_short(ms),
    ensures
        i64::MIN <= 60 * h <= i64::MAX,
        i64::MIN <= m + 60 * h <= i64::MAX,
        i64::MIN <= 60 * (m + 60 * h) <= i64::MAX,
        i64::MIN <= s + 60 * (m + 60 * h) <= i64::MAX,
        i64::MIN <= 1000 * (s + 60 * (m + 60 * h)) <= i64::MAX,
        i64::MIN <= ms + 1000 * (s + 60 * (m + 60 * h)) <= i64::MAX,
{
}

/// The subtitles that `subparse` reads from the text of a SubRip file, or
/// `None` where it rejects the text.
pub uninterp spec fn srt_parsed(content: Seq<char>) -> Option<Seq<EntryView>>;

/// The bytes of the SubRip file that `subparse` writes for the given spans
/// and texts, or `None` where it writes none.
pub uninterp spec fn srt_written(parts: Seq<(SpanView, Seq<char>)>) -> Option<Seq<u8>>;

/// What a subtitle contributes to a SubRip file: its span and its text, where
/// a subtitle without text contributes the empty text.
pub open spec fn text_part(entry: EntryView) -> (SpanView, Seq<char>) {
    (
        entry.span,
        match entry.line {
            Some(text) => text,
            None => Seq::empty(),
        },
    )
}

/// The parts of a sequence of subtitles, in the same order.
pub open spec fn text_parts(entries: Seq<EntryView>) -> Seq<(SpanView, Seq<char>)> {
    entries.map_values(|e: EntryView| text_part(e))
}

/// The values of a sequence of parts, in the same order.
pub open spec fn part_views(parts: Seq<(TimeSpan, String)>) -> Seq<(SpanView, Seq<char>)> {
    parts.map_values(|p: (TimeSpan, String)| (p.0@, p.1@))
}

/// Pairs each subtitle's span with its text, the empty text where it has none.
pub fn srt_parts(entries: Vec<SubtitleEntry>) -> (parts: Vec<(TimeSpan, String)>)
    ensures
        part_views(parts@) == text_parts(entry_views(entries@)),
        parts@.len() == entries@.len(),
        forall|i: int|
            0 <= i < parts@.len() ==> (#[trigger] parts@[i]).0 == entries@[i].timespan && parts@[i].1@
                == text_part(entries@[i]@).1,
{
    let ghost all = entries@;
    let mut parts: Vec<(TimeSpan, String)> = Vec::new();
    for entry in it: entries.into_iter()
        invariant
            it.seq() == all,
            part_views(parts@) == text_parts(entry_views(all.take(it.index() as int))),
            parts@.len() == it.index(),
            forall|i: int|
                0 <= i < parts@.len() ==> (#[trigger] parts@[i]).0 == all[i].timespan && parts@[i].1@
                    == text_part(all[i]@).1,
    {
        let ghost before = parts@;
        let ghost seen = all.take(it.index());
        assert(all.take(it.index() + 1) =~= seen.push(entry));
        let SubtitleEntry { timespan, line } = entry;
        let text = match line {
            Some(text) => text,
            None => String::new(),
        };
        parts.push((timespan, text));
        assert(part_views(parts@) =~= part_views(before).push(text_part(entry@)));
        assert(text_parts(entry_views(seen.push(entry))) =~= text_parts(entry_views(seen)).push(
            text_part(entry@),
        ));
    }
    assert(all.take(all.len() as int) =~= all);
    parts
}

/// Tells whether every run of digits in `content` has at most `MAX_DIGITS`
/// digits.
pub fn numbers_fit(content: &str) -> (fit: bool)
    ensures
        fit == numbers_within(content@, MAX_DIGITS as int),
{
    let mut run: usize = 0;
    for c in it: content.chars()
        invariant
            it.seq() == content@,
            run <= MAX_DIGITS,
            run <= it.index(),
            forall|k: int| it.index() - run <= k < it.index() ==> is_digit(#[trigger] content@[k]),
            run < it.index() ==> !is_digit(content@[it.index() - run - 1]),
            forall|from: int|
                0 <= from && from + MAX_DIGITS < it.index() ==> !#[trigger] run_exceeds(
                    content@,
                    from,
                    MAX_DIGITS as int,
                ),
    {
        if '0' <= c && c <= '9' {
            if run == MAX_DIGITS {
                assert(run_exceeds(content@, it.index() - MAX_DIGITS, MAX_DIGITS as int));
                return false;
            }
            run = run + 1;
            assert forall|from: int|
                0 <= from && from + MAX_DIGITS < it.index() + 1 implies !#[trigger] run_exceeds(
                content@,
                from,
                MAX_DIGITS as int,
            ) by {
                if from + MAX_DIGITS == it.index() {
                    assert(!is_digit(content@[it.index() - run]));
                }
            }
        } else {
            run = 0;
            assert forall|from: int|
                0 <= from && from + MAX_DIGITS < it.index() + 1 implies !#[trigger] run_exceeds(
                content@,
                from,
                MAX_DIGITS as int,
            ) by {
                if from + MAX_DIGITS == it.index() {
                    assert(!is_digit(content@[it.index()]));
                }
            }
        }
    }
    true
}

/// `subparse::SrtFile::parse` on the text, then
/// `SubtitleFileInterface::get_subtitle_entries` on the file it gives, each
/// entry handed out as a `SubtitleEntry` of this library with the same
/// milliseconds and the same text. Trusted: the result is what `subparse`
/// reads from this text, the same for the same text, and an error where it
/// rejects the text. The bound on runs of digits keeps the numbers of a
/// timing line, and the milliseconds computed from them, within `i64`;
/// `subparse` panics beyond it.
#[verifier::external_body]
fn read_entries(content: &str) -> (read: Result<Vec<SubtitleEntry>, subparse::errors::Error>)
    requires
        numbers_within(content@, MAX_DIGITS as int),
    ensures
        match read {
            Ok(entries) => srt_parsed(content@) == Some(entry_views(entries@)),
            Err(_) => srt_parsed(content@) is None,
        },
{
    let entries = SrtFile::parse(content)?.get_subtitle_entries()?;
    Ok(
        entries.into_iter().map(
            |e| SubtitleEntry::new(e.timespan.start.msecs(), e.timespan.end.msecs(), e.line),
        ).collect(),
    )
}

/// `subparse::SrtFile::create` on the parts, each span handed over with the
/// same milliseconds, then `SubtitleFileInterface::to_data` on the file it
/// gives. Trusted: the result is what `subparse` writes for these spans and
/// texts, the same for the same parts, and an error where it writes nothing.
#[verifier::external_body]
fn write_parts(parts: Vec<(TimeSpan, String)>) -> (written: Result<
    Vec<u8>,
    subparse::errors::Error,
>)
    ensures
        match written {
            Ok(data) => srt_written(part_views(parts@)) == Some(data@),
            Err(_) => srt_written(part_views(parts@)) is None,
        },
{
    let lines = parts.into_iter().map(
        |p| (
            subparse::timetypes::TimeSpan::new(
                subparse::timetypes::TimePoint::from_msecs(p.0.start.msecs),
                subparse::timetypes::TimePoint::from_msecs(p.0.end.msecs),
            ),
            p.1,
        ),
    ).collect();
    SrtFile::create(lines)?.to_data()
}

/// Reads the subtitles of a SubRip file from its text.
///
/// Text with a run of more than `MAX_DIGITS` digits is refused unread; any
/// other text is handed to `subparse`, and is a syntax error where
/// `subparse` rejects it.
pub fn parse_srt(content: &str) -> (parsed: Result<Vec<SubtitleEntry>, SrtError>)
    ensures
        match parsed {
            Ok(entries) => numbers_within(content@, MAX_DIGITS as int) && srt_parsed(content@)
                == Some(entry_views(entries@)),
            Err(SrtError::NumberTooLong) => !numbers_within(content@, MAX_DIGITS as int),
            Err(SrtError::Syntax) => numbers_within(content@, MAX_DIGITS as int) && srt_parsed(
                content@,
            ) is None,
        },
{
    if !numbers_fit(content) {
        return Err(SrtError::NumberTooLong);
    }
    match read_entries(content) {
        Ok(entries) => Ok(entries),
        Err(_) => Err(SrtError::Syntax),
    }
}

/// Writes the subtitles as the bytes of a SubRip file: each subtitle with
/// its span and its text, the empty text where it has none. The result is
/// `None` where `subparse` writes no file for them.
pub fn srt_data(entries: Vec<SubtitleEntry>) -> (written: Option<Vec<u8>>)
    ensures
        match written {
            Some(data) => srt_written(text_parts(entry_views(entries@))) == Some(data@),
            None => srt_written(text_parts(entry_views(entries@))) is None,
        },
{
    match write_parts(srt_parts(entries)) {
        Ok(data) => Some(data),
        Err(_) => None,
    }
}

} // verus!
