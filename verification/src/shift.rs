//! Moving the subtitles of a sequence in time, and dropping those that leave
//! the window between the origin of the timeline and a cutoff.

use crate::timetypes::{
    entry_views, EntryView, SpanView, SubtitleEntry, TimeDelta, TimePoint, TimeSpan,
};
use vstd::prelude::*;

verus! {

/// The entry moved by `delta`: both ends of its span advance by the same
/// amount, and its text stays as it is.
pub open spec fn moved(entry: EntryView, delta: int) -> EntryView {
    EntryView {
        span: SpanView { start: entry.span.start + delta, end: entry.span.end + delta },
        line: entry.line,
    }
}

/// True when the entry is not kept: moved by `delta` it would start before
/// the origin, or it ends, before it is moved, at or after `end`.
pub open spec fn dropped(entry: EntryView, delta: int, end: int) -> bool {
    entry.span.start + delta < 0 || entry.span.end >= end
}

/// What becomes of one entry: nothing where it is dropped, else the moved
/// entry.
pub open spec fn shift_one(entry: EntryView, delta: int, end: int) -> Option<EntryView> {
    if dropped(entry, delta, end) {
        None
    } else {
        Some(moved(entry, delta))
    }
}

/// The sequence that shifting yields: each entry of `entries` that is kept,
/// moved by `delta`, in the order of `entries`.
pub open spec fn shifted(entries: Seq<EntryView>, delta: int, end: int) -> Seq<EntryView> {
    entries.filter_map(|e: EntryView| shift_one(e, delta, end))
}

/// True when both ends of the span are times that an `i64` holds.
pub open spec fn span_fits(span: SpanView) -> bool {
    i64::MIN <= span.start <= i64::MAX && i64::MIN <= span.end <= i64::MAX
}

/// True when every span of the sequence fits.
pub open spec fn all_fit(entries: Seq<EntryView>) -> bool {
    forall|i: int| 0 <= i < entries.len() ==> span_fits(#[trigger] entries[i].span)
}

/// True when no span of the sequence ends before it starts.
pub open spec fn all_ordered(entries: Seq<EntryView>) -> bool {
    forall|i: int| 0 <= i < entries.len() ==> (#[trigger] entries[i]).span.ordered()
}

/// True when every entry starts at or after the origin and ends before
/// `end`: a zero shift then drops none of them.
pub open spec fn within_window(entries: Seq<EntryView>, end: int) -> bool {
    forall|i: int|
        0 <= i < entries.len() ==> 0 <= (#[trigger] entries[i]).span.start && entries[i].span.end
            < end
}

/// Moves every entry by `delta` and keeps those that then start at or after
/// the origin and whose end, before the move, lies before `end`. The entries
/// kept stand in their old order, each with its text unchanged.
///
/// The result is `None` exactly when an entry that is kept would get a time
/// beyond the range of `i64`.
pub fn shift_entries(entries: Vec<SubtitleEntry>, delta: TimeDelta, end: TimePoint) -> (out:
    Option<Vec<SubtitleEntry>>)
    ensures
        out is Some <==> all_fit(shifted(entry_views(entries@), delta@, end@)),
        out matches Some(kept) ==> entry_views(kept@) == shifted(
            entry_views(entries@),
            delta@,
            end@,
        ),
        // the same, entry by entry
        out matches Some(kept) ==> kept@.len() == shifted(entry_views(entries@), delta@, end@).len()
            && forall|j: int|
            0 <= j < kept@.len() ==> (#[trigger] kept@[j])@ == shifted(
                entry_views(entries@),
                delta@,
                end@,
            )[j],
        // no entry kept starts before the origin, and ordered spans stay ordered
        out matches Some(kept) ==> forall|j: int|
            0 <= j < kept@.len() ==> (#[trigger] kept@[j])@.span.start >= 0,
        out matches Some(kept) ==> (all_ordered(entry_views(entries@)) ==> all_ordered(
            entry_views(kept@),
        )),
        // a shift of zero keeps entries within the window as they are
        delta@ == 0 && within_window(entry_views(entries@), end@) ==> (out matches Some(kept)
            && entry_views(kept@) == entry_views(entries@)),
{
    let ghost all = entries@;
    let mut kept: Vec<SubtitleEntry> = Vec::new();
    for entry in it: entries.into_iter()
        invariant
            it.seq() == all,
            entry_views(kept@) == shifted(entry_views(all.take(it.index())), delta@, end@),
            all_fit(entry_views(kept@)),
    {
        let ghost before = kept@;
        let ghost seen = all.take(it.index());
        proof {
            assert(all.take(it.index() + 1) =~= seen.push(entry));
            assert(entry_views(seen.push(entry)) =~= entry_views(seen).push(entry@));
            lemma_shift_push(entry_views(seen), entry@, delta@, end@);
        }
        let start = entry.timespan.start.msecs as i128 + delta.msecs as i128;
        let stop = entry.timespan.end.msecs as i128 + delta.msecs as i128;
        if start < 0 || entry.timespan.end.msecs >= end.msecs {
        } else if start > i64::MAX as i128 || stop < i64::MIN as i128 || stop > i64::MAX as i128 {
            proof {
                assert(!span_fits(moved(entry@, delta@).span));
                assert(entry_views(all)[it.index()] == entry@);
                lemma_kept_in_shifted(entry_views(all), delta@, end@, it.index());
            }
            return None;
        } else {
            let SubtitleEntry { timespan: _, line } = entry;
            kept.push(
                SubtitleEntry {
                    timespan: TimeSpan {
                        start: TimePoint { msecs: start as i64 },
                        end: TimePoint { msecs: stop as i64 },
                    },
                    line,
                },
            );
            assert(entry_views(kept@) =~= entry_views(before).push(moved(entry@, delta@)));
        }
    }
    proof {
        let target = shifted(entry_views(all), delta@, end@);
        assert(all.take(all.len() as int) =~= all);
        assert forall|j: int| 0 <= j < kept@.len() implies (#[trigger] kept@[j])@ == target[j]
            && kept@[j]@.span.start >= 0 by {
            assert(entry_views(kept@)[j] == kept@[j]@);
            lemma_shifted_well_formed(entry_views(all), delta@, end@, j);
        }
        assert forall|j: int|
            all_ordered(entry_views(all)) && 0 <= j < target.len() implies (
        #[trigger] target[j]).span.ordered() by {
            lemma_shifted_well_formed(entry_views(all), delta@, end@, j);
        }
        if delta@ == 0 && within_window(entry_views(all), end@) {
            lemma_zero_shift_is_identity(entry_views(all), end@);
        }
    }
    Some(kept)
}

/// Shifting a sequence with one more entry at its end: what the sequence
/// gave, and after it the new entry, moved, unless it is dropped.
pub proof fn lemma_shift_push(entries: Seq<EntryView>, entry: EntryView, delta: int, end: int)
    ensures
        shifted(entries.push(entry), delta, end) == (if dropped(entry, delta, end) {
            shifted(entries, delta, end)
        } else {
            shifted(entries, delta, end).push(moved(entry, delta))
        }),
{
    assert(entries.push(entry).drop_last() =~= entries);
    assert(shifted(entries, delta, end) + seq![moved(entry, delta)] =~= shifted(
        entries,
        delta,
        end,
    ).push(moved(entry, delta)));
}

/// Shifting a sequence of one entry: the entry is dropped exactly when, moved,
/// it would start before the origin or when its end as given lies at or
/// after `end`; where it is kept, its span is `[start + delta, end + delta]`
/// and its text is unchanged.
pub proof fn lemma_shift_single(entry: EntryView, delta: int, end: int)
    ensures
        shifted(seq![entry], delta, end).len() == 0 <==> entry.span.start + delta < 0
            || entry.span.end >= end,
        shifted(seq![entry], delta, end).len() <= 1,
        shifted(seq![entry], delta, end).len() == 1 ==> ({
            let late = shifted(seq![entry], delta, end)[0];
            &&& late.span.start == entry.span.start + delta
            &&& late.span.end == entry.span.end + delta
            &&& late.line == entry.line
        }),
{
    Seq::lemma_filter_map_singleton(entry, |e: EntryView| shift_one(e, delta, end));
}

/// Entries are shifted independently of each other and stay in order:
/// shifting two sequences joined is joining the two shifted.
pub proof fn lemma_shift_concat(a: Seq<EntryView>, b: Seq<EntryView>, delta: int, end: int)
    ensures
        shifted(a + b, delta, end) == shifted(a, delta, end) + shifted(b, delta, end),
    decreases b.len(),
{
    if b.len() == 0 {
        assert(a + b =~= a);
        assert(shifted(a, delta, end) + shifted(b, delta, end) =~= shifted(a, delta, end));
    } else {
        let front = b.drop_last();
        lemma_shift_concat(a, front, delta, end);
        lemma_shift_push(a + front, b.last(), delta, end);
        lemma_shift_push(front, b.last(), delta, end);
        assert((a + front).push(b.last()) =~= a + b);
        assert(front.push(b.last()) =~= b);
        assert((shifted(a, delta, end) + shifted(front, delta, end)).push(
            moved(b.last(), delta),
        ) =~= shifted(a, delta, end) + shifted(front, delta, end).push(moved(b.last(), delta)));
    }
}

/// An entry that is kept occurs, moved, in the shifted sequence.
pub proof fn lemma_kept_in_shifted(entries: Seq<EntryView>, delta: int, end: int, i: int)
    requires
        0 <= i < entries.len(),
        !dropped(entries[i], delta, end),
    ensures
        shifted(entries, delta, end).contains(moved(entries[i], delta)),
    decreases entries.len(),
{
    let front = entries.drop_last();
    lemma_shift_push(front, entries.last(), delta, end);
    assert(front.push(entries.last()) =~= entries);
    let whole = shifted(entries, delta, end);
    if i == entries.len() - 1 {
        assert(whole[whole.len() - 1] == moved(entries[i], delta));
    } else {
        lemma_kept_in_shifted(front, delta, end, i);
        let rest = shifted(front, delta, end);
        let j = choose|j: int| 0 <= j < rest.len() && rest[j] == moved(entries[i], delta);
        assert(whole[j] == rest[j]);
    }
}

/// An entry occurs, moved, in the shifted sequence exactly when it occurs in
/// the sequence given and is not dropped.
pub proof fn lemma_kept_iff(entries: Seq<EntryView>, entry: EntryView, delta: int, end: int)
    ensures
        shifted(entries, delta, end).contains(moved(entry, delta)) <==> entries.contains(entry)
            && !dropped(entry, delta, end),
{
    if entries.contains(entry) && !dropped(entry, delta, end) {
        let i = choose|i: int| 0 <= i < entries.len() && entries[i] == entry;
        lemma_kept_in_shifted(entries, delta, end, i);
    }
    if shifted(entries, delta, end).contains(moved(entry, delta)) {
        let f = |e: EntryView| shift_one(e, delta, end);
        entries.lemma_filter_map_contains(f, moved(entry, delta));
        let e = choose|e: EntryView| #[trigger]
            entries.contains(e) && f(e) == Some(moved(entry, delta));
        assert(e.span.start + delta == entry.span.start + delta);
        assert(e.span.end + delta == entry.span.end + delta);
        assert(e == entry);
    }
}

/// What shifting leaves is well formed: no entry starts before the origin,
/// and where no span of the sequence given ends before it starts, none of
/// the shifted sequence does.
pub proof fn lemma_shifted_well_formed(entries: Seq<EntryView>, delta: int, end: int, j: int)
    requires
        0 <= j < shifted(entries, delta, end).len(),
    ensures
        shifted(entries, delta, end)[j].span.start >= 0,
        all_ordered(entries) ==> shifted(entries, delta, end)[j].span.ordered(),
{
    let f = |e: EntryView| shift_one(e, delta, end);
    let late = shifted(entries, delta, end)[j];
    assert(shifted(entries, delta, end).contains(late));
    entries.lemma_filter_map_contains(f, late);
    let e = choose|e: EntryView| #[trigger] entries.contains(e) && f(e) == Some(late);
    let i = choose|i: int| 0 <= i < entries.len() && entries[i] == e;
    assert(entries[i].span.ordered() ==> late.span.ordered());
}

/// With a shift of zero and a cutoff beyond every entry, shifting changes
/// nothing, provided that no entry starts before the origin.
pub proof fn lemma_zero_shift_is_identity(entries: Seq<EntryView>, end: int)
    requires
        within_window(entries, end),
    ensures
        shifted(entries, 0, end) == entries,
    decreases entries.len(),
{
    if entries.len() > 0 {
        let front = entries.drop_last();
        lemma_zero_shift_is_identity(front, end);
        lemma_shift_push(front, entries.last(), 0, end);
        assert(front.push(entries.last()) =~= entries);
        assert(moved(entries.last(), 0) == entries.last());
    } else {
        assert(shifted(entries, 0, end) =~= entries);
    }
}

} // verus!
