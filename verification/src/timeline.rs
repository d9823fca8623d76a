//! When each clip starts and ends once the clips play in a row.

use vstd::prelude::*;
use crate::span::Span;
use crate::voice::Voice;

verus! {

/// The sum of lengths of time.
pub open spec fn total_nanos(lengths: Seq<nat>) -> nat
    decreases lengths.len(),
{
    if lengths.len() == 0 {
        0
    } else {
        total_nanos(lengths.drop_last()) + lengths.last()
    }
}

/// How long each clip plays, in nanoseconds.
pub open spec fn clip_lengths(voices: Seq<Voice>) -> Seq<nat> {
    Seq::new(voices.len(), |i: int| voices[i].duration@)
}

/// The time at which entry `i` starts: the sum of the lengths before it.
pub open spec fn start_of(lengths: Seq<nat>, i: int) -> nat {
    total_nanos(lengths.take(i))
}

/// The time at which entry `i` ends: the sum of the lengths up to its own.
pub open spec fn end_of(lengths: Seq<nat>, i: int) -> nat {
    total_nanos(lengths.take(i + 1))
}

/// The time during which one clip plays.
#[derive(Clone, Copy, Debug, PartialEq, Eq)]
pub struct TimelineEntry {
    pub start: Span,
    pub end: Span,
}

/// The times of all clips, in their order, and the length of the whole.
#[derive(Clone, Debug, PartialEq, Eq)]
pub struct Timeline {
    pub entries: Vec<TimelineEntry>,
    pub total: Span,
}

impl Timeline {
    /// Whether this is the timeline of clips with the given lengths: one
    /// entry per clip, each starting after the lengths before it and
    /// ending its own length later, and the total the sum of all lengths.
    pub open spec fn follows(&self, lengths: Seq<nat>) -> bool {
        &&& self.entries@.len() == lengths.len()
        &&& forall|i: int|
            0 <= i < lengths.len() ==> (#[trigger] self.entries@[i]).start@ == start_of(lengths, i)
        &&& forall|i: int|
            0 <= i < lengths.len() ==> (#[trigger] self.entries@[i]).end@ == start_of(lengths, i)
                + lengths[i]
        &&& self.total@ == total_nanos(lengths)
    }
}

/// The sum up to and with entry `i` is the sum before it and its length.
pub proof fn lemma_total_step(lengths: Seq<nat>, i: int)
    requires
        0 <= i < lengths.len(),
    ensures
        end_of(lengths, i) == start_of(lengths, i) + lengths[i],
{
    assert(lengths.take(i + 1).drop_last() =~= lengths.take(i));
}

/// A sum of the first lengths is no larger than the sum of all.
pub proof fn lemma_total_grows(lengths: Seq<nat>, i: int)
    requires
        0 <= i <= lengths.len(),
    ensures
        start_of(lengths, i) <= total_nanos(lengths),
    decreases lengths.len() - i,
{
    if i < lengths.len() {
        lemma_total_step(lengths, i);
        lemma_total_grows(lengths, i + 1);
    } else {
        assert(lengths.take(i) =~= lengths);
    }
}

/// A timeline starts at zero, has no gap and no overlap between one entry
/// and the next, never goes back, and ends at the sum of all lengths.
pub proof fn lemma_timeline_is_contiguous(timeline: Timeline, lengths: Seq<nat>)
    requires
        timeline.follows(lengths),
    ensures
        lengths.len() > 0 ==> timeline.entries@[0].start@ == 0,
        forall|i: int|
            0 <= i < lengths.len() ==> (#[trigger] timeline.entries@[i]).start@
                <= timeline.entries@[i].end@,
        forall|i: int|
            0 <= i < lengths.len() - 1 ==> (#[trigger] timeline.entries@[i]).end
                == timeline.entries@[i + 1].start,
        forall|i: int, j: int|
            0 <= i <= j < lengths.len() ==> (#[trigger] timeline.entries@[i]).start@ <= (
            #[trigger] timeline.entries@[j]).start@,
        lengths.len() > 0 ==> timeline.total == timeline.entries@[lengths.len() - 1].end,
        lengths.len() == 0 ==> timeline.total@ == 0,
        timeline.total@ == total_nanos(lengths),
{
    if lengths.len() > 0 {
        assert(lengths.take(0) =~= Seq::<nat>::empty());
        let last = lengths.len() - 1;
        lemma_total_step(lengths, last);
        assert(lengths.take(last + 1) =~= lengths);
        timeline.total.lemma_same_length(timeline.entries@[last].end);
    }
    assert forall|i: int| 0 <= i < lengths.len() - 1 implies (#[trigger] timeline.entries@[i]).end
        == timeline.entries@[i + 1].start by {
        lemma_total_step(lengths, i);
        timeline.entries@[i].end.lemma_same_length(timeline.entries@[i + 1].start);
    }
    assert forall|i: int, j: int| 0 <= i <= j < lengths.len() implies (
    #[trigger] timeline.entries@[i]).start@ <= (#[trigger] timeline.entries@[j]).start@ by {
        lemma_starts_grow(lengths, i, j);
    }
}

/// A later entry starts no earlier than the ones before it.
pub proof fn lemma_starts_grow(lengths: Seq<nat>, i: int, j: int)
    requires
        0 <= i <= j <= lengths.len(),
    ensures
        start_of(lengths, i) <= start_of(lengths, j),
    decreases j - i,
{
    if i < j {
        lemma_total_step(lengths, j - 1);
        lemma_starts_grow(lengths, i, j - 1);
    }
}

/// An entry has ended when a later one starts, so that no two entries
/// hold the same point in time, each taken from its start on and before
/// its end.
pub proof fn lemma_entries_do_not_overlap(lengths: Seq<nat>, i: int, j: int)
    requires
        0 <= i < j < lengths.len(),
    ensures
        end_of(lengths, i) <= start_of(lengths, j),
{
    lemma_starts_grow(lengths, i + 1, j);
}

/// The length of all clips in a row, where the machine's numbers hold it.
pub fn checked_total(voices: &Vec<Voice>) -> (out: Option<Span>)
    ensures
        out is Some <==> total_nanos(clip_lengths(voices@)) <= u128::MAX,
        out is Some ==> out->0@ == total_nanos(clip_lengths(voices@)),
{
    let ghost lengths = clip_lengths(voices@);
    let mut total = Span::zero();
    let mut i: usize = 0;
    assert(lengths.take(0) =~= Seq::<nat>::empty());
    while i < voices.len()
        invariant
            i <= voices.len(),
            lengths == clip_lengths(voices@),
            total@ == start_of(lengths, i as int),
        decreases voices.len() - i,
    {
        proof {
            lemma_total_step(lengths, i as int);
            lemma_total_grows(lengths, i + 1);
        }
        match total.checked_add(voices[i].duration) {
            Some(sum) => {
                total = sum;
            },
            None => {
                return None;
            },
        }
        i += 1;
    }
    proof {
        assert(lengths.take(i as int) =~= lengths);
        total.lemma_bounded();
    }
    Some(total)
}

/// Lays the clips out in a row: each starts where the one before it ends,
/// the first at zero.
pub fn build_timeline(voices: &Vec<Voice>) -> (out: Timeline)
    requires
        total_nanos(clip_lengths(voices@)) <= u128::MAX,
    ensures
        out.follows(clip_lengths(voices@)),
        voices@.len() > 0 ==> out.entries@[0].start@ == 0,
        forall|i: int|
            0 <= i < voices@.len() - 1 ==> (#[trigger] out.entries@[i]).end == out.entries@[i
                + 1].start,
        forall|i: int|
            0 <= i < voices@.len() ==> (#[trigger] out.entries@[i]).start@ <= out.entries@[i].end@,
        out.total@ == total_nanos(clip_lengths(voices@)),
{
    let ghost lengths = clip_lengths(voices@);
    let mut entries: Vec<TimelineEntry> = Vec::new();
    let mut total = Span::zero();
    let mut i: usize = 0;
    assert(lengths.take(0) =~= Seq::<nat>::empty());
    while i < voices.len()
        invariant
            i <= voices.len(),
            lengths == clip_lengths(voices@),
            total_nanos(lengths) <= u128::MAX,
            total@ == start_of(lengths, i as int),
            entries@.len() == i,
            forall|k: int| 0 <= k < i ==> (#[trigger] entries@[k]).start@ == start_of(lengths, k),
            forall|k: int|
                0 <= k < i ==> (#[trigger] entries@[k]).end@ == start_of(lengths, k) + lengths[k],
        decreases voices.len() - i,
    {
        proof {
            lemma_total_step(lengths, i as int);
            lemma_total_grows(lengths, i + 1);
        }
        let start = total;
        total = total.plus(voices[i].duration);
        let end = total;
        entries.push(TimelineEntry { start, end });
        i += 1;
    }
    assert(lengths.take(i as int) =~= lengths);
    let out = Timeline { entries, total };
    proof {
        lemma_timeline_is_contiguous(out, lengths);
    }
    out
}

} // verus!
