//! Where captured memory goes when it is restored.
//!
//! The restored memory is one file in which the ranges of guest memory stand one
//! after the other. A captured segment goes to the place of the first range that
//! holds it.

use vstd::prelude::*;
use crate::capture_error::CaptureError;
use crate::protocol::lemma_total_length_grows;
use crate::protocol::lemma_total_length_step;
use crate::protocol::total_length;
use crate::protocol::MemoryRange;

verus! {

/// A piece of captured memory.
#[derive(Clone, Copy, Debug, PartialEq, Eq, Structural)]
pub struct MemoryDeltaSegment {
    /// The guest address of the first byte.
    pub gpa: u64,
    /// How many bytes were captured.
    pub length: u64,
    /// Where the bytes stand in the memory file.
    pub file_offset: u64,
    /// Offset where this segment must be written in a legacy `memory-ranges` file.
    pub restore_file_offset: u64,
}

/// A range of guest memory in the restored file.
#[derive(Clone, Copy, Debug, PartialEq, Eq, Structural)]
pub struct MemoryRestoreRange {
    /// The guest address of the first byte.
    pub gpa: u64,
    /// How many bytes the range has.
    pub length: u64,
    /// Where the range stands in the restored file.
    pub file_offset: u64,
}

impl MemoryRestoreRange {
    /// Whether the range holds all of `segment`.
    pub open spec fn holds(self, segment: MemoryDeltaSegment) -> bool {
        &&& self.gpa + self.length <= u64::MAX
        &&& self.gpa <= segment.gpa
        &&& segment.gpa + segment.length <= self.gpa + self.length
    }

    fn holds_segment(&self, segment: &MemoryDeltaSegment, segment_end: u64) -> (held: bool)
        requires
            segment_end == segment.gpa + segment.length,
        ensures
            held == self.holds(*segment),
    {
        match self.gpa.checked_add(self.length) {
            Some(end) => segment.gpa >= self.gpa && segment_end <= end,
            None => false,
        }
    }
}

/// The ranges one after the other: each starts where those before it end.
pub open spec fn restore_layout(ranges: Seq<MemoryRange>) -> Seq<MemoryRestoreRange> {
    Seq::new(
        ranges.len(),
        |i: int|
            MemoryRestoreRange {
                gpa: ranges[i].gpa,
                length: ranges[i].length,
                file_offset: total_length(ranges.take(i)) as u64,
            },
    )
}

/// Whether range `index` is the one with which the restored file gets too long.
pub open spec fn outgrows_at(ranges: Seq<MemoryRange>, index: int) -> bool {
    &&& 0 <= index < ranges.len()
    &&& total_length(ranges.take(index)) <= u64::MAX
    &&& total_length(ranges.take(index + 1)) > u64::MAX
}

/// Where `segment` goes in the restored file: to its place in the first range that
/// holds it.
pub open spec fn restore_offset(
    layout: Seq<MemoryRestoreRange>,
    segment: MemoryDeltaSegment,
) -> Option<int>
    decreases layout.len(),
{
    if layout.len() == 0 {
        None
    } else if layout[0].holds(segment) {
        Some(layout[0].file_offset + (segment.gpa - layout[0].gpa))
    } else {
        restore_offset(layout.drop_first(), segment)
    }
}

/// Whether there is a place for `segment`.
pub open spec fn is_placeable(
    layout: Seq<MemoryRestoreRange>,
    segment: MemoryDeltaSegment,
) -> bool {
    restore_offset(layout, segment) is Some
}

/// `segment` with its place.
pub open spec fn placed(
    layout: Seq<MemoryRestoreRange>,
    segment: MemoryDeltaSegment,
) -> MemoryDeltaSegment {
    MemoryDeltaSegment {
        restore_file_offset: restore_offset(layout, segment).unwrap() as u64,
        ..segment
    }
}

/// `segments`, of which the first `count` have their place.
pub open spec fn place_first(
    layout: Seq<MemoryRestoreRange>,
    segments: Seq<MemoryDeltaSegment>,
    count: int,
) -> Seq<MemoryDeltaSegment> {
    Seq::new(
        segments.len(),
        |i: int|
            if i < count {
                placed(layout, segments[i])
            } else {
                segments[i]
            },
    )
}

/// Why there is no place for `segment`.
pub open spec fn misplacement(segment: MemoryDeltaSegment) -> CaptureError {
    if segment.gpa + segment.length > u64::MAX {
        CaptureError::GpaOverflow
    } else {
        CaptureError::OutsideRestoreLayout {
            gpa: segment.gpa,
            end: (segment.gpa + segment.length) as u64,
        }
    }
}

/// Whether segment `index` is the first without a place.
pub open spec fn fails_at(
    layout: Seq<MemoryRestoreRange>,
    segments: Seq<MemoryDeltaSegment>,
    index: int,
) -> bool {
    &&& 0 <= index < segments.len()
    &&& forall|i: int| 0 <= i < index ==> is_placeable(layout, #[trigger] segments[i])
    &&& !is_placeable(layout, segments[index])
}

/// Whether every range of `layout` ends within a file.
pub open spec fn fits_in_a_file(layout: Seq<MemoryRestoreRange>) -> bool {
    forall|i: int|
        0 <= i < layout.len() ==> (#[trigger] layout[i]).file_offset + layout[i].length
            <= u64::MAX
}

/// The layout of ranges that are not too long fits in a file, and each range ends
/// within the total.
pub(crate) proof fn lemma_layout_fits(ranges: Seq<MemoryRange>)
    requires
        total_length(ranges) <= u64::MAX,
    ensures
        fits_in_a_file(restore_layout(ranges)),
        forall|i: int|
            0 <= i < ranges.len() ==> (#[trigger] restore_layout(ranges)[i]).file_offset
                + restore_layout(ranges)[i].length <= total_length(ranges),
        forall|i: int|
            0 <= i < ranges.len() ==> (#[trigger] restore_layout(ranges)[i]).file_offset
                == total_length(ranges.take(i)),
{
    assert(ranges.take(ranges.len() as int) =~= ranges);
    assert forall|i: int| 0 <= i < ranges.len() implies {
        &&& (#[trigger] restore_layout(ranges)[i]).file_offset + restore_layout(ranges)[i].length
            <= total_length(ranges)
        &&& restore_layout(ranges)[i].file_offset == total_length(ranges.take(i))
    } by {
        lemma_total_length_step(ranges, i);
        lemma_total_length_grows(ranges, i + 1, ranges.len() as int);
    }
}

/// The first range that holds a segment decides its place.
pub(crate) proof fn lemma_restore_offset_range(
    layout: Seq<MemoryRestoreRange>,
    segment: MemoryDeltaSegment,
) -> (index: int)
    requires
        is_placeable(layout, segment),
    ensures
        0 <= index < layout.len(),
        layout[index].holds(segment),
        forall|i: int| 0 <= i < index ==> !(#[trigger] layout[i]).holds(segment),
        restore_offset(layout, segment) == Some(
            layout[index].file_offset + (segment.gpa - layout[index].gpa),
        ),
    decreases layout.len(),
{
    if layout[0].holds(segment) {
        0
    } else {
        let rest = layout.drop_first();
        let index = lemma_restore_offset_range(rest, segment);
        assert forall|i: int| 0 <= i < index + 1 implies !(#[trigger] layout[i]).holds(segment) by {
            if i > 0 {
                assert(rest[i - 1] == layout[i]);
            }
        }
        index + 1
    }
}

/// Lays `ranges` out one after the other. Gives the layout, and the length of the
/// file or, where that would be too long for a file, `None`: the layout then ends
/// with the range that is too much.
pub(crate) fn lay_out(ranges: &Vec<MemoryRange>) -> (laid_out: (Vec<MemoryRestoreRange>, Option<u64>))
    ensures
        match laid_out.1 {
            Some(size) => {
                &&& size == total_length(ranges@)
                &&& laid_out.0@ == restore_layout(ranges@)
            },
            None => {
                &&& total_length(ranges@) > u64::MAX
                &&& exists|index: int| #[trigger]
                    outgrows_at(ranges@, index) && laid_out.0@ == restore_layout(
                        ranges@.take(index + 1),
                    )
            },
        },
{
    let mut layout: Vec<MemoryRestoreRange> = Vec::new();
    let mut file_offset: u64 = 0;
    let mut i: usize = 0;
    assert(restore_layout(ranges@.take(0)) =~= layout@);
    while i < ranges.len()
        invariant
            i <= ranges.len(),
            file_offset == total_length(ranges@.take(i as int)),
            layout@ == restore_layout(ranges@.take(i as int)),
        decreases ranges.len() - i,
    {
        let range: MemoryRange = ranges[i];
        layout.push(MemoryRestoreRange { gpa: range.gpa, length: range.length, file_offset });
        proof {
            let taken = ranges@.take(i + 1);
            assert forall|k: int| 0 <= k < taken.len() implies #[trigger] layout@[k]
                == restore_layout(taken)[k] by {
                assert(taken.take(k) =~= ranges@.take(i as int).take(k) || k == i);
                assert(k == i ==> taken.take(k) =~= ranges@.take(i as int));
            }
            assert(layout@ =~= restore_layout(taken));
            lemma_total_length_step(ranges@, i as int);
        }
        match file_offset.checked_add(range.length) {
            Some(next) => {
                file_offset = next;
            },
            None => {
                proof {
                    assert(outgrows_at(ranges@, i as int));
                    lemma_total_length_grows(ranges@, i + 1, ranges@.len() as int);
                    assert(ranges@.take(ranges@.len() as int) =~= ranges@);
                }
                return (layout, None);
            },
        }
        i += 1;
    }
    assert(ranges@.take(ranges@.len() as int) =~= ranges@);
    (layout, Some(file_offset))
}

/// The first range of `layout` that holds `segment`, whose end is `segment_end`.
fn find_range(
    layout: &Vec<MemoryRestoreRange>,
    segment: &MemoryDeltaSegment,
    segment_end: u64,
) -> (found: Option<MemoryRestoreRange>)
    requires
        segment_end == segment.gpa + segment.length,
    ensures
        match found {
            Some(range) => {
                &&& range.holds(*segment)
                &&& layout@.contains(range)
                &&& restore_offset(layout@, *segment) == Some(
                    range.file_offset + (segment.gpa - range.gpa),
                )
            },
            None => !is_placeable(layout@, *segment),
        },
{
    let mut i: usize = 0;
    assert(layout@.skip(0) =~= layout@);
    while i < layout.len()
        invariant
            i <= layout.len(),
            segment_end == segment.gpa + segment.length,
            restore_offset(layout@, *segment) == restore_offset(layout@.skip(i as int), *segment),
        decreases layout.len() - i,
    {
        let range: MemoryRestoreRange = layout[i];
        assert(layout@.skip(i as int)[0] == range);
        if range.holds_segment(segment, segment_end) {
            return Some(range);
        }
        assert(layout@.skip(i as int).drop_first() =~= layout@.skip(i + 1));
        i += 1;
    }
    None
}

/// Gives every segment its place in `layout`, in order, until one has none.
pub(crate) fn place_segments(
    layout: &Vec<MemoryRestoreRange>,
    segments: &mut Vec<MemoryDeltaSegment>,
) -> (outcome: Result<(), CaptureError>)
    requires
        fits_in_a_file(layout@),
    ensures
        match outcome {
            Ok(_) => {
                &&& forall|i: int|
                    0 <= i < old(segments)@.len() ==> is_placeable(
                        layout@,
                        #[trigger] old(segments)@[i],
                    )
                &&& final(segments)@ == place_first(
                    layout@,
                    old(segments)@,
                    old(segments)@.len() as int,
                )
            },
            Err(error) => exists|index: int| #[trigger]
                fails_at(layout@, old(segments)@, index) && error == misplacement(
                    old(segments)@[index],
                ) && final(segments)@ == place_first(layout@, old(segments)@, index),
        },
{
    let ghost before = segments@;
    let mut i: usize = 0;
    assert(segments@ =~= place_first(layout@, before, 0));
    while i < segments.len()
        invariant
            before == old(segments)@,
            i <= segments@.len() == before.len(),
            fits_in_a_file(layout@),
            segments@ == place_first(layout@, before, i as int),
            forall|k: int| 0 <= k < i ==> is_placeable(layout@, #[trigger] before[k]),
        decreases segments.len() - i,
    {
        let mut segment: MemoryDeltaSegment = segments[i];
        assert(segment == before[i as int]);
        let segment_end: u64 = match segment.gpa.checked_add(segment.length) {
            Some(end) => end,
            None => {
                proof {
                    if is_placeable(layout@, segment) {
                        let index = lemma_restore_offset_range(layout@, segment);
                        assert(false);
                    }
                    assert(fails_at(layout@, before, i as int));
                }
                return Err(CaptureError::GpaOverflow);
            },
        };
        match find_range(layout, &segment, segment_end) {
            Some(range) => {
                // The place lies inside the range, and every range of the layout
                // ends within a file.
                segment.restore_file_offset = range.file_offset + (segment.gpa - range.gpa);
                segments.set(i, segment);
                assert(segments@ =~= place_first(layout@, before, i + 1));
            },
            None => {
                assert(fails_at(layout@, before, i as int));
                return Err(
                    CaptureError::OutsideRestoreLayout { gpa: segment.gpa, end: segment_end },
                );
            },
        }
        i += 1;
    }
    Ok(())
}

} // verus!
