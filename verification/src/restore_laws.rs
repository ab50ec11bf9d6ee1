//! What restoring a capture gives back.

use vstd::prelude::*;
use crate::protocol::lemma_total_length_grows;
use crate::protocol::lemma_total_length_step;
use crate::protocol::total_length;
use crate::protocol::MemoryRange;
use crate::restore_layout::is_placeable;
use crate::restore_layout::lemma_layout_fits;
use crate::restore_layout::lemma_restore_offset_range;
use crate::restore_layout::place_first;
use crate::restore_layout::placed;
use crate::restore_layout::restore_layout;
use crate::restore_layout::restore_offset;
use crate::restore_layout::MemoryDeltaSegment;
use crate::restore_layout::MemoryRestoreRange;

verus! {

/// Whether `segment` is written to `position` of the restored file.
pub open spec fn covers(segment: MemoryDeltaSegment, position: int) -> bool {
    segment.restore_file_offset <= position < segment.restore_file_offset + segment.length
}

/// Whether `segment` holds the byte at guest address `address`.
pub open spec fn captures(segment: MemoryDeltaSegment, address: int) -> bool {
    segment.gpa <= address < segment.gpa + segment.length
}

/// The restored file `image` after `segment` of the memory file `delta` was
/// written to it.
pub open spec fn apply_segment(
    image: Seq<u8>,
    delta: Seq<u8>,
    segment: MemoryDeltaSegment,
) -> Seq<u8> {
    Seq::new(
        image.len(),
        |position: int|
            if covers(segment, position) {
                delta[segment.file_offset + (position - segment.restore_file_offset)]
            } else {
                image[position]
            },
    )
}

/// The restored file after `segments` were written to it, in order.
pub open spec fn apply_segments(
    image: Seq<u8>,
    delta: Seq<u8>,
    segments: Seq<MemoryDeltaSegment>,
) -> Seq<u8>
    decreases segments.len(),
{
    if segments.len() == 0 {
        image
    } else {
        apply_segment(apply_segments(image, delta, segments.drop_last()), delta, segments.last())
    }
}

/// Where guest address `address` stands in the restored file: at its place in the
/// first range that has it.
pub open spec fn address_offset(layout: Seq<MemoryRestoreRange>, address: int) -> Option<int>
    decreases layout.len(),
{
    if layout.len() == 0 {
        None
    } else if layout[0].gpa <= address < layout[0].gpa + layout[0].length {
        Some(layout[0].file_offset + (address - layout[0].gpa))
    } else {
        address_offset(layout.drop_first(), address)
    }
}

/// Whether no guest address is in two of `ranges`.
pub open spec fn are_disjoint(ranges: Seq<MemoryRange>) -> bool {
    forall|i: int, j: int|
        0 <= i < j < ranges.len() ==> {
            ||| (#[trigger] ranges[i]).gpa + ranges[i].length <= (#[trigger] ranges[j]).gpa
            ||| ranges[j].gpa + ranges[j].length <= ranges[i].gpa
        }
}

/// A later segment supersedes an earlier one: a position of the restored file has
/// the byte of the last segment that is written to it.
pub proof fn law_later_segment_supersedes(
    image: Seq<u8>,
    delta: Seq<u8>,
    segments: Seq<MemoryDeltaSegment>,
    position: int,
    index: int,
)
    requires
        0 <= position < image.len(),
        0 <= index < segments.len(),
        covers(segments[index], position),
        forall|j: int| index < j < segments.len() ==> !covers(#[trigger] segments[j], position),
    ensures
        apply_segments(image, delta, segments)[position] == delta[segments[index].file_offset + (
        position - segments[index].restore_file_offset)],
    decreases segments.len(),
{
    lemma_image_keeps_its_length(image, delta, segments.drop_last());
    if index < segments.len() - 1 {
        assert(!covers(segments[segments.len() - 1], position));
        let shorter = segments.drop_last();
        assert forall|j: int| index < j < shorter.len() implies !covers(
            #[trigger] shorter[j],
            position,
        ) by {
            assert(shorter[j] == segments[j]);
        }
        law_later_segment_supersedes(image, delta, shorter, position, index);
    }
}

/// A position of the restored file that no segment is written to stays as it was.
pub proof fn law_other_positions_stay(
    image: Seq<u8>,
    delta: Seq<u8>,
    segments: Seq<MemoryDeltaSegment>,
    position: int,
)
    requires
        0 <= position < image.len(),
        forall|j: int| 0 <= j < segments.len() ==> !covers(#[trigger] segments[j], position),
    ensures
        apply_segments(image, delta, segments)[position] == image[position],
    decreases segments.len(),
{
    if segments.len() > 0 {
        lemma_image_keeps_its_length(image, delta, segments.drop_last());
        assert(!covers(segments[segments.len() - 1], position));
        let shorter = segments.drop_last();
        assert forall|j: int| 0 <= j < shorter.len() implies !covers(
            #[trigger] shorter[j],
            position,
        ) by {
            assert(shorter[j] == segments[j]);
        }
        law_other_positions_stay(image, delta, shorter, position);
    }
}

proof fn lemma_image_keeps_its_length(
    image: Seq<u8>,
    delta: Seq<u8>,
    segments: Seq<MemoryDeltaSegment>,
)
    ensures
        apply_segments(image, delta, segments).len() == image.len(),
    decreases segments.len(),
{
    if segments.len() > 0 {
        lemma_image_keeps_its_length(image, delta, segments.drop_last());
    }
}

/// Every segment that has a place lies within the restored file, so that its
/// offset there never overflows.
pub proof fn law_segments_fit_in_the_restored_file(
    ranges: Seq<MemoryRange>,
    segment: MemoryDeltaSegment,
)
    requires
        total_length(ranges) <= u64::MAX,
        is_placeable(restore_layout(ranges), segment),
    ensures
        0 <= restore_offset(restore_layout(ranges), segment).unwrap(),
        restore_offset(restore_layout(ranges), segment).unwrap() + segment.length <= total_length(
            ranges,
        ),
{
    lemma_layout_fits(ranges);
    let index = lemma_restore_offset_range(restore_layout(ranges), segment);
    assert(restore_layout(ranges)[index].file_offset + restore_layout(ranges)[index].length
        <= total_length(ranges));
}

/// The ranges fill the restored file without gap or overlap: each starts where
/// the one before it ends, and the last ends with the file.
pub proof fn law_layout_fills_the_restored_file(ranges: Seq<MemoryRange>, index: int)
    requires
        total_length(ranges) <= u64::MAX,
        0 <= index < ranges.len(),
    ensures
        restore_layout(ranges)[0].file_offset == 0,
        index + 1 < ranges.len() ==> restore_layout(ranges)[index + 1].file_offset
            == restore_layout(ranges)[index].file_offset + restore_layout(ranges)[index].length,
        index + 1 == ranges.len() ==> total_length(ranges) == restore_layout(
            ranges,
        )[index].file_offset + restore_layout(ranges)[index].length,
{
    lemma_layout_fits(ranges);
    lemma_total_length_step(ranges, index);
    assert(ranges.take(0) =~= Seq::empty());
    assert(ranges.take(ranges.len() as int) =~= ranges);
    assert(restore_layout(ranges)[0].file_offset == total_length(ranges.take(0)));
    assert(restore_layout(ranges)[index].file_offset == total_length(ranges.take(index)));
    if index + 1 < ranges.len() {
        assert(restore_layout(ranges)[index + 1].file_offset == total_length(
            ranges.take(index + 1),
        ));
    }
}

proof fn lemma_address_offset_range(layout: Seq<MemoryRestoreRange>, address: int) -> (index: int)
    requires
        address_offset(layout, address) is Some,
    ensures
        0 <= index < layout.len(),
        layout[index].gpa <= address < layout[index].gpa + layout[index].length,
        address_offset(layout, address) == Some(
            layout[index].file_offset + (address - layout[index].gpa),
        ),
    decreases layout.len(),
{
    if layout[0].gpa <= address < layout[0].gpa + layout[0].length {
        0
    } else {
        let index = lemma_address_offset_range(layout.drop_first(), address);
        index + 1
    }
}

proof fn lemma_address_has_offset(layout: Seq<MemoryRestoreRange>, address: int, index: int)
    requires
        0 <= index < layout.len(),
        layout[index].gpa <= address < layout[index].gpa + layout[index].length,
    ensures
        address_offset(layout, address) is Some,
    decreases layout.len(),
{
    if !(layout[0].gpa <= address < layout[0].gpa + layout[0].length) {
        lemma_address_has_offset(layout.drop_first(), address, index - 1);
    }
}

/// In the restored file no two guest addresses stand in the same place.
pub proof fn law_addresses_do_not_collide(ranges: Seq<MemoryRange>, a: int, b: int)
    requires
        total_length(ranges) <= u64::MAX,
        address_offset(restore_layout(ranges), a) is Some,
        address_offset(restore_layout(ranges), a) == address_offset(restore_layout(ranges), b),
    ensures
        a == b,
{
    let layout = restore_layout(ranges);
    lemma_layout_fits(ranges);
    let i = lemma_address_offset_range(layout, a);
    let j = lemma_address_offset_range(layout, b);
    lemma_total_length_step(ranges, i);
    lemma_total_length_step(ranges, j);
    assert(layout[i].file_offset == total_length(ranges.take(i)));
    assert(layout[j].file_offset == total_length(ranges.take(j)));
    if i < j {
        lemma_total_length_grows(ranges, i + 1, j);
    }
    if j < i {
        lemma_total_length_grows(ranges, j + 1, i);
    }
}

/// A segment is restored address by address: each of its bytes goes where its
/// guest address stands in the restored file.
pub proof fn law_segment_goes_where_its_addresses_are(
    ranges: Seq<MemoryRange>,
    segment: MemoryDeltaSegment,
    address: int,
)
    requires
        total_length(ranges) <= u64::MAX,
        are_disjoint(ranges),
        is_placeable(restore_layout(ranges), segment),
        captures(segment, address),
    ensures
        address_offset(restore_layout(ranges), address) == Some(
            restore_offset(restore_layout(ranges), segment).unwrap() + (address - segment.gpa),
        ),
{
    let layout = restore_layout(ranges);
    let i = lemma_restore_offset_range(layout, segment);
    lemma_address_has_offset(layout, address, i);
    let j = lemma_address_offset_range(layout, address);
    assert(ranges[i].gpa == layout[i].gpa && ranges[j].gpa == layout[j].gpa);
    assert(i == j);
}

/// Guest memory is restored as it was captured last: the byte at a guest address
/// is the one that the last segment with that address took. `seen[j]` is guest
/// memory as segment `j` saw it.
pub proof fn law_latest_capture_is_restored(
    ranges: Seq<MemoryRange>,
    segments: Seq<MemoryDeltaSegment>,
    image: Seq<u8>,
    delta: Seq<u8>,
    seen: Seq<spec_fn(int) -> u8>,
    address: int,
    last: int,
)
    requires
        total_length(ranges) <= u64::MAX,
        are_disjoint(ranges),
        image.len() == total_length(ranges),
        forall|j: int|
            0 <= j < segments.len() ==> is_placeable(restore_layout(ranges), #[trigger] segments[j]),
        seen.len() == segments.len(),
        forall|j: int, a: int|
            0 <= j < segments.len() && captures(segments[j], a) ==> delta[segments[j].file_offset
                + (a - segments[j].gpa)] == #[trigger] seen[j](a),
        0 <= last < segments.len(),
        captures(segments[last], address),
        forall|j: int| last < j < segments.len() ==> !captures(#[trigger] segments[j], address),
    ensures
        ({
            let layout = restore_layout(ranges);
            let restored = apply_segments(
                image,
                delta,
                place_first(layout, segments, segments.len() as int),
            );
            &&& address_offset(layout, address) matches Some(position)
            &&& 0 <= position < restored.len()
            &&& restored[position] == seen[last](address)
        }),
{
    let layout = restore_layout(ranges);
    let placed = place_first(layout, segments, segments.len() as int);
    lemma_image_keeps_its_length(image, delta, placed);
    law_segment_goes_where_its_addresses_are(ranges, segments[last], address);
    law_segments_fit_in_the_restored_file(ranges, segments[last]);
    let position = address_offset(layout, address).unwrap();
    assert forall|j: int| last < j < placed.len() implies !covers(
        #[trigger] placed[j],
        position,
    ) by {
        lemma_covering_means_capturing(ranges, segments, j, address);
    }
    law_later_segment_supersedes(image, delta, placed, position, last);
}

/// Guest memory that no segment captured is restored from the file that the
/// segments are applied to.
pub proof fn law_uncaptured_memory_stays(
    ranges: Seq<MemoryRange>,
    segments: Seq<MemoryDeltaSegment>,
    image: Seq<u8>,
    delta: Seq<u8>,
    address: int,
)
    requires
        total_length(ranges) <= u64::MAX,
        are_disjoint(ranges),
        image.len() == total_length(ranges),
        forall|j: int|
            0 <= j < segments.len() ==> is_placeable(restore_layout(ranges), #[trigger] segments[j]),
        address_offset(restore_layout(ranges), address) is Some,
        forall|j: int| 0 <= j < segments.len() ==> !captures(#[trigger] segments[j], address),
    ensures
        ({
            let layout = restore_layout(ranges);
            let restored = apply_segments(
                image,
                delta,
                place_first(layout, segments, segments.len() as int),
            );
            let position = address_offset(layout, address).unwrap();
            &&& 0 <= position < restored.len()
            &&& restored[position] == image[position]
        }),
{
    let layout = restore_layout(ranges);
    let placed = place_first(layout, segments, segments.len() as int);
    lemma_image_keeps_its_length(image, delta, placed);
    lemma_layout_fits(ranges);
    let index = lemma_address_offset_range(layout, address);
    assert(layout[index].file_offset + layout[index].length <= total_length(ranges));
    let position = address_offset(layout, address).unwrap();
    assert forall|j: int| 0 <= j < placed.len() implies !covers(#[trigger] placed[j], position) by {
        lemma_covering_means_capturing(ranges, segments, j, address);
    }
    law_other_positions_stay(image, delta, placed, position);
}

proof fn lemma_covering_means_capturing(
    ranges: Seq<MemoryRange>,
    segments: Seq<MemoryDeltaSegment>,
    index: int,
    address: int,
)
    requires
        total_length(ranges) <= u64::MAX,
        are_disjoint(ranges),
        0 <= index < segments.len(),
        is_placeable(restore_layout(ranges), segments[index]),
        address_offset(restore_layout(ranges), address) is Some,
        !captures(segments[index], address),
    ensures
        !covers(
            place_first(restore_layout(ranges), segments, segments.len() as int)[index],
            address_offset(restore_layout(ranges), address).unwrap(),
        ),
{
    let layout = restore_layout(ranges);
    let placed = place_first(layout, segments, segments.len() as int)[index];
    let position = address_offset(layout, address).unwrap();
    law_segments_fit_in_the_restored_file(ranges, segments[index]);
    if covers(placed, position) {
        let other = segments[index].gpa + (position - placed.restore_file_offset);
        law_segment_goes_where_its_addresses_are(ranges, segments[index], other);
        law_addresses_do_not_collide(ranges, address, other);
    }
}

/// Whether all of `segment` lies in `range`, which ends within the address space.
pub open spec fn lies_in(range: MemoryRange, segment: MemoryDeltaSegment) -> bool {
    &&& range.gpa <= segment.gpa
    &&& segment.gpa + segment.length <= range.gpa + range.length
    &&& range.gpa + range.length <= u64::MAX
}

/// Whether all of `segment` lies in one of `ranges`.
pub open spec fn lies_in_one(ranges: Seq<MemoryRange>, segment: MemoryDeltaSegment) -> bool {
    exists|i: int| 0 <= i < ranges.len() && lies_in(#[trigger] ranges[i], segment)
}

/// Whether range `index` is the first of `ranges` that `segment` lies in, and
/// `offset` is where the segment begins when the ranges stand one after the other.
pub open spec fn begins_at(
    ranges: Seq<MemoryRange>,
    index: int,
    segment: MemoryDeltaSegment,
    offset: int,
) -> bool {
    &&& 0 <= index < ranges.len()
    &&& lies_in(ranges[index], segment)
    &&& forall|i: int| 0 <= i < index ==> !lies_in(#[trigger] ranges[i], segment)
    &&& offset == total_length(ranges.take(index)) + (segment.gpa - ranges[index].gpa)
}

/// Whether `offset` is where `segment` begins in the first of `ranges` that it lies
/// in, when the ranges stand one after the other.
pub open spec fn begins_in_the_first(
    ranges: Seq<MemoryRange>,
    segment: MemoryDeltaSegment,
    offset: int,
) -> bool {
    exists|index: int| #[trigger] begins_at(ranges, index, segment, offset)
}

/// Whether `restored` are the first ranges of `ranges`, one after the other.
pub open spec fn stand_one_after_the_other(
    restored: Seq<MemoryRestoreRange>,
    ranges: Seq<MemoryRange>,
) -> bool {
    &&& restored.len() <= ranges.len()
    &&& forall|i: int|
        0 <= i < restored.len() ==> {
            &&& (#[trigger] restored[i]).gpa == ranges[i].gpa
            &&& restored[i].length == ranges[i].length
            &&& restored[i].file_offset == if i == 0 {
                0
            } else {
                restored[i - 1].file_offset + restored[i - 1].length
            }
        }
}

/// A segment all of whose addresses lie in one range of the layout has a place.
pub proof fn law_enclosed_segment_has_a_place(
    layout: Seq<MemoryRestoreRange>,
    segment: MemoryDeltaSegment,
    index: int,
)
    requires
        0 <= index < layout.len(),
        layout[index].gpa <= segment.gpa,
        segment.gpa + segment.length <= layout[index].gpa + layout[index].length,
        layout[index].gpa + layout[index].length <= u64::MAX,
    ensures
        restore_offset(layout, segment) is Some,
        is_placeable(layout, segment),
    decreases layout.len(),
{
    if index > 0 {
        law_enclosed_segment_has_a_place(layout.drop_first(), segment, index - 1);
    }
}

/// A segment has a place only where a range of the layout encloses it, and that place
/// is as far into the first such range as its address is.
pub proof fn law_place_is_in_the_first_enclosing_range(
    layout: Seq<MemoryRestoreRange>,
    segment: MemoryDeltaSegment,
) -> (index: int)
    requires
        is_placeable(layout, segment),
    ensures
        0 <= index < layout.len(),
        layout[index].gpa <= segment.gpa,
        segment.gpa + segment.length <= layout[index].gpa + layout[index].length,
        layout[index].gpa + layout[index].length <= u64::MAX,
        restore_offset(layout, segment) == Some(
            layout[index].file_offset + segment.gpa - layout[index].gpa,
        ),
        forall|i: int|
            0 <= i < index ==> {
                ||| segment.gpa < (#[trigger] layout[i]).gpa
                ||| layout[i].gpa + layout[i].length < segment.gpa + segment.length
                ||| layout[i].gpa + layout[i].length > u64::MAX
            },
{
    lemma_restore_offset_range(layout, segment)
}

/// The layout has the ranges as they are, one after the other.
pub proof fn law_layout_keeps_the_ranges(ranges: Seq<MemoryRange>)
    requires
        ranges.len() > 0 ==> total_length(ranges.drop_last()) <= u64::MAX,
    ensures
        restore_layout(ranges).len() == ranges.len(),
        stand_one_after_the_other(restore_layout(ranges), ranges),
{
    let layout = restore_layout(ranges);
    assert forall|i: int| 0 <= i < layout.len() implies {
        &&& (#[trigger] layout[i]).gpa == ranges[i].gpa
        &&& layout[i].length == ranges[i].length
        &&& layout[i].file_offset == if i == 0 {
            0
        } else {
            layout[i - 1].file_offset + layout[i - 1].length
        }
    } by {
        assert(ranges.drop_last() =~= ranges.take(ranges.len() - 1));
        lemma_total_length_grows(ranges, i, ranges.len() - 1);
        if i == 0 {
            assert(ranges.take(0) =~= Seq::empty());
        } else {
            lemma_total_length_step(ranges, i - 1);
        }
    }
}

/// What enclosing a segment and having a place for it have to do with each other,
/// over the ranges that are laid out.
pub(crate) proof fn lemma_enclosed_and_placed(
    ranges: Seq<MemoryRange>,
    segment: MemoryDeltaSegment,
)
    requires
        total_length(ranges) <= u64::MAX,
    ensures
        is_placeable(restore_layout(ranges), segment) <==> lies_in_one(ranges, segment),
        is_placeable(restore_layout(ranges), segment) ==> begins_in_the_first(
            ranges,
            segment,
            placed(restore_layout(ranges), segment).restore_file_offset as int,
        ),
{
    let layout = restore_layout(ranges);
    lemma_layout_fits(ranges);
    if lies_in_one(ranges, segment) {
        let i = choose|i: int| 0 <= i < ranges.len() && lies_in(#[trigger] ranges[i], segment);
        law_enclosed_segment_has_a_place(layout, segment, i);
    }
    if is_placeable(layout, segment) {
        let index = law_place_is_in_the_first_enclosing_range(layout, segment);
        assert(lies_in(ranges[index], segment));
        law_segments_fit_in_the_restored_file(ranges, segment);
        assert forall|i: int| 0 <= i < index implies !lies_in(#[trigger] ranges[i], segment) by {
            assert(layout[i].gpa == ranges[i].gpa);
        }
        assert(layout[index].file_offset == total_length(ranges.take(index)));
        assert(begins_at(
            ranges,
            index,
            segment,
            placed(layout, segment).restore_file_offset as int,
        ));
    }
}

} // verus!
