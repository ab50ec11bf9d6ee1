//! What holds of every capture.

use vstd::prelude::*;
use crate::capture_error::CaptureError;
use crate::capture_files::is_file_url;
use crate::capture_files::law_requested_file;
use crate::capture_files::JsonDocument;
use crate::capture_files::MEMORY_MANIFEST_FILE;
use crate::incremental_snapshot::delta_segments;
use crate::incremental_snapshot::in_file_order;
use crate::incremental_snapshot::next_unfinished;
use crate::incremental_snapshot::AppendView;
use crate::incremental_snapshot::CaptureView;
use crate::incremental_snapshot::CompatibilityDescriptor;
use crate::incremental_snapshot::FinalizeStep;
use crate::incremental_snapshot::MemoryDeltaManifest;
use crate::incremental_snapshot::OperationView;
use crate::incremental_snapshot::VmConfig;
use crate::protocol::lemma_total_length_grows;
use crate::protocol::lemma_total_length_step;
use crate::protocol::total_length;
use crate::protocol::MemoryRange;
use crate::restore_laws::address_offset;
use crate::restore_laws::apply_segments;
use crate::restore_laws::are_disjoint;
use crate::restore_laws::begins_in_the_first;
use crate::restore_laws::captures;
use crate::restore_laws::covers;
use crate::restore_laws::law_latest_capture_is_restored;
use crate::restore_laws::law_layout_keeps_the_ranges;
use crate::restore_laws::law_other_positions_stay;
use crate::restore_laws::law_segment_goes_where_its_addresses_are;
use crate::restore_laws::law_segments_fit_in_the_restored_file;
use crate::restore_laws::lemma_enclosed_and_placed;
use crate::restore_laws::lies_in_one;
use crate::restore_laws::stand_one_after_the_other;
use crate::restore_layout::fails_at;
use crate::restore_layout::is_placeable;
use crate::restore_layout::misplacement;
use crate::restore_layout::outgrows_at;
use crate::restore_layout::place_first;
use crate::restore_layout::restore_layout;
use crate::restore_layout::MemoryDeltaSegment;
use crate::restore_layout::MemoryRestoreRange;

verus! {

/// `count` bytes of guest memory from `gpa` on.
pub open spec fn bytes_at(memory: spec_fn(int) -> u8, gpa: int, count: int) -> Seq<u8> {
    Seq::new(count as nat, |k: int| memory(gpa + k))
}

/// The bytes of `ranges`, one range after the other.
pub open spec fn bytes_of(memory: spec_fn(int) -> u8, ranges: Seq<MemoryRange>) -> Seq<u8>
    decreases ranges.len(),
{
    if ranges.len() == 0 {
        Seq::empty()
    } else {
        bytes_of(memory, ranges.drop_last()) + bytes_at(
            memory,
            ranges.last().gpa as int,
            ranges.last().length as int,
        )
    }
}

/// A capture and its memory file after guest memory was copied in pieces of
/// `counts` bytes, each written to the end of the file.
pub open spec fn copied<F>(
    capture: CaptureView<F>,
    delta: Seq<u8>,
    memory: spec_fn(int) -> u8,
    counts: Seq<u64>,
) -> (CaptureView<F>, Seq<u8>)
    decreases counts.len(),
{
    if counts.len() == 0 {
        (capture, delta)
    } else {
        let (before, written) = copied(capture, delta, memory, counts.drop_last());
        let (asking, piece) = before.next_copy();
        (
            asking.record_copy(counts.last() as int),
            written + bytes_at(memory, piece.unwrap().gpa as int, counts.last() as int),
        )
    }
}

/// Whether the capture asks for a piece before each of `counts`, and can have got
/// that many bytes of it.
pub open spec fn can_copy<F>(
    capture: CaptureView<F>,
    delta: Seq<u8>,
    memory: spec_fn(int) -> u8,
    counts: Seq<u64>,
) -> bool
    decreases counts.len(),
{
    counts.len() > 0 ==> {
        let before = copied(capture, delta, memory, counts.drop_last()).0;
        &&& can_copy(capture, delta, memory, counts.drop_last())
        &&& before.next_copy().1 is Some
        &&& before.next_copy().0.accepts_copy(counts.last() as int)
    }
}

proof fn lemma_bytes_step(memory: spec_fn(int) -> u8, ranges: Seq<MemoryRange>, index: int)
    requires
        0 <= index < ranges.len(),
    ensures
        bytes_of(memory, ranges.take(index + 1)) == bytes_of(memory, ranges.take(index))
            + bytes_at(memory, ranges[index].gpa as int, ranges[index].length as int),
{
    assert(ranges.take(index + 1).drop_last() =~= ranges.take(index));
}

proof fn lemma_bytes_length(memory: spec_fn(int) -> u8, ranges: Seq<MemoryRange>)
    ensures
        bytes_of(memory, ranges).len() == total_length(ranges),
    decreases ranges.len(),
{
    if ranges.len() > 0 {
        lemma_bytes_length(memory, ranges.drop_last());
    }
}

/// Byte `k` of range `index` stands where the ranges before it end, and `k` on.
proof fn lemma_byte_of_range(
    memory: spec_fn(int) -> u8,
    ranges: Seq<MemoryRange>,
    index: int,
    k: int,
)
    requires
        0 <= index < ranges.len(),
        0 <= k < ranges[index].length,
    ensures
        total_length(ranges.take(index)) + k < bytes_of(memory, ranges).len(),
        bytes_of(memory, ranges)[total_length(ranges.take(index)) + k] == memory(
            ranges[index].gpa + k,
        ),
    decreases ranges.len(),
{
    let shorter = ranges.drop_last();
    lemma_bytes_length(memory, shorter);
    assert(ranges.take(ranges.len() - 1) =~= shorter);
    if index < ranges.len() - 1 {
        lemma_byte_of_range(memory, shorter, index, k);
        assert(shorter.take(index) =~= ranges.take(index));
    }
}

proof fn lemma_skip_finished(
    memory: spec_fn(int) -> u8,
    ranges: Seq<MemoryRange>,
    index: int,
    offset: int,
)
    requires
        0 <= index <= ranges.len(),
        0 <= offset,
        index < ranges.len() ==> offset <= ranges[index].length,
        index == ranges.len() ==> offset == 0,
    ensures
        ({
            let next = next_unfinished(ranges, index, offset);
            let next_offset = if next == index {
                offset
            } else {
                0
            };
            &&& index <= next <= ranges.len()
            &&& next < ranges.len() ==> next_offset < ranges[next].length
            &&& bytes_of(memory, ranges.take(index)) + bytes_at(
                memory,
                ranges[index].gpa as int,
                offset,
            ) == bytes_of(memory, ranges.take(next)) + bytes_at(
                memory,
                ranges[next].gpa as int,
                next_offset,
            )
            &&& total_length(ranges.take(index)) + offset == total_length(ranges.take(next))
                + next_offset
        }),
    decreases ranges.len() - index,
{
    if index < ranges.len() && offset >= ranges[index].length {
        lemma_skip_finished(memory, ranges, index + 1, 0);
        lemma_bytes_step(memory, ranges, index);
        lemma_total_length_step(ranges, index);
        let next = next_unfinished(ranges, index, offset);
        assert(bytes_of(memory, ranges.take(index + 1)) + bytes_at(
            memory,
            ranges[index + 1].gpa as int,
            0,
        ) =~= bytes_of(memory, ranges.take(index + 1)));
        assert(next > index);
    }
}

/// How an append stands after some pieces were copied.
spec fn append_stands<F>(
    start: CaptureView<F>,
    ranges: Seq<MemoryRange>,
    delta: Seq<u8>,
    memory: spec_fn(int) -> u8,
    now: CaptureView<F>,
    written: Seq<u8>,
) -> bool {
    &&& now.operation matches OperationView::Appending(append)
    &&& now == (CaptureView {
        segments: now.segments,
        bytes_written: now.bytes_written,
        operation: now.operation,
        ..start.append(ranges)
    })
    &&& append.ranges == ranges
    &&& append.base == start.bytes_written
    &&& append.earlier == start.segments
    &&& 0 <= append.index <= ranges.len()
    &&& 0 <= append.range_offset
    &&& append.index < ranges.len() ==> append.range_offset <= ranges[append.index].length
    &&& append.index < ranges.len() && append.range_offset < ranges[append.index].length
        ==> ranges[append.index].gpa + append.range_offset <= u64::MAX
    &&& append.index == ranges.len() ==> append.range_offset == 0
    &&& now.bytes_written == start.bytes_written + total_length(ranges.take(append.index))
        + append.range_offset
    &&& now.bytes_written <= u64::MAX
    &&& written == delta + bytes_of(memory, ranges.take(append.index)) + bytes_at(
        memory,
        ranges[append.index].gpa as int,
        append.range_offset,
    )
}

proof fn lemma_append_stands<F>(
    start: CaptureView<F>,
    ranges: Seq<MemoryRange>,
    delta: Seq<u8>,
    memory: spec_fn(int) -> u8,
    counts: Seq<u64>,
)
    requires
        start.wf(),
        delta.len() == start.bytes_written,
        can_copy(start.append(ranges), delta, memory, counts),
    ensures
        ({
            let (now, written) = copied(start.append(ranges), delta, memory, counts);
            append_stands(start, ranges, delta, memory, now, written)
        }),
    decreases counts.len(),
{
    if counts.len() == 0 {
        assert(ranges.take(0) =~= Seq::empty());
        assert(delta + Seq::<u8>::empty() + bytes_at(memory, ranges[0].gpa as int, 0) =~= delta);
    } else {
        lemma_append_stands(start, ranges, delta, memory, counts.drop_last());
        let (before, so_far) = copied(start.append(ranges), delta, memory, counts.drop_last());
        let append = before.operation->Appending_0;
        let (asking, piece) = before.next_copy();
        let next = append.advanced();
        let count = counts.last() as int;
        lemma_skip_finished(memory, ranges, append.index, append.range_offset);
        let gpa = ranges[next.index].gpa as int;
        assert(piece.unwrap().gpa == gpa + next.range_offset);
        assert(bytes_at(memory, gpa, next.range_offset) + bytes_at(
            memory,
            gpa + next.range_offset,
            count,
        ) =~= bytes_at(memory, gpa, next.range_offset + count));
        assert(delta + bytes_of(memory, ranges.take(append.index)) + bytes_at(
            memory,
            ranges[append.index].gpa as int,
            append.range_offset,
        ) =~= delta + (bytes_of(memory, ranges.take(append.index)) + bytes_at(
            memory,
            ranges[append.index].gpa as int,
            append.range_offset,
        )));
        assert(delta + bytes_of(memory, ranges.take(next.index)) + bytes_at(
            memory,
            gpa,
            next.range_offset + count,
        ) =~= delta + (bytes_of(memory, ranges.take(next.index)) + bytes_at(
            memory,
            gpa,
            next.range_offset,
        )) + bytes_at(memory, gpa + next.range_offset, count));
    }
}

proof fn lemma_segments_in_order<F>(start: CaptureView<F>, ranges: Seq<MemoryRange>)
    requires
        start.wf(),
        start.bytes_written + total_length(ranges) <= u64::MAX,
    ensures
        in_file_order(
            start.segments + delta_segments(ranges, start.bytes_written),
            start.bytes_written + total_length(ranges),
        ),
{
    let segments = start.segments + delta_segments(ranges, start.bytes_written);
    let n = start.segments.len() as int;
    assert(ranges.take(ranges.len() as int) =~= ranges);
    assert forall|i: int| n <= i < segments.len() implies {
        &&& (#[trigger] segments[i]).file_offset == start.bytes_written + total_length(
            ranges.take(i - n),
        )
        &&& segments[i].file_offset + segments[i].length == start.bytes_written + total_length(
            ranges.take(i - n + 1),
        )
        &&& segments[i].file_offset + segments[i].length <= start.bytes_written + total_length(
            ranges,
        )
    } by {
        lemma_total_length_step(ranges, i - n);
        lemma_total_length_grows(ranges, i - n + 1, ranges.len() as int);
    }
    assert forall|i: int| 0 <= i < n implies #[trigger] segments[i] == start.segments[i] by {}
    assert forall|i: int, j: int| 0 <= i < j < segments.len() implies (
    #[trigger] segments[i]).file_offset + segments[i].length <= (
    #[trigger] segments[j]).file_offset by {
        if n <= i {
            lemma_total_length_grows(ranges, i - n + 1, j - n);
        }
    }
}

/// However guest memory is copied in pieces, an append that is complete has put the
/// bytes of its ranges, one after the other, at the end of the memory file, and
/// has a segment for each that finds them there.
pub proof fn law_append_copies_the_ranges<F>(
    start: CaptureView<F>,
    ranges: Seq<MemoryRange>,
    delta: Seq<u8>,
    memory: spec_fn(int) -> u8,
    counts: Seq<u64>,
)
    requires
        start.wf(),
        delta.len() == start.bytes_written,
        can_copy(start.append(ranges), delta, memory, counts),
        copied(start.append(ranges), delta, memory, counts).0.next_copy().1 is None,
    ensures
        ({
            let (last, written) = copied(start.append(ranges), delta, memory, counts);
            let done = last.next_copy().0;
            &&& written == delta + bytes_of(memory, ranges)
            &&& done == (CaptureView {
                segments: start.segments + delta_segments(ranges, start.bytes_written),
                bytes_written: written.len() as int,
                ..start.append(ranges).idle()
            })
            &&& done.wf()
            &&& forall|i: int, a: int|
                start.segments.len() <= i < done.segments.len() && #[trigger] captures(
                    done.segments[i],
                    a,
                ) ==> written[done.segments[i].file_offset + (a - done.segments[i].gpa)] == memory(
                    a,
                )
        }),
{
    lemma_append_stands(start, ranges, delta, memory, counts);
    let (last, written) = copied(start.append(ranges), delta, memory, counts);
    let done = last.next_copy().0;
    let append = last.operation->Appending_0;
    let next = append.advanced();
    lemma_skip_finished(memory, ranges, append.index, append.range_offset);
    assert(next.index == ranges.len());
    assert(ranges.take(ranges.len() as int) =~= ranges);
    assert(bytes_of(memory, ranges) + bytes_at(memory, ranges[next.index].gpa as int, 0)
        =~= bytes_of(memory, ranges));
    assert(append.range_offset == 0 || next.index != append.index);
    assert(written =~= delta + (bytes_of(memory, ranges.take(append.index)) + bytes_at(
        memory,
        ranges[append.index].gpa as int,
        append.range_offset,
    )));
    lemma_bytes_length(memory, ranges);
    lemma_segments_in_order(start, ranges);
    assert forall|i: int, a: int|
        start.segments.len() <= i < done.segments.len() && #[trigger] captures(
            done.segments[i],
            a,
        ) implies written[done.segments[i].file_offset + (a - done.segments[i].gpa)] == memory(
        a,
    ) by {
        let k = i - start.segments.len();
        assert(done.segments[i] == delta_segments(ranges, start.bytes_written)[k]);
        lemma_byte_of_range(memory, ranges, k, a - ranges[k].gpa);
        lemma_total_length_grows(ranges, k, ranges.len() as int);
        assert(done.segments[i].file_offset == start.bytes_written + total_length(ranges.take(k)));
    }
}

/// In the memory file of a capture the segments stand in their order, and no two of
/// them overlap.
pub proof fn law_segments_do_not_overlap<F>(capture: CaptureView<F>, first: int, second: int)
    requires
        capture.wf(),
        0 <= first < second < capture.segments.len(),
    ensures
        capture.segments[first].file_offset + capture.segments[first].length
            <= capture.segments[second].file_offset,
        capture.segments[second].file_offset + capture.segments[second].length
            <= capture.bytes_written,
{
}

/// What was recorded as captured stays recorded, whatever comes of the append: an
/// append that is complete, that fails or that cannot even start, a new layout, a
/// finalization, and a capture that is given up, keep every range.
pub proof fn law_captured_ranges_are_kept<F>(
    capture: CaptureView<F>,
    ranges: Seq<MemoryRange>,
    count: int,
    file: F,
    segments: Seq<MemoryDeltaSegment>,
    restore_ranges: Seq<MemoryRestoreRange>,
    restore_file_size: u64,
    done: bool,
)
    ensures
        capture.append(ranges).captured_ranges == capture.captured_ranges + ranges,
        capture.append(ranges).idle().captured_ranges == capture.captured_ranges + ranges,
        capture.next_copy().0.captured_ranges == capture.captured_ranges,
        capture.record_copy(count).captured_ranges == capture.captured_ranges,
        capture.with_file(file).captured_ranges == capture.captured_ranges,
        capture.laid_out(segments, restore_ranges, restore_file_size).captured_ranges
            == capture.captured_ranges,
        capture.failed().captured_ranges == capture.captured_ranges,
        capture.finalizing().captured_ranges == capture.captured_ranges,
        capture.memory_flushed(done).captured_ranges == capture.captured_ranges,
        capture.manifest_written(done).captured_ranges == capture.captured_ranges,
{
}

/// A finalization ends in the phase `Finalized` exactly when the memory file, if it
/// was open, was flushed and the manifest was written; otherwise the phase is as
/// before. Either way the memory file is closed and what was captured is unchanged.
pub proof fn law_finalized_means_flushed_and_written<F>(
    capture: CaptureView<F>,
    flushed: bool,
    written: bool,
)
    requires
        capture.wf(),
        capture.phase is Capturing,
    ensures
        ({
            let end = capture.finalizing().memory_flushed(flushed).manifest_written(written);
            &&& end.phase is Finalized <==> written && (flushed || capture.memory_file is None)
            &&& !(end.phase is Finalized) ==> end.phase is Capturing
            &&& end.memory_file is None
            &&& end.segments == capture.segments
            &&& end.restore_ranges == capture.restore_ranges
            &&& end.restore_file_size == capture.restore_file_size
        }),
{
}

/// A capture that has left the phase `Capturing` never comes back to it, and one
/// whose memory file is closed never opens it again.
pub proof fn law_no_way_back<F>(
    capture: CaptureView<F>,
    ranges: Seq<MemoryRange>,
    count: int,
    file: F,
    segments: Seq<MemoryDeltaSegment>,
    restore_ranges: Seq<MemoryRestoreRange>,
    restore_file_size: u64,
    done: bool,
)
    ensures
        ({
            let after = seq![
                capture.append(ranges),
                capture.append(ranges).idle(),
                capture.idle(),
                capture.next_copy().0,
                capture.record_copy(count),
                capture.with_file(file),
                capture.laid_out(segments, restore_ranges, restore_file_size),
                capture.failed(),
                capture.finalizing(),
                capture.memory_flushed(done),
                capture.manifest_written(done),
            ];
            forall|i: int|
                0 <= i < after.len() ==> {
                    &&& (#[trigger] after[i]).phase is Capturing ==> capture.phase is Capturing
                    &&& after[i].memory_file is Some ==> capture.memory_file is Some
                }
        }),
{
}

/// An append asks for guest memory until all of its ranges are copied, and always
/// for at least a byte: it is complete exactly when the memory file has grown by
/// what the ranges hold.
pub proof fn law_append_ends_when_all_is_copied<F>(capture: CaptureView<F>, append: AppendView)
    requires
        capture.wf(),
        capture.operation == OperationView::Appending(append),
    ensures
        capture.bytes_written <= append.base + total_length(append.ranges),
        capture.next_copy().1 is None <==> capture.bytes_written == append.base + total_length(
            append.ranges,
        ),
        capture.next_copy().1 matches Some(piece) ==> 0 < piece.length <= append.base
            + total_length(append.ranges) - capture.bytes_written,
{
    let ranges = append.ranges;
    let next = append.advanced();
    lemma_skip_finished(|a: int| 0u8, ranges, append.index, append.range_offset);
    assert(ranges.take(ranges.len() as int) =~= ranges);
    if next.index < ranges.len() {
        lemma_total_length_step(ranges, next.index);
        lemma_total_length_grows(ranges, next.index + 1, ranges.len() as int);
    }
}

/// The last segment that captures `address`.
proof fn lemma_last_capture(segments: Seq<MemoryDeltaSegment>, address: int, index: int) -> (last:
    int)
    requires
        0 <= index < segments.len(),
        captures(segments[index], address),
    ensures
        index <= last < segments.len(),
        captures(segments[last], address),
        forall|j: int| last < j < segments.len() ==> !captures(#[trigger] segments[j], address),
    decreases segments.len() - index,
{
    if exists|j: int| index < j < segments.len() && captures(#[trigger] segments[j], address) {
        let later = choose|j: int|
            index < j < segments.len() && captures(#[trigger] segments[j], address);
        lemma_last_capture(segments, address, later)
    } else {
        index
    }
}

/// Whether one of `ranges` has `address`.
pub open spec fn range_table_has(ranges: Seq<MemoryRange>, address: int) -> bool {
    exists|i: int|
        0 <= i < ranges.len() && (#[trigger] ranges[i]).gpa <= address < ranges[i].gpa
            + ranges[i].length
}

/// A complete append: the ranges that were appended, guest memory as the append saw
/// it, and how many bytes were copied at a time.
pub struct CompleteAppend {
    pub ranges: Seq<MemoryRange>,
    pub memory: spec_fn(int) -> u8,
    pub counts: Seq<u64>,
}

/// A capture and its memory file after `appends`, one after the other.
pub open spec fn appended<F>(
    start: CaptureView<F>,
    delta: Seq<u8>,
    appends: Seq<CompleteAppend>,
) -> (CaptureView<F>, Seq<u8>)
    decreases appends.len(),
{
    if appends.len() == 0 {
        (start, delta)
    } else {
        let (before, written) = appended(start, delta, appends.drop_last());
        let append = appends.last();
        let (last, all) = copied(
            before.append(append.ranges),
            written,
            append.memory,
            append.counts,
        );
        (last.next_copy().0, all)
    }
}

/// Whether each of `appends` can be made after those before it, and is complete.
pub open spec fn can_append<F>(
    start: CaptureView<F>,
    delta: Seq<u8>,
    appends: Seq<CompleteAppend>,
) -> bool
    decreases appends.len(),
{
    appends.len() > 0 ==> {
        let (before, written) = appended(start, delta, appends.drop_last());
        let append = appends.last();
        let asking = before.append(append.ranges);
        &&& can_append(start, delta, appends.drop_last())
        &&& can_copy(asking, written, append.memory, append.counts)
        &&& copied(asking, written, append.memory, append.counts).0.next_copy().1 is None
    }
}

/// Whether `address` is in one of the segments of `start`, or in a range of one of
/// `appends`.
pub open spec fn is_captured<F>(
    start: CaptureView<F>,
    appends: Seq<CompleteAppend>,
    address: int,
) -> bool {
    ||| exists|j: int| 0 <= j < start.segments.len() && captures(#[trigger] start.segments[j], address)
    ||| exists|k: int|
        0 <= k < appends.len() && range_table_has((#[trigger] appends[k]).ranges, address)
}

/// The restored file after the segments of `capture`, placed in `layout`, were
/// written to `image` from the memory file `delta`.
pub open spec fn restored<F>(
    capture: CaptureView<F>,
    delta: Seq<u8>,
    layout: Seq<MemoryRange>,
    image: Seq<u8>,
) -> Seq<u8> {
    apply_segments(
        image,
        delta,
        place_first(restore_layout(layout), capture.segments, capture.segments.len() as int),
    )
}

proof fn lemma_appended_is_wf<F>(
    start: CaptureView<F>,
    delta: Seq<u8>,
    appends: Seq<CompleteAppend>,
)
    requires
        start.wf(),
        delta.len() == start.bytes_written,
        can_append(start, delta, appends),
    ensures
        appended(start, delta, appends).0.wf(),
        appended(start, delta, appends).1.len() == appended(start, delta, appends).0.bytes_written,
    decreases appends.len(),
{
    if appends.len() > 0 {
        let (before, written) = appended(start, delta, appends.drop_last());
        let append = appends.last();
        lemma_appended_is_wf(start, delta, appends.drop_last());
        law_append_copies_the_ranges(before, append.ranges, written, append.memory, append.counts);
    }
}

/// The last segment with `address` holds the byte that append `last` saw.
proof fn lemma_latest_segment<F>(
    start: CaptureView<F>,
    delta: Seq<u8>,
    appends: Seq<CompleteAppend>,
    address: int,
    last: int,
) -> (index: int)
    requires
        start.wf(),
        delta.len() == start.bytes_written,
        can_append(start, delta, appends),
        0 <= last < appends.len(),
        range_table_has(appends[last].ranges, address),
        forall|k: int|
            last < k < appends.len() ==> !range_table_has((#[trigger] appends[k]).ranges, address),
    ensures
        ({
            let (end, all) = appended(start, delta, appends);
            &&& 0 <= index < end.segments.len()
            &&& captures(end.segments[index], address)
            &&& forall|j: int|
                index < j < end.segments.len() ==> !captures(#[trigger] end.segments[j], address)
            &&& all[end.segments[index].file_offset + (address - end.segments[index].gpa)] == (
            appends[last].memory)(address)
        }),
    decreases appends.len(),
{
    let shorter = appends.drop_last();
    let append = appends.last();
    let (before, written) = appended(start, delta, shorter);
    let (end, all) = appended(start, delta, appends);
    let ranges = append.ranges;
    let added = delta_segments(ranges, before.bytes_written);
    let n = before.segments.len() as int;
    lemma_appended_is_wf(start, delta, shorter);
    law_append_copies_the_ranges(before, ranges, written, append.memory, append.counts);
    if last == appends.len() - 1 {
        let i = choose|i: int|
            0 <= i < ranges.len() && (#[trigger] ranges[i]).gpa <= address < ranges[i].gpa
                + ranges[i].length;
        assert(end.segments[n + i] == added[i]);
        lemma_last_capture(end.segments, address, n + i)
    } else {
        assert forall|k: int| last < k < shorter.len() implies !range_table_has(
            (#[trigger] shorter[k]).ranges,
            address,
        ) by {
            assert(shorter[k] == appends[k]);
        }
        let index = lemma_latest_segment(start, delta, shorter, address, last);
        assert(end.segments[index] == before.segments[index]);
        assert forall|j: int| index < j < end.segments.len() implies !captures(
            #[trigger] end.segments[j],
            address,
        ) by {
            if j < n {
                assert(end.segments[j] == before.segments[j]);
            } else {
                assert(end.segments[j] == added[j - n]);
                assert(!range_table_has(appends[appends.len() - 1].ranges, address));
                assert(ranges[j - n].gpa == added[j - n].gpa);
            }
        }
        index
    }
}

/// Every address of a segment is captured.
proof fn lemma_segments_are_captured<F>(
    start: CaptureView<F>,
    delta: Seq<u8>,
    appends: Seq<CompleteAppend>,
    index: int,
    address: int,
)
    requires
        start.wf(),
        delta.len() == start.bytes_written,
        can_append(start, delta, appends),
        0 <= index < appended(start, delta, appends).0.segments.len(),
        captures(appended(start, delta, appends).0.segments[index], address),
    ensures
        is_captured(start, appends, address),
    decreases appends.len(),
{
    if appends.len() > 0 {
        let shorter = appends.drop_last();
        let append = appends.last();
        let (before, written) = appended(start, delta, shorter);
        let end = appended(start, delta, appends).0;
        let ranges = append.ranges;
        let n = before.segments.len() as int;
        lemma_appended_is_wf(start, delta, shorter);
        law_append_copies_the_ranges(before, ranges, written, append.memory, append.counts);
        if index < n {
            assert(end.segments[index] == before.segments[index]);
            lemma_segments_are_captured(start, delta, shorter, index, address);
            if exists|k: int|
                0 <= k < shorter.len() && range_table_has((#[trigger] shorter[k]).ranges, address) {
                let k = choose|k: int|
                    0 <= k < shorter.len() && range_table_has(
                        (#[trigger] shorter[k]).ranges,
                        address,
                    );
                assert(appends[k] == shorter[k]);
            }
        } else {
            assert(end.segments[index] == delta_segments(ranges, before.bytes_written)[index - n]);
            assert(ranges[index - n].gpa <= address < ranges[index - n].gpa + ranges[index
                - n].length);
            assert(range_table_has(appends[appends.len() - 1].ranges, address));
        }
    }
}

/// Memory that is captured any number of times is restored as it was the last time:
/// after any appends, each of which saw guest memory in its own state, the restored
/// byte at a guest address is the one that the last append with that address saw.
pub proof fn law_latest_append_is_restored<F>(
    start: CaptureView<F>,
    delta: Seq<u8>,
    appends: Seq<CompleteAppend>,
    layout: Seq<MemoryRange>,
    image: Seq<u8>,
    address: int,
    last: int,
)
    requires
        start.wf(),
        delta.len() == start.bytes_written,
        can_append(start, delta, appends),
        total_length(layout) <= u64::MAX,
        are_disjoint(layout),
        image.len() == total_length(layout),
        forall|j: int|
            0 <= j < appended(start, delta, appends).0.segments.len() ==> is_placeable(
                restore_layout(layout),
                #[trigger] appended(start, delta, appends).0.segments[j],
            ),
        0 <= last < appends.len(),
        range_table_has(appends[last].ranges, address),
        forall|k: int|
            last < k < appends.len() ==> !range_table_has((#[trigger] appends[k]).ranges, address),
    ensures
        ({
            let (end, all) = appended(start, delta, appends);
            let file = restored(end, all, layout, image);
            &&& address_offset(restore_layout(layout), address) matches Some(position)
            &&& 0 <= position < file.len()
            &&& file[position] == (appends[last].memory)(address)
        }),
{
    let (end, all) = appended(start, delta, appends);
    let segments = end.segments;
    let index = lemma_latest_segment(start, delta, appends, address, last);
    let seen = Seq::new(
        segments.len(),
        |j: int| |a: int| all[segments[j].file_offset + (a - segments[j].gpa)],
    );
    law_latest_capture_is_restored(layout, segments, image, all, seen, address, index);
}

/// A position of the restored file that is the place of no captured address keeps
/// the byte that it had.
pub proof fn law_uncaptured_positions_stay<F>(
    start: CaptureView<F>,
    delta: Seq<u8>,
    appends: Seq<CompleteAppend>,
    layout: Seq<MemoryRange>,
    image: Seq<u8>,
    position: int,
)
    requires
        start.wf(),
        delta.len() == start.bytes_written,
        can_append(start, delta, appends),
        total_length(layout) <= u64::MAX,
        are_disjoint(layout),
        image.len() == total_length(layout),
        forall|j: int|
            0 <= j < appended(start, delta, appends).0.segments.len() ==> is_placeable(
                restore_layout(layout),
                #[trigger] appended(start, delta, appends).0.segments[j],
            ),
        0 <= position < image.len(),
        forall|a: int| #[trigger]
            is_captured(start, appends, a) ==> address_offset(restore_layout(layout), a) != Some(
                position,
            ),
    ensures
        ({
            let (end, all) = appended(start, delta, appends);
            restored(end, all, layout, image)[position] == image[position]
        }),
{
    let (end, all) = appended(start, delta, appends);
    let segments = end.segments;
    let placed = place_first(restore_layout(layout), segments, segments.len() as int);
    assert forall|j: int| 0 <= j < placed.len() implies !covers(#[trigger] placed[j], position) by {
        law_segments_fit_in_the_restored_file(layout, segments[j]);
        if covers(placed[j], position) {
            let address = segments[j].gpa + (position - placed[j].restore_file_offset);
            law_segment_goes_where_its_addresses_are(layout, segments[j], address);
            lemma_segments_are_captured(start, delta, appends, j, address);
        }
    }
    law_other_positions_stay(image, all, placed, position);
}

/// Whether `segments` are `earlier` and then one for each of `ranges`, whose bytes
/// stand one after the other from `base` on; none of the new ones has a place yet.
pub open spec fn has_segments_of(
    segments: Seq<MemoryDeltaSegment>,
    earlier: Seq<MemoryDeltaSegment>,
    ranges: Seq<MemoryRange>,
    base: int,
) -> bool {
    &&& segments.len() == earlier.len() + ranges.len()
    &&& forall|i: int| 0 <= i < earlier.len() ==> #[trigger] segments[i] == earlier[i]
    &&& forall|i: int|
        0 <= i < ranges.len() ==> {
            &&& (#[trigger] segments[earlier.len() + i]).gpa == ranges[i].gpa
            &&& segments[earlier.len() + i].length == ranges[i].length
            &&& segments[earlier.len() + i].file_offset == base + total_length(ranges.take(i))
            &&& segments[earlier.len() + i].restore_file_offset == 0
        }
}

/// What an append asks for is what is left of the first range of which anything is,
/// all of it at once; and it has a segment for each range before that one. It asks
/// for nothing exactly when all of its ranges are copied.
pub proof fn law_append_asks_for_what_is_left<F>(
    start: CaptureView<F>,
    ranges: Seq<MemoryRange>,
    delta: Seq<u8>,
    memory: spec_fn(int) -> u8,
    counts: Seq<u64>,
) -> (index: int)
    requires
        start.wf(),
        delta.len() == start.bytes_written,
        can_copy(start.append(ranges), delta, memory, counts),
    ensures
        ({
            let (now, written) = copied(start.append(ranges), delta, memory, counts);
            let (asking, piece) = now.next_copy();
            let offset = written.len() - delta.len() - total_length(ranges.take(index));
            &&& 0 <= index <= ranges.len()
            &&& has_segments_of(
                asking.segments,
                start.segments,
                ranges.take(index),
                start.bytes_written,
            )
            &&& match piece {
                Some(piece) => {
                    &&& index < ranges.len()
                    &&& 0 <= offset < ranges[index].length
                    &&& piece.gpa == ranges[index].gpa + offset
                    &&& piece.length == ranges[index].length - offset
                },
                None => index == ranges.len() && offset == 0,
            }
            &&& asking.operation is Idle <==> piece is None
            &&& asking.bytes_written == written.len()
            &&& asking.captured_ranges == start.captured_ranges + ranges
            &&& asking.phase == start.phase
            &&& asking.memory_file == start.memory_file
            &&& asking.id == start.id
            &&& asking.destination_url == start.destination_url
            &&& asking.restore_ranges == start.restore_ranges
            &&& asking.restore_file_size == start.restore_file_size
        }),
{
    lemma_append_stands(start, ranges, delta, memory, counts);
    let (now, written) = copied(start.append(ranges), delta, memory, counts);
    let append = now.operation->Appending_0;
    let index = append.advanced().index;
    let asking = now.next_copy().0;
    let done = ranges.take(index);
    lemma_skip_finished(memory, ranges, append.index, append.range_offset);
    lemma_bytes_length(memory, ranges.take(append.index));
    assert forall|i: int| 0 <= i < done.len() implies {
        &&& (#[trigger] asking.segments[start.segments.len() + i])
            == delta_segments(done, start.bytes_written)[i]
        &&& start.bytes_written + total_length(done.take(i)) <= u64::MAX
    } by {
        assert(done.take(i) =~= ranges.take(i));
        lemma_total_length_grows(ranges, i, index);
    }
    index
}

/// Of the piece that an append has asked for, any part can have been copied, as long
/// as neither the length of the memory file nor the next address overflows; and no
/// more than that.
pub proof fn law_any_part_of_the_piece_can_be_copied<F>(capture: CaptureView<F>, count: int)
    requires
        capture.wf(),
    ensures
        match capture.next_copy().1 {
            Some(piece) => capture.next_copy().0.accepts_copy(count) <==> {
                &&& 0 <= count <= piece.length
                &&& capture.bytes_written + count <= u64::MAX
                &&& count < piece.length ==> piece.gpa + count <= u64::MAX
            },
            None => !capture.next_copy().0.accepts_copy(count),
        },
{
    match capture.operation {
        OperationView::Appending(append) => {
            lemma_skip_finished(|a: int| 0u8, append.ranges, append.index, append.range_offset);
        },
        _ => {},
    }
}

/// A copy moves the end of the memory file by what was copied, and what is asked for
/// next is the rest of the piece, where there is one.
pub proof fn law_rest_of_the_piece_comes_next<F>(capture: CaptureView<F>, count: int)
    requires
        capture.wf(),
        capture.next_copy().1 is Some,
        capture.next_copy().0.accepts_copy(count),
    ensures
        ({
            let (asking, piece) = capture.next_copy();
            let after = asking.record_copy(count);
            &&& after.bytes_written == capture.bytes_written + count
            &&& after.segments == asking.segments
            &&& after.id == capture.id
            &&& after.destination_url == capture.destination_url
            &&& after.memory_file == capture.memory_file
            &&& after.captured_ranges == capture.captured_ranges
            &&& after.restore_file_size == capture.restore_file_size
            &&& after.restore_ranges == capture.restore_ranges
            &&& after.phase == capture.phase
            &&& count < piece.unwrap().length ==> {
                let (again, rest) = after.next_copy();
                &&& rest matches Some(rest)
                &&& rest.gpa == piece.unwrap().gpa + count
                &&& rest.length == piece.unwrap().length - count
                &&& again.segments == asking.segments
            }
        }),
{
    let append = capture.operation->Appending_0;
    lemma_skip_finished(|a: int| 0u8, append.ranges, append.index, append.range_offset);
}

/// An append is refused without a trace where the capture has ended. Otherwise its
/// ranges are recorded behind those before them, nothing else of the capture changes,
/// and it starts unless the memory file is closed.
pub proof fn law_when_an_append_starts<F>(capture: CaptureView<F>, ranges: Seq<MemoryRange>)
    ensures
        ({
            let (after, started) = capture.append_memory(ranges);
            &&& started is Ok <==> capture.phase is Capturing && capture.memory_file is Some
            &&& started is Ok ==> after == capture.append(ranges)
            &&& !(capture.phase is Capturing) ==> {
                &&& after == capture
                &&& started == Err::<(), CaptureError>(
                    CaptureError::NotAccepting { id: capture.id, phase: capture.phase },
                )
            }
            &&& capture.phase is Capturing && capture.memory_file is None ==> {
                &&& after.operation is Idle
                &&& started == Err::<(), CaptureError>(
                    CaptureError::MemoryFileClosed { id: capture.id },
                )
            }
            &&& capture.phase is Capturing ==> {
                let n = capture.captured_ranges.len() as int;
                &&& after.captured_ranges.len() == n + ranges.len()
                &&& forall|i: int|
                    0 <= i < n ==> #[trigger] after.captured_ranges[i]
                        == capture.captured_ranges[i]
                &&& forall|i: int|
                    0 <= i < ranges.len() ==> after.captured_ranges[n + i] == #[trigger] ranges[i]
            }
            &&& after.segments == capture.segments
            &&& after.bytes_written == capture.bytes_written
            &&& after.memory_file == capture.memory_file
            &&& after.phase == capture.phase
            &&& after.id == capture.id
            &&& after.destination_url == capture.destination_url
            &&& after.restore_ranges == capture.restore_ranges
            &&& after.restore_file_size == capture.restore_file_size
        }),
{
}

/// A new capture accepts memory, holds none, and knows who it is and where it goes.
pub proof fn law_new_capture_is_empty<F>(id: u64, destination_url: Seq<char>, memory_file: F)
    ensures
        ({
            let capture = CaptureView::created(id, destination_url, memory_file);
            &&& capture.id == id
            &&& capture.destination_url == destination_url
            &&& capture.memory_file == Some(memory_file)
            &&& capture.phase is Capturing
            &&& capture.operation is Idle
            &&& capture.segments.len() == 0
            &&& capture.captured_ranges.len() == 0
            &&& capture.bytes_written == 0
            &&& capture.restore_file_size == 0
            &&& capture.restore_ranges.len() == 0
        }),
{
}

/// Whether `after` is the same capture as `capture` and holds the same memory, with
/// the same place for it.
pub open spec fn holds_the_same<F>(capture: CaptureView<F>, after: CaptureView<F>) -> bool {
    &&& after.id == capture.id
    &&& after.destination_url == capture.destination_url
    &&& after.segments == capture.segments
    &&& after.captured_ranges == capture.captured_ranges
    &&& after.bytes_written == capture.bytes_written
    &&& after.restore_file_size == capture.restore_file_size
    &&& after.restore_ranges == capture.restore_ranges
}

/// Stopping the work of a capture, giving the capture up and using its memory file
/// leave everything else as it is: what was captured, how much was written, and where
/// it goes.
pub proof fn law_what_stays_when_work_stops<F>(capture: CaptureView<F>, file: F)
    ensures
        holds_the_same(capture, capture.idle()),
        holds_the_same(capture, capture.failed()),
        holds_the_same(capture, capture.with_file(file)),
        capture.idle().operation is Idle,
        capture.idle().phase == capture.phase,
        capture.idle().memory_file == capture.memory_file,
        capture.failed().operation is Idle,
        capture.failed().phase is Failed,
        capture.failed().memory_file == capture.memory_file,
        capture.with_file(file).phase == capture.phase,
        capture.with_file(file).operation == capture.operation,
        capture.memory_file is Some ==> capture.with_file(file).memory_file == Some(file),
        capture.memory_file is None ==> capture.with_file(file) == capture,
{
}

/// A restore layout can be set exactly where the ranges fit in a file and each
/// segment lies in one of them. Then the ranges stand in the restored file one after
/// the other, the file is as long as they are together, and each segment begins where
/// its address is in the first range that it lies in.
pub proof fn law_when_a_layout_is_set<F>(
    capture: CaptureView<F>,
    ranges: Seq<MemoryRange>,
    outcome: Result<(), CaptureError>,
    after: CaptureView<F>,
)
    requires
        capture.sets_restore_layout(ranges, outcome, after),
    ensures
        outcome is Ok <==> {
            &&& total_length(ranges) <= u64::MAX
            &&& forall|j: int|
                0 <= j < capture.segments.len() ==> lies_in_one(
                    ranges,
                    #[trigger] capture.segments[j],
                )
        },
        outcome is Ok ==> {
            &&& after.restore_file_size == total_length(ranges)
            &&& after.restore_ranges.len() == ranges.len()
            &&& stand_one_after_the_other(after.restore_ranges, ranges)
            &&& forall|j: int|
                0 <= j < capture.segments.len() ==> begins_in_the_first(
                        ranges,
                        capture.segments[j],
                        (#[trigger] after.segments[j]).restore_file_offset as int,
                    )
        },
{
    if total_length(ranges) <= u64::MAX {
        lemma_total_without_last(ranges);
        law_layout_keeps_the_ranges(ranges);
        assert forall|j: int| 0 <= j < capture.segments.len() implies is_placeable(
            restore_layout(ranges),
            capture.segments[j],
        ) == lies_in_one(ranges, #[trigger] capture.segments[j]) by {
            lemma_enclosed_and_placed(ranges, capture.segments[j]);
        }
        if outcome is Ok {
            assert forall|j: int| 0 <= j < capture.segments.len() implies begins_in_the_first(
                        ranges,
                        capture.segments[j],
                        (#[trigger] after.segments[j]).restore_file_offset as int,
                    ) by {
                lemma_enclosed_and_placed(ranges, capture.segments[j]);
            }
        }
    }
}

proof fn lemma_total_without_last(ranges: Seq<MemoryRange>)
    requires
        total_length(ranges) <= u64::MAX,
    ensures
        ranges.len() > 0 ==> total_length(ranges.drop_last()) <= u64::MAX,
{
}

/// Where a layout cannot be set, the error says why: the ranges are too long for a
/// file, or the first segment that lies in none of them has addresses past the end of
/// the address space, or is named. What was settled before that stays: the ranges up
/// to the one that is too much, or all of them and the places of the segments before
/// the one without.
pub proof fn law_why_a_layout_is_not_set<F>(
    capture: CaptureView<F>,
    ranges: Seq<MemoryRange>,
    error: CaptureError,
    after: CaptureView<F>,
)
    requires
        capture.sets_restore_layout(ranges, Err(error), after),
    ensures
        total_length(ranges) > u64::MAX ==> {
            let n = after.restore_ranges.len() as int;
            &&& error is RestoreSizeOverflow
            &&& after.restore_file_size == capture.restore_file_size
            &&& after.segments == capture.segments
            &&& 0 < n <= ranges.len()
            &&& stand_one_after_the_other(after.restore_ranges, ranges)
            &&& total_length(ranges.take(n - 1)) <= u64::MAX < total_length(ranges.take(n))
        },
        total_length(ranges) <= u64::MAX ==> {
            &&& after.restore_file_size == total_length(ranges)
            &&& after.restore_ranges.len() == ranges.len()
            &&& stand_one_after_the_other(after.restore_ranges, ranges)
            &&& exists|j: int| #[trigger]
                is_first_outside(ranges, capture.segments, j) && {
                    let segment = capture.segments[j];
                    &&& if segment.gpa + segment.length > u64::MAX {
                        error is GpaOverflow
                    } else {
                        error matches CaptureError::OutsideRestoreLayout { gpa, end } && gpa
                            == segment.gpa && end == segment.gpa + segment.length
                    }
                    &&& forall|k: int|
                        0 <= k < j ==> begins_in_the_first(
                        ranges,
                        capture.segments[k],
                        (#[trigger] after.segments[k]).restore_file_offset as int,
                    )
                    &&& forall|k: int|
                        j <= k < capture.segments.len() ==> #[trigger] after.segments[k]
                            == capture.segments[k]
                }
        },
{
    let layout = restore_layout(ranges);
    if total_length(ranges) > u64::MAX {
        let index = choose|index: int| #[trigger]
            outgrows_at(ranges, index) && after == capture.laid_out(
                capture.segments,
                restore_layout(ranges.take(index + 1)),
                capture.restore_file_size,
            );
        let first = ranges.take(index + 1);
        assert(first.drop_last() =~= ranges.take(index));
        law_layout_keeps_the_ranges(first);
        assert forall|i: int| 0 <= i < after.restore_ranges.len() implies {
            &&& (#[trigger] after.restore_ranges[i]).gpa == ranges[i].gpa
            &&& after.restore_ranges[i].length == ranges[i].length
        } by {
            assert(first[i] == ranges[i]);
        }
    } else {
        lemma_total_without_last(ranges);
        law_layout_keeps_the_ranges(ranges);
        let j = choose|j: int| #[trigger]
            fails_at(layout, capture.segments, j) && error == misplacement(capture.segments[j])
                && after == capture.laid_out(
                place_first(layout, capture.segments, j),
                layout,
                total_length(ranges) as u64,
            );
        lemma_enclosed_and_placed(ranges, capture.segments[j]);
        assert forall|k: int| 0 <= k < j implies lies_in_one(
            ranges,
            #[trigger] capture.segments[k],
        ) by {
            lemma_enclosed_and_placed(ranges, capture.segments[k]);
        }
        assert(is_first_outside(ranges, capture.segments, j));
        assert forall|k: int| 0 <= k < j implies begins_in_the_first(
                        ranges,
                        capture.segments[k],
                        (#[trigger] after.segments[k]).restore_file_offset as int,
                    ) by {
            lemma_enclosed_and_placed(ranges, capture.segments[k]);
        }
    }
}

/// Whether segment `index` is the first of `segments` that lies in none of `ranges`.
pub open spec fn is_first_outside(
    ranges: Seq<MemoryRange>,
    segments: Seq<MemoryDeltaSegment>,
    index: int,
) -> bool {
    &&& 0 <= index < segments.len()
    &&& !lies_in_one(ranges, segments[index])
    &&& forall|k: int| 0 <= k < index ==> lies_in_one(ranges, #[trigger] segments[k])
}

/// A layout changes where segments go and nothing else of them, whether it can be set
/// or not; and nothing else of the capture but that an append under way is given up.
pub proof fn law_layout_changes_places_only<F>(
    capture: CaptureView<F>,
    ranges: Seq<MemoryRange>,
    outcome: Result<(), CaptureError>,
    after: CaptureView<F>,
)
    requires
        capture.sets_restore_layout(ranges, outcome, after),
    ensures
        after.segments.len() == capture.segments.len(),
        forall|j: int|
            0 <= j < capture.segments.len() ==> {
                &&& (#[trigger] after.segments[j]).gpa == capture.segments[j].gpa
                &&& after.segments[j].length == capture.segments[j].length
                &&& after.segments[j].file_offset == capture.segments[j].file_offset
            },
        after.operation is Idle,
        after.id == capture.id,
        after.destination_url == capture.destination_url,
        after.memory_file == capture.memory_file,
        after.captured_ranges == capture.captured_ranges,
        after.bytes_written == capture.bytes_written,
        after.phase == capture.phase,
{
}

/// A capture can be finalized exactly where it has not ended. Its memory file is
/// closed, to be flushed first where it was open; where it was not, the manifest is
/// next. Everything else stays.
pub proof fn law_when_a_finalization_starts<F>(
    capture: CaptureView<F>,
    step: Result<FinalizeStep<F>, CaptureError>,
    after: CaptureView<F>,
)
    requires
        capture.starts_to_finalize(step, after),
    ensures
        step is Ok <==> capture.phase is Capturing,
        step matches Err(error) ==> {
            &&& after == capture
            &&& error == (CaptureError::NotFinalizable { id: capture.id, phase: capture.phase })
        },
        step matches Ok(FinalizeStep::FlushMemory(file)) ==> {
            &&& capture.memory_file == Some(file)
            &&& after.operation is Flushing
        },
        step matches Ok(FinalizeStep::WriteManifest(document)) ==> {
            &&& capture.memory_file is None
            &&& capture.is_published_by(document)
            &&& after.operation is Publishing
        },
        step is Ok ==> after.memory_file is None,
        after.phase == capture.phase,
        holds_the_same(capture, after),
{
}

/// The manifest follows the flush of the memory file and nothing else, and where the
/// file could not be flushed there is none.
pub proof fn law_manifest_follows_the_flush<F>(
    capture: CaptureView<F>,
    flushed: bool,
    document: Option<JsonDocument<MemoryDeltaManifest>>,
)
    requires
        capture.publishes_once_flushed(flushed, document),
    ensures
        document is Some <==> capture.operation is Flushing && flushed,
        document is Some ==> capture.is_published_by(document.unwrap()),
        ({
            let after = capture.memory_flushed(flushed);
            &&& capture.operation is Flushing && flushed ==> after.operation is Publishing
            &&& capture.operation is Flushing && !flushed ==> after.operation is Idle
            &&& !(capture.operation is Flushing) ==> after == capture
            &&& after.phase == capture.phase
            &&& after.memory_file == capture.memory_file
            &&& holds_the_same(capture, after)
        }),
{
}

/// A capture ends with the manifest that was asked for, and with nothing else; where
/// it could not be written the capture is as before.
pub proof fn law_manifest_ends_the_capture<F>(capture: CaptureView<F>, written: bool)
    ensures
        ({
            let after = capture.manifest_written(written);
            &&& !(capture.operation is Publishing) ==> after == capture
            &&& capture.operation is Publishing ==> after.operation is Idle
            &&& capture.operation is Publishing && written ==> after.phase is Finalized
            &&& !written ==> after.phase == capture.phase
            &&& after.memory_file == capture.memory_file
            &&& holds_the_same(capture, after)
        }),
{
}

/// A manifest goes under its name to the directory of the capture, and lists all of
/// its segments, in order, with the layout that they are placed in.
pub proof fn law_manifest_lists_all<F>(
    capture: CaptureView<F>,
    document: JsonDocument<MemoryDeltaManifest>,
)
    requires
        is_file_url(capture.destination_url),
        capture.is_published_by(document),
    ensures
        "file://"@ + document.file.directory@ == capture.destination_url,
        document.file.name@ == "memory.manifest"@,
        document.value.format_version == 1,
        document.value.page_size == 4096,
        document.value.capture_id == capture.id,
        document.value.restore_file_size == capture.restore_file_size,
        document.value.restore_ranges@.len() == capture.restore_ranges.len(),
        forall|i: int|
            0 <= i < capture.restore_ranges.len() ==> #[trigger] document.value.restore_ranges@[i]
                == capture.restore_ranges[i],
        document.value.segments@.len() == capture.segments.len(),
        forall|i: int|
            0 <= i < capture.segments.len() ==> #[trigger] document.value.segments@[i]
                == capture.segments[i],
{
    law_requested_file(document.file, capture.destination_url, MEMORY_MANIFEST_FILE@);
}

/// What is restored from the manifest is guest memory as it was captured last. After
/// any complete appends, a layout that could be set and a finalization that came to
/// its manifest, the segments that the manifest lists, applied in order to a file of
/// the size that it gives, put at the place of each appended address, in the ranges
/// that it gives, the byte that the last append with that address saw.
pub proof fn law_manifest_restores_the_latest_append<F>(
    start: CaptureView<F>,
    delta: Seq<u8>,
    appends: Seq<CompleteAppend>,
    layout: Seq<MemoryRange>,
    placed: CaptureView<F>,
    step: Result<FinalizeStep<F>, CaptureError>,
    closed: CaptureView<F>,
    document: JsonDocument<MemoryDeltaManifest>,
    image: Seq<u8>,
    address: int,
    last: int,
)
    requires
        start.wf(),
        delta.len() == start.bytes_written,
        can_append(start, delta, appends),
        are_disjoint(layout),
        appended(start, delta, appends).0.sets_restore_layout(layout, Ok(()), placed),
        placed.starts_to_finalize(step, closed),
        step matches Ok(next) && match next {
            FinalizeStep::FlushMemory(_) => closed.publishes_once_flushed(true, Some(document)),
            FinalizeStep::WriteManifest(manifest) => manifest == document,
        },
        image.len() == document.value.restore_file_size,
        0 <= last < appends.len(),
        range_table_has(appends[last].ranges, address),
        forall|k: int|
            last < k < appends.len() ==> !range_table_has((#[trigger] appends[k]).ranges, address),
    ensures
        ({
            let manifest = document.value;
            let all = appended(start, delta, appends).1;
            let file = apply_segments(image, all, manifest.segments@);
            &&& address_offset(manifest.restore_ranges@, address) matches Some(position)
            &&& 0 <= position < file.len()
            &&& file[position] == (appends[last].memory)(address)
        }),
{
    let end = appended(start, delta, appends).0;
    assert(total_length(layout) <= u64::MAX);
    law_latest_append_is_restored(start, delta, appends, layout, image, address, last);
    assert(document.value.segments@ == placed.segments);
    assert(document.value.restore_ranges@ == placed.restore_ranges);
}

/// What no append captured stays when the manifest is applied: a position of the
/// restored file that is the place of no captured address keeps the byte that it had.
pub proof fn law_manifest_leaves_the_rest<F>(
    start: CaptureView<F>,
    delta: Seq<u8>,
    appends: Seq<CompleteAppend>,
    layout: Seq<MemoryRange>,
    placed: CaptureView<F>,
    manifest: MemoryDeltaManifest,
    image: Seq<u8>,
    position: int,
)
    requires
        start.wf(),
        delta.len() == start.bytes_written,
        can_append(start, delta, appends),
        are_disjoint(layout),
        appended(start, delta, appends).0.sets_restore_layout(layout, Ok(()), placed),
        placed.is_described_by(manifest),
        image.len() == manifest.restore_file_size,
        0 <= position < image.len(),
        forall|a: int| #[trigger]
            is_captured(start, appends, a) ==> address_offset(manifest.restore_ranges@, a) != Some(
                position,
            ),
    ensures
        apply_segments(image, appended(start, delta, appends).1, manifest.segments@)[position]
            == image[position],
{
    law_uncaptured_positions_stay(start, delta, appends, layout, image, position);
}

/// A descriptor says what machine it is of: every part of it is that of the machine,
/// so that two machines that differ have different descriptors.
pub proof fn law_descriptor_tells_machines_apart(
    descriptor: CompatibilityDescriptor,
    vm_config: VmConfig,
    architecture: Seq<char>,
    vmm_version: Seq<char>,
    build_version: Seq<char>,
)
    requires
        descriptor.describes(vm_config, architecture, vmm_version, build_version),
    ensures
        descriptor.format_version == 1,
        descriptor.page_size == 4096,
        descriptor.architecture@ == architecture,
        descriptor.vmm_version@ == vmm_version,
        descriptor.build_version@ == build_version,
        descriptor.memory_size == vm_config.memory_size,
        descriptor.boot_vcpus == vm_config.boot_vcpus,
        descriptor.max_vcpus == vm_config.max_vcpus,
{
}

/// A copy that failed is told with the capture and the cause, as they are.
pub proof fn law_failed_copy_names_its_cause<F>(capture: CaptureView<F>, cause: String)
    ensures
        capture.copy_error(cause) matches CaptureError::GuestMemory { id, cause: told } && id
            == capture.id && told == cause,
{
}

/// Where no append is under way there is nothing to copy, and asking changes nothing.
pub proof fn law_nothing_to_copy_outside_an_append<F>(capture: CaptureView<F>, count: int)
    requires
        !(capture.operation is Appending),
    ensures
        capture.next_copy().1 is None,
        capture.next_copy().0 == capture,
        !capture.accepts_copy(count),
{
}

} // verus!
