//! The incremental capture of guest memory.
//!
//! A capture collects dirty guest memory in a memory file while the guest runs,
//! and ends with a manifest that says what the file holds. What reads guest memory
//! and writes files is done by the caller: an append or a finalization hands out
//! one piece of work at a time and is told what came of it.

use vstd::prelude::*;
use crate::capture_error::CaptureError;
pub use crate::capture_error::CapturePhase;
use crate::capture_files::is_file_url;
use crate::capture_files::is_refused;
use crate::capture_files::is_request_for;
use crate::capture_files::new_file;
use crate::capture_files::url_to_path;
use crate::capture_files::write_json_file;
use crate::capture_files::FileRequest;
use crate::capture_files::JsonDocument;
pub use crate::capture_files::COMPATIBILITY_FILE;
pub use crate::capture_files::MEMORY_DELTA_FILE;
pub use crate::capture_files::MEMORY_MANIFEST_FILE;
use crate::protocol::lemma_total_length_step;
use crate::protocol::total_length;
use crate::protocol::MemoryRange;
use crate::protocol::MemoryRangeTable;
use crate::restore_layout::fails_at;
use crate::restore_layout::is_placeable;
use crate::restore_layout::lay_out;
use crate::restore_layout::lemma_layout_fits;
use crate::restore_layout::misplacement;
use crate::restore_layout::outgrows_at;
use crate::restore_layout::place_first;
use crate::restore_layout::place_segments;
use crate::restore_layout::restore_layout;
pub use crate::restore_layout::MemoryDeltaSegment;
pub use crate::restore_layout::MemoryRestoreRange;

verus! {

/// The version of the manifest and of the compatibility descriptor.
pub const FORMAT_VERSION: u32 = 1;

/// The size of a guest page.
pub const PAGE_SIZE: u64 = 4096;

/// What a memory file holds, and where it goes when it is restored.
#[derive(Clone, Debug, PartialEq, Eq)]
pub struct MemoryDeltaManifest {
    pub format_version: u32,
    pub page_size: u64,
    pub capture_id: u64,
    pub restore_file_size: u64,
    pub restore_ranges: Vec<MemoryRestoreRange>,
    /// Apply segments in order. A later segment supersedes an earlier segment
    /// when pre-copy captured the same guest page more than once.
    pub segments: Vec<MemoryDeltaSegment>,
}

/// What a virtual machine is configured with, as far as a capture depends on it.
#[derive(Clone, Copy, Debug, PartialEq, Eq, Structural)]
pub struct VmConfig {
    /// The size of all the guest's memory.
    pub memory_size: u64,
    /// How many virtual CPUs there are at boot.
    pub boot_vcpus: u32,
    /// How many virtual CPUs there can be.
    pub max_vcpus: u32,
}

/// What a capture can be restored on.
#[derive(Clone, Debug, PartialEq, Eq)]
pub struct CompatibilityDescriptor {
    pub format_version: u32,
    pub architecture: String,
    pub vmm_version: String,
    pub build_version: String,
    pub memory_size: u64,
    pub boot_vcpus: u32,
    pub max_vcpus: u32,
    pub page_size: u64,
}

impl CompatibilityDescriptor {
    /// Whether this is the descriptor of a machine with `vm_config` that runs on
    /// `architecture`.
    pub open spec fn describes(
        self,
        vm_config: VmConfig,
        architecture: Seq<char>,
        vmm_version: Seq<char>,
        build_version: Seq<char>,
    ) -> bool {
        &&& self.format_version == FORMAT_VERSION
        &&& self.architecture@ == architecture
        &&& self.vmm_version@ == vmm_version
        &&& self.build_version@ == build_version
        &&& self.memory_size == vm_config.memory_size
        &&& self.boot_vcpus == vm_config.boot_vcpus
        &&& self.max_vcpus == vm_config.max_vcpus
        &&& self.page_size == PAGE_SIZE
    }

    /// The descriptor of a machine with `vm_config` that runs on `architecture`.
    pub fn new(
        vm_config: &VmConfig,
        architecture: &str,
        vmm_version: &str,
        build_version: &str,
    ) -> (descriptor: Self)
        ensures
            descriptor.describes(*vm_config, architecture@, vmm_version@, build_version@),
    {
        CompatibilityDescriptor {
            format_version: FORMAT_VERSION,
            architecture: architecture.to_owned(),
            vmm_version: vmm_version.to_owned(),
            build_version: build_version.to_owned(),
            memory_size: vm_config.memory_size,
            boot_vcpus: vm_config.boot_vcpus,
            max_vcpus: vm_config.max_vcpus,
            page_size: PAGE_SIZE,
        }
    }
}

/// Guest memory to copy to the end of the memory file.
#[derive(Clone, Copy, Debug, PartialEq, Eq, Structural)]
pub struct GuestCopy {
    /// The guest address of the first byte.
    pub gpa: u64,
    /// How many bytes there are to copy.
    pub length: u64,
}

/// What a finalization asks for.
#[derive(Debug)]
pub enum FinalizeStep<F> {
    /// Flush the memory file, and close it.
    FlushMemory(F),
    /// Write the manifest.
    WriteManifest(JsonDocument<MemoryDeltaManifest>),
}

/// The segments of `ranges`, whose bytes stand one after the other in the memory
/// file from `base` on.
pub open spec fn delta_segments(ranges: Seq<MemoryRange>, base: int) -> Seq<MemoryDeltaSegment> {
    Seq::new(
        ranges.len(),
        |i: int|
            MemoryDeltaSegment {
                gpa: ranges[i].gpa,
                length: ranges[i].length,
                file_offset: (base + total_length(ranges.take(i))) as u64,
                restore_file_offset: 0,
            },
    )
}

/// The first range that is not wholly copied, when `offset` bytes of range `index`
/// and all of those before it are.
pub open spec fn next_unfinished(ranges: Seq<MemoryRange>, index: int, offset: int) -> int
    decreases ranges.len() - index,
{
    if index >= ranges.len() {
        index
    } else if offset < ranges[index].length {
        index
    } else {
        next_unfinished(ranges, index + 1, 0)
    }
}

/// Whether the segments stand in the memory file in their order, none overlapping
/// another, and all before `limit`.
pub open spec fn in_file_order(segments: Seq<MemoryDeltaSegment>, limit: int) -> bool {
    &&& forall|i: int|
        0 <= i < segments.len() ==> (#[trigger] segments[i]).file_offset + segments[i].length
            <= limit
    &&& forall|i: int, j: int|
        0 <= i < j < segments.len() ==> (#[trigger] segments[i]).file_offset + segments[i].length
            <= (#[trigger] segments[j]).file_offset
}

/// An append that is under way.
pub struct AppendView {
    /// The ranges that are appended.
    pub ranges: Seq<MemoryRange>,
    /// The range that is being copied.
    pub index: int,
    /// How much of it is copied.
    pub range_offset: int,
    /// How long the memory file was when the append began.
    pub base: int,
    /// The segments that there were when the append began.
    pub earlier: Seq<MemoryDeltaSegment>,
}

/// What a capture is at work on.
pub enum OperationView {
    /// Nothing.
    Idle,
    /// Copying guest memory.
    Appending(AppendView),
    /// Flushing the memory file.
    Flushing,
    /// Writing the manifest.
    Publishing,
}

/// What a capture knows. `F` is the memory file.
pub struct CaptureView<F> {
    pub id: u64,
    pub destination_url: Seq<char>,
    pub memory_file: Option<F>,
    pub segments: Seq<MemoryDeltaSegment>,
    pub captured_ranges: Seq<MemoryRange>,
    pub bytes_written: int,
    pub restore_file_size: u64,
    pub restore_ranges: Seq<MemoryRestoreRange>,
    pub phase: CapturePhase,
    pub operation: OperationView,
}

impl AppendView {
    /// Whether the append is in order in a capture with `segments` and
    /// `bytes_written`.
    pub open spec fn wf(self, segments: Seq<MemoryDeltaSegment>, bytes_written: int) -> bool {
        &&& 0 <= self.base
        &&& 0 <= self.index <= self.ranges.len()
        &&& 0 <= self.range_offset
        &&& self.index < self.ranges.len() ==> {
            let range = self.ranges[self.index];
            &&& self.range_offset <= range.length
            &&& self.range_offset < range.length ==> range.gpa + self.range_offset <= u64::MAX
        }
        &&& self.index == self.ranges.len() ==> self.range_offset == 0
        &&& bytes_written == self.base + total_length(self.ranges.take(self.index))
            + self.range_offset
        &&& segments == self.earlier + delta_segments(self.ranges.take(self.index), self.base)
    }

    /// The append at the next range that is not wholly copied.
    pub open spec fn advanced(self) -> AppendView {
        let next = next_unfinished(self.ranges, self.index, self.range_offset);
        AppendView {
            index: next,
            range_offset: if next == self.index {
                self.range_offset
            } else {
                0
            },
            ..self
        }
    }

    /// What is left to copy of the range that is being copied.
    pub open spec fn rest(self) -> GuestCopy {
        let range = self.ranges[self.index];
        GuestCopy {
            gpa: (range.gpa + self.range_offset) as u64,
            length: (range.length - self.range_offset) as u64,
        }
    }
}

impl<F> CaptureView<F> {
    /// How far the memory file is described by the segments.
    pub open spec fn described(self) -> int {
        match self.operation {
            OperationView::Appending(append) => self.bytes_written - append.range_offset,
            _ => self.bytes_written,
        }
    }

    /// Whether the capture is in order.
    pub open spec fn wf(self) -> bool {
        &&& is_file_url(self.destination_url)
        &&& 0 <= self.bytes_written <= u64::MAX
        &&& in_file_order(self.segments, self.described())
        &&& self.phase is Finalized ==> self.memory_file is None
        &&& match self.operation {
            OperationView::Idle => true,
            OperationView::Appending(append) => {
                &&& self.phase is Capturing
                &&& self.memory_file is Some
                &&& append.wf(self.segments, self.bytes_written)
            },
            OperationView::Flushing => self.phase is Capturing && self.memory_file is None,
            OperationView::Publishing => self.phase is Capturing && self.memory_file is None,
        }
    }

    /// A new capture, with nothing captured yet.
    pub open spec fn created(id: u64, destination_url: Seq<char>, memory_file: F) -> Self {
        CaptureView {
            id,
            destination_url,
            memory_file: Some(memory_file),
            segments: Seq::empty(),
            captured_ranges: Seq::empty(),
            bytes_written: 0,
            restore_file_size: 0,
            restore_ranges: Seq::empty(),
            phase: CapturePhase::Capturing,
            operation: OperationView::Idle,
        }
    }

    /// The capture at rest.
    pub open spec fn idle(self) -> Self {
        CaptureView { operation: OperationView::Idle, ..self }
    }

    /// The capture at the start of an append of `ranges`: all of them are recorded
    /// as captured before anything is copied.
    pub open spec fn append(self, ranges: Seq<MemoryRange>) -> Self {
        CaptureView {
            captured_ranges: self.captured_ranges + ranges,
            operation: OperationView::Appending(
                AppendView {
                    ranges,
                    index: 0,
                    range_offset: 0,
                    base: self.bytes_written,
                    earlier: self.segments,
                },
            ),
            ..self
        }
    }

    /// The capture after an append of `ranges` was asked for, and what the caller is
    /// told: it is not even recorded where the capture has ended, and cannot start
    /// where the memory file is closed.
    pub open spec fn append_memory(self, ranges: Seq<MemoryRange>) -> (
        Self,
        Result<(), CaptureError>,
    ) {
        if !(self.phase is Capturing) {
            (self, Err(CaptureError::NotAccepting { id: self.id, phase: self.phase }))
        } else if self.memory_file is None {
            (self.append(ranges).idle(), Err(CaptureError::MemoryFileClosed { id: self.id }))
        } else {
            (self.append(ranges), Ok(()))
        }
    }

    /// The next piece of guest memory to copy, and the capture with a segment for
    /// every range that is wholly copied. The append ends when nothing is left.
    pub open spec fn next_copy(self) -> (Self, Option<GuestCopy>) {
        match self.operation {
            OperationView::Appending(append) => {
                let next = append.advanced();
                let segments = append.earlier + delta_segments(
                    append.ranges.take(next.index),
                    append.base,
                );
                if next.index < append.ranges.len() {
                    (
                        CaptureView {
                            segments,
                            operation: OperationView::Appending(next),
                            ..self
                        },
                        Some(next.rest()),
                    )
                } else {
                    (CaptureView { segments, operation: OperationView::Idle, ..self }, None)
                }
            },
            _ => (self, None),
        }
    }

    /// Whether `count` bytes can have been copied: no more than are left, and
    /// neither the length of the memory file nor the next guest address overflows.
    pub open spec fn accepts_copy(self, count: int) -> bool {
        match self.operation {
            OperationView::Appending(append) => {
                &&& 0 <= count
                &&& append.index < append.ranges.len()
                &&& append.range_offset + count <= append.ranges[append.index].length
                &&& self.bytes_written + count <= u64::MAX
                &&& append.range_offset + count < append.ranges[append.index].length
                    ==> append.ranges[append.index].gpa + append.range_offset + count <= u64::MAX
            },
            _ => false,
        }
    }

    /// The capture after `count` bytes of guest memory were copied.
    pub open spec fn record_copy(self, count: int) -> Self {
        CaptureView {
            bytes_written: self.bytes_written + count,
            operation: OperationView::Appending(
                AppendView {
                    range_offset: self.operation->Appending_0.range_offset + count,
                    ..self.operation->Appending_0
                },
            ),
            ..self
        }
    }

    /// What a caller is told whose guest memory could not be copied.
    pub open spec fn copy_error(self, cause: String) -> CaptureError {
        CaptureError::GuestMemory { id: self.id, cause }
    }

    /// The capture with its segments placed as `segments` in a restored file of
    /// `restore_ranges` and `restore_file_size`.
    pub open spec fn laid_out(
        self,
        segments: Seq<MemoryDeltaSegment>,
        restore_ranges: Seq<MemoryRestoreRange>,
        restore_file_size: u64,
    ) -> Self {
        CaptureView { segments, restore_ranges, restore_file_size, ..self.idle() }
    }

    /// Whether `after` and `outcome` are what comes of setting the restore layout to
    /// `ranges`.
    pub open spec fn sets_restore_layout(
        self,
        ranges: Seq<MemoryRange>,
        outcome: Result<(), CaptureError>,
        after: Self,
    ) -> bool {
        let layout = restore_layout(ranges);
        let size = total_length(ranges) as u64;
        if total_length(ranges) > u64::MAX {
            &&& outcome == Err::<(), CaptureError>(CaptureError::RestoreSizeOverflow)
            &&& exists|index: int| #[trigger]
                outgrows_at(ranges, index) && after == self.laid_out(
                    self.segments,
                    restore_layout(ranges.take(index + 1)),
                    self.restore_file_size,
                )
        } else {
            match outcome {
                Ok(_) => {
                    &&& forall|i: int|
                        0 <= i < self.segments.len() ==> is_placeable(
                            layout,
                            #[trigger] self.segments[i],
                        )
                    &&& after == self.laid_out(
                        place_first(layout, self.segments, self.segments.len() as int),
                        layout,
                        size,
                    )
                },
                Err(error) => exists|index: int| #[trigger]
                    fails_at(layout, self.segments, index) && error == misplacement(
                        self.segments[index],
                    ) && after == self.laid_out(
                        place_first(layout, self.segments, index),
                        layout,
                        size,
                    ),
            }
        }
    }

    /// The capture after its memory file, if it is open, became `file`.
    pub open spec fn with_file(self, file: F) -> Self {
        if self.memory_file is Some {
            CaptureView { memory_file: Some(file), ..self }
        } else {
            self
        }
    }

    /// The capture, given up.
    pub open spec fn failed(self) -> Self {
        CaptureView { phase: CapturePhase::Failed, ..self.idle() }
    }

    /// The capture at the start of a finalization: its memory file is closed, and
    /// is flushed first where it was open.
    pub open spec fn finalizing(self) -> Self {
        CaptureView {
            memory_file: None,
            operation: if self.memory_file is Some {
                OperationView::Flushing
            } else {
                OperationView::Publishing
            },
            ..self
        }
    }

    /// The capture after the memory file was flushed, or could not be.
    pub open spec fn memory_flushed(self, flushed: bool) -> Self {
        if self.operation is Flushing {
            CaptureView {
                operation: if flushed {
                    OperationView::Publishing
                } else {
                    OperationView::Idle
                },
                ..self
            }
        } else {
            self
        }
    }

    /// The capture after the manifest was written, or could not be.
    pub open spec fn manifest_written(self, written: bool) -> Self {
        if self.operation is Publishing {
            CaptureView {
                phase: if written {
                    CapturePhase::Finalized
                } else {
                    self.phase
                },
                ..self.idle()
            }
        } else {
            self
        }
    }

    /// Whether `manifest` says what this capture holds.
    pub open spec fn is_described_by(self, manifest: MemoryDeltaManifest) -> bool {
        &&& manifest.format_version == FORMAT_VERSION
        &&& manifest.page_size == PAGE_SIZE
        &&& manifest.capture_id == self.id
        &&& manifest.restore_file_size == self.restore_file_size
        &&& manifest.restore_ranges@ == self.restore_ranges
        &&& manifest.segments@ == self.segments
    }

    /// Whether `document` is the manifest of this capture, on its way to where the
    /// capture goes.
    pub open spec fn is_published_by(self, document: JsonDocument<MemoryDeltaManifest>) -> bool {
        &&& document.file.asks_for(self.destination_url, MEMORY_MANIFEST_FILE@)
        &&& self.is_described_by(document.value)
    }

    /// Whether `step` and `after` are what comes of asking to finalize the capture:
    /// nothing where it has ended, the manifest only where there is no file to flush.
    pub open spec fn starts_to_finalize(
        self,
        step: Result<FinalizeStep<F>, CaptureError>,
        after: Self,
    ) -> bool {
        if !(self.phase is Capturing) {
            &&& step == Err::<FinalizeStep<F>, CaptureError>(
                CaptureError::NotFinalizable { id: self.id, phase: self.phase },
            )
            &&& after == self
        } else {
            &&& match self.memory_file {
                Some(file) => step == Ok::<FinalizeStep<F>, CaptureError>(
                    FinalizeStep::FlushMemory(file),
                ),
                None => step matches Ok(FinalizeStep::WriteManifest(document))
                    && self.is_published_by(document),
            }
            &&& after == self.finalizing()
        }
    }

    /// Whether `document` is what is to be written once the memory file was flushed,
    /// or could not be.
    pub open spec fn publishes_once_flushed(
        self,
        flushed: bool,
        document: Option<JsonDocument<MemoryDeltaManifest>>,
    ) -> bool {
        &&& document is Some <==> self.operation is Flushing && flushed
        &&& document matches Some(document) ==> self.is_published_by(document)
    }
}

struct PendingAppend {
    ranges: Vec<MemoryRange>,
    index: usize,
    range_offset: u64,
    base: Ghost<int>,
    earlier: Ghost<Seq<MemoryDeltaSegment>>,
}

impl PendingAppend {
    spec fn view(&self) -> AppendView {
        AppendView {
            ranges: self.ranges@,
            index: self.index as int,
            range_offset: self.range_offset as int,
            base: self.base@,
            earlier: self.earlier@,
        }
    }
}

enum Operation {
    Idle,
    Appending(PendingAppend),
    Flushing,
    Publishing,
}

impl Operation {
    spec fn view(&self) -> OperationView {
        match self {
            Operation::Idle => OperationView::Idle,
            Operation::Appending(append) => OperationView::Appending(append@),
            Operation::Flushing => OperationView::Flushing,
            Operation::Publishing => OperationView::Publishing,
        }
    }
}

/// A capture. `F` is the memory file.
pub struct IncrementalSnapshotCapture<F> {
    id: u64,
    destination_url: String,
    memory_file: Option<F>,
    segments: Vec<MemoryDeltaSegment>,
    captured_ranges: MemoryRangeTable,
    bytes_written: u64,
    restore_file_size: u64,
    restore_ranges: Vec<MemoryRestoreRange>,
    phase: CapturePhase,
    operation: Operation,
}

impl<F> View for IncrementalSnapshotCapture<F> {
    type V = CaptureView<F>;

    closed spec fn view(&self) -> CaptureView<F> {
        CaptureView {
            id: self.id,
            destination_url: self.destination_url@,
            memory_file: self.memory_file,
            segments: self.segments@,
            captured_ranges: self.captured_ranges@,
            bytes_written: self.bytes_written as int,
            restore_file_size: self.restore_file_size,
            restore_ranges: self.restore_ranges@,
            phase: self.phase,
            operation: self.operation@,
        }
    }
}

proof fn lemma_advance_one(ranges: Seq<MemoryRange>, index: int, base: int)
    requires
        0 <= index < ranges.len(),
    ensures
        delta_segments(ranges.take(index + 1), base) == delta_segments(
            ranges.take(index),
            base,
        ).push(
            MemoryDeltaSegment {
                gpa: ranges[index].gpa,
                length: ranges[index].length,
                file_offset: (base + total_length(ranges.take(index))) as u64,
                restore_file_offset: 0,
            },
        ),
        total_length(ranges.take(index + 1)) == total_length(ranges.take(index))
            + ranges[index].length,
{
    lemma_total_length_step(ranges, index);
    let longer = ranges.take(index + 1);
    let shorter = ranges.take(index);
    assert forall|i: int| 0 <= i < index implies #[trigger] longer.take(i) == shorter.take(i) by {
        assert(longer.take(i) =~= shorter.take(i));
    }
    assert(longer.take(index) =~= shorter);
    assert(delta_segments(longer, base) =~= delta_segments(shorter, base).push(
        MemoryDeltaSegment {
            gpa: ranges[index].gpa,
            length: ranges[index].length,
            file_offset: (base + total_length(shorter)) as u64,
            restore_file_offset: 0,
        },
    ));
}

impl<F> IncrementalSnapshotCapture<F> {
    /// Whether the capture is in order. Every new capture is, and every operation
    /// keeps it so.
    pub open spec fn wf(&self) -> bool {
        self@.wf()
    }

    /// The memory file to create for a capture that goes to `destination_url`.
    pub fn memory_file_request(destination_url: &str) -> (request: Result<
        FileRequest,
        CaptureError,
    >)
        ensures
            is_request_for(destination_url@, MEMORY_DELTA_FILE@, request),
    {
        new_file(destination_url, MEMORY_DELTA_FILE)
    }

    /// A capture that goes to `destination_url`, with a new memory file.
    pub fn new(id: u64, destination_url: String, memory_file: F) -> (created: Result<
        Self,
        CaptureError,
    >)
        ensures
            match created {
                Ok(capture) => {
                    &&& is_file_url(destination_url@)
                    &&& capture.wf()
                    &&& capture@ == CaptureView::created(id, destination_url@, memory_file)
                },
                Err(error) => is_refused(destination_url@, error),
            },
    {
        match url_to_path(destination_url.as_str()) {
            Ok(_) => Ok(
                IncrementalSnapshotCapture {
                    id,
                    destination_url,
                    memory_file: Some(memory_file),
                    segments: Vec::new(),
                    captured_ranges: MemoryRangeTable::default(),
                    bytes_written: 0,
                    restore_file_size: 0,
                    restore_ranges: Vec::new(),
                    phase: CapturePhase::Capturing,
                    operation: Operation::Idle,
                },
            ),
            Err(error) => Err(error),
        }
    }

    /// The id of the capture.
    pub fn id(&self) -> (id: u64)
        ensures
            id == self@.id,
    {
        self.id
    }

    /// How far the capture has come.
    pub fn phase(&self) -> (phase: CapturePhase)
        ensures
            phase == self@.phase,
    {
        self.phase
    }

    /// Where the capture goes.
    pub fn destination_url(&self) -> (url: &str)
        ensures
            url@ == self@.destination_url,
    {
        self.destination_url.as_str()
    }

    /// All the ranges that were ever appended, or were to be.
    pub fn captured_ranges(&self) -> (ranges: &MemoryRangeTable)
        ensures
            ranges@ == self@.captured_ranges,
    {
        &self.captured_ranges
    }

    /// The memory file, to write to.
    pub fn memory_file(&mut self) -> (file: Option<&mut F>)
        requires
            old(self).wf(),
        ensures
            final(self).wf(),
            match file {
                Some(open) => {
                    &&& old(self)@.memory_file == Some(*open)
                    &&& final(self)@ == old(self)@.with_file(*final(open))
                },
                None => old(self)@.memory_file is None && final(self)@ == old(self)@,
            },
    {
        self.memory_file.as_mut()
    }

    /// Gives the capture up.
    pub fn mark_failed(&mut self)
        requires
            old(self).wf(),
        ensures
            final(self).wf(),
            final(self)@ == old(self)@.failed(),
    {
        self.phase = CapturePhase::Failed;
        self.stop();
    }

    /// Gives up what the capture is at work on.
    fn stop(&mut self)
        ensures
            final(self)@ == old(self)@.idle(),
            old(self)@.wf() ==> in_file_order(old(self)@.segments, old(self)@.bytes_written),
            final(self).operation is Idle,
    {
        self.operation = Operation::Idle;
    }

    /// Starts to append the memory of `ranges`, and gives up an append that is under
    /// way. The ranges are recorded as captured first, so that every one of them can
    /// be carried over should the capture fail.
    pub fn append_memory(&mut self, ranges: MemoryRangeTable) -> (started: Result<
        (),
        CaptureError,
    >)
        requires
            old(self).wf(),
        ensures
            final(self).wf(),
            (final(self)@, started) == old(self)@.append_memory(ranges@),
    {
        if self.phase != CapturePhase::Capturing {
            return Err(CaptureError::NotAccepting { id: self.id, phase: self.phase });
        }
        self.stop();
        self.captured_ranges.extend(ranges.clone());
        if self.memory_file.is_none() {
            return Err(CaptureError::MemoryFileClosed { id: self.id });
        }
        let regions: Vec<MemoryRange> = ranges.into_regions();
        assert(delta_segments(regions@.take(0), self.bytes_written as int) =~= Seq::empty());
        assert(self.segments@ + Seq::<MemoryDeltaSegment>::empty() =~= self.segments@);
        self.operation = Operation::Appending(
            PendingAppend {
                ranges: regions,
                index: 0,
                range_offset: 0,
                base: Ghost(self.bytes_written as int),
                earlier: Ghost(self.segments@),
            },
        );
        Ok(())
    }

    /// The next piece of guest memory to copy to the end of the memory file. A range
    /// that is wholly copied becomes a segment. There is no next piece when the
    /// append is complete, or when none is under way.
    pub fn next_copy(&mut self) -> (copy: Option<GuestCopy>)
        requires
            old(self).wf(),
        ensures
            final(self).wf(),
            (final(self)@, copy) == old(self)@.next_copy(),
    {
        let mut operation = Operation::Idle;
        std::mem::swap(&mut operation, &mut self.operation);
        let mut append: PendingAppend = match operation {
            Operation::Appending(append) => append,
            other => {
                self.operation = other;
                return None;
            },
        };
        let ghost started = append@;
        while append.index < append.ranges.len() && append.range_offset
            >= append.ranges[append.index].length
            invariant
                old(self)@.operation == OperationView::Appending(started),
                old(self)@.wf(),
                append@.wf(self.segments@, self.bytes_written as int),
                append.ranges@ == started.ranges,
                append.base@ == started.base,
                append.earlier@ == started.earlier,
                append.index >= started.index,
                append.index == started.index ==> append.range_offset == started.range_offset,
                append.index > started.index ==> append.range_offset == 0,
                next_unfinished(started.ranges, started.index, started.range_offset)
                    == next_unfinished(
                    started.ranges,
                    append.index as int,
                    append.range_offset as int,
                ),
                in_file_order(self.segments@, self.bytes_written - append.range_offset),
                self@ == (CaptureView {
                    segments: self.segments@,
                    operation: OperationView::Idle,
                    ..old(self)@
                }),
            decreases append.ranges.len() - append.index,
        {
            let range: MemoryRange = append.ranges[append.index];
            let file_offset: u64 = self.bytes_written - append.range_offset;
            proof {
                lemma_advance_one(append.ranges@, append.index as int, append.base@);
                assert(append.earlier@ + delta_segments(
                    append.ranges@.take(append.index + 1),
                    append.base@,
                ) =~= self.segments@.push(
                    MemoryDeltaSegment {
                        gpa: range.gpa,
                        length: range.length,
                        file_offset,
                        restore_file_offset: 0,
                    },
                ));
            }
            self.segments.push(
                MemoryDeltaSegment {
                    gpa: range.gpa,
                    length: range.length,
                    file_offset,
                    restore_file_offset: 0,
                },
            );
            append.index = append.index + 1;
            append.range_offset = 0;
        }
        if append.index < append.ranges.len() {
            let range: MemoryRange = append.ranges[append.index];
            let copy = GuestCopy {
                gpa: range.gpa + append.range_offset,
                length: range.length - append.range_offset,
            };
            self.operation = Operation::Appending(append);
            Some(copy)
        } else {
            None
        }
    }

    /// Whether `count` bytes can have been copied: no more than are left, and
    /// neither the length of the memory file nor the next guest address overflows.
    pub fn accepts_copy(&self, count: u64) -> (accepted: bool)
        requires
            self.wf(),
        ensures
            accepted == self@.accepts_copy(count as int),
    {
        match &self.operation {
            Operation::Appending(append) => {
                if append.index >= append.ranges.len() {
                    return false;
                }
                let range: MemoryRange = append.ranges[append.index];
                let left: u64 = range.length - append.range_offset;
                count <= left && self.bytes_written.checked_add(count).is_some() && (count == left
                    || range.gpa.checked_add(append.range_offset + count).is_some())
            },
            _ => false,
        }
    }

    /// Takes note that `count` bytes of the last piece were copied.
    pub fn record_copy(&mut self, count: u64)
        requires
            old(self).wf(),
            old(self)@.accepts_copy(count as int),
        ensures
            final(self).wf(),
            final(self)@ == old(self)@.record_copy(count as int),
    {
        let mut operation = Operation::Idle;
        std::mem::swap(&mut operation, &mut self.operation);
        if let Operation::Appending(append) = operation {
            let mut append: PendingAppend = append;
            append.range_offset = append.range_offset + count;
            self.bytes_written = self.bytes_written + count;
            self.operation = Operation::Appending(append);
        }
    }

    /// Ends an append because guest memory could not be copied.
    pub fn copy_failed(&mut self, cause: String) -> (error: CaptureError)
        requires
            old(self).wf(),
        ensures
            final(self).wf(),
            final(self)@ == old(self)@.idle(),
            error == old(self)@.copy_error(cause),
    {
        self.stop();
        CaptureError::GuestMemory { id: self.id, cause }
    }

    /// Where the compatibility descriptor goes.
    pub fn write_compatibility<'a>(&self, descriptor: &'a CompatibilityDescriptor) -> (document:
        JsonDocument<&'a CompatibilityDescriptor>)
        requires
            self.wf(),
        ensures
            document.puts(descriptor, self@.destination_url, COMPATIBILITY_FILE@),
    {
        write_json_file(self.destination_url.as_str(), COMPATIBILITY_FILE, descriptor).unwrap()
    }

    /// Sets how guest memory is laid out in the restored file, and gives every
    /// segment its place in it. Where that fails, the layout and the places that
    /// were settled until then stay. An append that is under way is given up.
    pub fn set_restore_layout(&mut self, ranges: MemoryRangeTable) -> (outcome: Result<
        (),
        CaptureError,
    >)
        requires
            old(self).wf(),
        ensures
            final(self).wf(),
            old(self)@.sets_restore_layout(ranges@, outcome, final(self)@),
    {
        self.stop();
        let (layout, size) = lay_out(ranges.regions());
        self.restore_ranges = layout;
        match size {
            Some(size) => {
                self.restore_file_size = size;
            },
            None => {
                return Err(CaptureError::RestoreSizeOverflow);
            },
        }
        proof {
            lemma_layout_fits(ranges@);
        }
        place_segments(&self.restore_ranges, &mut self.segments)
    }

    /// Starts to finalize the capture: the memory file is closed, and is to be
    /// flushed before the manifest is written. An append that is under way is given
    /// up.
    pub fn finalize(&mut self) -> (step: Result<FinalizeStep<F>, CaptureError>)
        requires
            old(self).wf(),
        ensures
            final(self).wf(),
            old(self)@.starts_to_finalize(step, final(self)@),
    {
        if self.phase != CapturePhase::Capturing {
            return Err(CaptureError::NotFinalizable { id: self.id, phase: self.phase });
        }
        self.stop();
        match self.memory_file.take() {
            Some(memory_file) => {
                self.operation = Operation::Flushing;
                Ok(FinalizeStep::FlushMemory(memory_file))
            },
            None => {
                self.operation = Operation::Publishing;
                Ok(FinalizeStep::WriteManifest(self.manifest_document()))
            },
        }
    }

    /// Goes on with a finalization after the memory file was flushed. A failure to
    /// flush ends it, and leaves the phase as it is.
    pub fn memory_flushed(&mut self, flushed: bool) -> (document: Option<
        JsonDocument<MemoryDeltaManifest>,
    >)
        requires
            old(self).wf(),
        ensures
            final(self).wf(),
            final(self)@ == old(self)@.memory_flushed(flushed),
            old(self)@.publishes_once_flushed(flushed, document),
    {
        match self.operation {
            Operation::Flushing => {
                if flushed {
                    self.operation = Operation::Publishing;
                    Some(self.manifest_document())
                } else {
                    self.operation = Operation::Idle;
                    None
                }
            },
            _ => None,
        }
    }

    /// Ends a finalization after the manifest was written. A failure to write it
    /// leaves the phase as it is.
    pub fn manifest_written(&mut self, written: bool)
        requires
            old(self).wf(),
        ensures
            final(self).wf(),
            final(self)@ == old(self)@.manifest_written(written),
    {
        match self.operation {
            Operation::Publishing => {
                self.operation = Operation::Idle;
                if written {
                    self.phase = CapturePhase::Finalized;
                }
            },
            _ => {},
        }
    }

    fn manifest_document(&self) -> (document: JsonDocument<MemoryDeltaManifest>)
        requires
            is_file_url(self@.destination_url),
        ensures
            self@.is_published_by(document),
    {
        let restore_ranges: Vec<MemoryRestoreRange> = self.restore_ranges.clone();
        assert(restore_ranges@ =~= self.restore_ranges@);
        let segments: Vec<MemoryDeltaSegment> = self.segments.clone();
        assert(segments@ =~= self.segments@);
        let manifest = MemoryDeltaManifest {
            format_version: FORMAT_VERSION,
            page_size: PAGE_SIZE,
            capture_id: self.id,
            restore_file_size: self.restore_file_size,
            restore_ranges,
            segments,
        };
        write_json_file(self.destination_url.as_str(), MEMORY_MANIFEST_FILE, manifest).unwrap()
    }
}

} // verus!
