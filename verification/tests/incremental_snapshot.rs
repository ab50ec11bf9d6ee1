use vm_memory::{Bytes, GuestAddress, GuestAddressSpace, GuestMemoryAtomic, GuestMemoryMmap};
use vmm_core::capture_error::{CaptureError, CapturePhase};
use vmm_core::capture_files::{
    new_file, url_to_path, write_json_file, JsonDocument, COMPATIBILITY_FILE, MEMORY_DELTA_FILE,
    MEMORY_MANIFEST_FILE,
};
use vmm_core::incremental_snapshot::{
    CompatibilityDescriptor, FinalizeStep, GuestCopy, IncrementalSnapshotCapture,
    MemoryDeltaManifest, VmConfig, FORMAT_VERSION, PAGE_SIZE,
};
use vmm_core::protocol::{MemoryRange, MemoryRangeTable};
use vmm_core::restore_layout::{MemoryDeltaSegment, MemoryRestoreRange};
use vmm_core::text::{decimal_text, prefixed_hex_text};

type Memory = GuestMemoryAtomic<GuestMemoryMmap<()>>;
type Capture = IncrementalSnapshotCapture<Vec<u8>>;

const URL: &str = "file:///var/capture";

fn table(ranges: &[(u64, u64)]) -> MemoryRangeTable {
    let mut table = MemoryRangeTable::default();
    for (gpa, length) in ranges {
        table.push(MemoryRange { gpa: *gpa, length: *length });
    }
    table
}

fn capture() -> Capture {
    IncrementalSnapshotCapture::new(7, URL.to_string(), Vec::new()).unwrap()
}

fn append(
    capture: &mut Capture,
    memory: &Memory,
    ranges: MemoryRangeTable,
    at_most: u64,
) -> Result<(), CaptureError> {
    capture.append_memory(ranges)?;
    while let Some(copy) = capture.next_copy() {
        let count = std::cmp::min(copy.length, at_most) as usize;
        let file = capture.memory_file().unwrap();
        match memory.memory().write_volatile_to(GuestAddress(copy.gpa), file, count) {
            Ok(copied) => {
                assert!(capture.accepts_copy(copied as u64));
                capture.record_copy(copied as u64);
            }
            Err(e) => return Err(capture.copy_failed(e.to_string())),
        }
    }
    Ok(())
}

fn finalize(capture: &mut Capture) -> (Vec<u8>, JsonDocument<MemoryDeltaManifest>) {
    let delta = match capture.finalize().unwrap() {
        FinalizeStep::FlushMemory(file) => file,
        FinalizeStep::WriteManifest(_) => panic!("the memory file was open"),
    };
    let document = capture.memory_flushed(true).unwrap();
    capture.manifest_written(true);
    (delta, document)
}

fn manifest(capture: &mut Capture) -> MemoryDeltaManifest {
    finalize(capture).1.value
}

fn guest() -> Memory {
    let ranges = [(GuestAddress(0), 0x4000)];
    GuestMemoryAtomic::new(GuestMemoryMmap::from_ranges(&ranges).unwrap())
}

#[test]
fn ordered_segments_preserve_precopy_overwrites() {
    let memory = GuestMemoryMmap::from_ranges(&[(GuestAddress(0), 0x4000)]).unwrap();
    memory.write_slice(&[1; 0x1000], GuestAddress(0)).unwrap();
    let memory = GuestMemoryAtomic::new(memory);

    let mut capture = capture();
    append(&mut capture, &memory, table(&[(0, 0x1000)]), u64::MAX).unwrap();

    memory.memory().write_slice(&[2; 0x1000], GuestAddress(0)).unwrap();
    append(&mut capture, &memory, table(&[(0, 0x1000)]), u64::MAX).unwrap();
    capture.set_restore_layout(table(&[(0, 0x4000)])).unwrap();
    let (delta, document) = finalize(&mut capture);

    assert_eq!(&delta[..0x1000], &[1; 0x1000]);
    assert_eq!(&delta[0x1000..], &[2; 0x1000]);

    assert_eq!(document.file.name, MEMORY_MANIFEST_FILE);
    let manifest = document.value;
    assert_eq!(manifest.capture_id, 7);
    assert_eq!(manifest.segments.len(), 2);
    assert_eq!(manifest.segments[0].file_offset, 0);
    assert_eq!(manifest.segments[1].file_offset, 0x1000);
    assert_eq!(manifest.restore_file_size, 0x4000);
    assert_eq!(manifest.segments[0].restore_file_offset, 0);
    assert_eq!(manifest.segments[1].restore_file_offset, 0);
}

#[test]
fn restored_memory_is_the_latest() {
    let memory = guest();
    memory.memory().write_slice(&[1; 0x2000], GuestAddress(0x1000)).unwrap();
    let mut capture = capture();
    append(&mut capture, &memory, table(&[(0x1000, 0x2000)]), 0x700).unwrap();
    memory.memory().write_slice(&[2; 0x1000], GuestAddress(0x2000)).unwrap();
    append(&mut capture, &memory, table(&[(0x2000, 0x1000)]), 0x300).unwrap();
    capture.set_restore_layout(table(&[(0x2000, 0x2000), (0, 0x2000)])).unwrap_err();
    capture.set_restore_layout(table(&[(0, 0x4000)])).unwrap();
    let (delta, document) = finalize(&mut capture);

    let mut image = vec![9u8; document.value.restore_file_size as usize];
    for segment in &document.value.segments {
        let from = segment.file_offset as usize;
        let to = segment.restore_file_offset as usize;
        let length = segment.length as usize;
        image[to..to + length].copy_from_slice(&delta[from..from + length]);
    }
    assert_eq!(&image[..0x1000], &[9; 0x1000]);
    assert_eq!(&image[0x1000..0x2000], &[1; 0x1000]);
    assert_eq!(&image[0x2000..0x3000], &[2; 0x1000]);
    assert_eq!(&image[0x3000..], &[9; 0x1000]);
}

#[test]
fn page_captured_three_times_is_restored_as_it_was_last() {
    let memory = guest();
    let mut capture = capture();
    for (value, ranges) in [(1u8, 0x3000u64), (2, 0x2000), (3, 0x1000)] {
        memory.memory().write_slice(&vec![value; 0x4000], GuestAddress(0)).unwrap();
        append(&mut capture, &memory, table(&[(0, ranges)]), 0x900).unwrap();
    }
    capture.set_restore_layout(table(&[(0, 0x4000)])).unwrap();
    let (delta, document) = finalize(&mut capture);
    assert_eq!(delta.len(), 0x6000);
    let mut image = vec![9u8; 0x4000];
    for segment in &document.value.segments {
        let from = segment.file_offset as usize;
        let to = segment.restore_file_offset as usize;
        let length = segment.length as usize;
        image[to..to + length].copy_from_slice(&delta[from..from + length]);
    }
    assert_eq!(&image[..0x1000], &[3; 0x1000]);
    assert_eq!(&image[0x1000..0x2000], &[2; 0x1000]);
    assert_eq!(&image[0x2000..0x3000], &[1; 0x1000]);
    assert_eq!(&image[0x3000..], &[9; 0x1000]);
}

#[test]
fn new_layout_does_not_reopen_a_capture() {
    let mut capture = capture();
    capture.append_memory(table(&[(1, 2)])).unwrap();
    finalize(&mut capture);
    capture.set_restore_layout(table(&[(0, 16)])).unwrap();
    assert_eq!(capture.phase(), CapturePhase::Finalized);
    assert!(capture.memory_file().is_none());
    assert_eq!(capture.captured_ranges().regions().len(), 1);
}

#[test]
fn append_asks_for_what_is_left() {
    let mut capture = capture();
    capture.append_memory(table(&[(0x1000, 0), (0x2000, 8), (0x3000, 4)])).unwrap();
    assert_eq!(capture.next_copy(), Some(GuestCopy { gpa: 0x2000, length: 8 }));
    assert_eq!(capture.next_copy(), Some(GuestCopy { gpa: 0x2000, length: 8 }));
    assert!(!capture.accepts_copy(9));
    capture.record_copy(3);
    assert_eq!(capture.next_copy(), Some(GuestCopy { gpa: 0x2003, length: 5 }));
    capture.record_copy(5);
    assert_eq!(capture.next_copy(), Some(GuestCopy { gpa: 0x3000, length: 4 }));
    capture.record_copy(4);
    assert_eq!(capture.next_copy(), None);
    assert_eq!(capture.next_copy(), None);
    assert!(!capture.accepts_copy(0));
    assert_eq!(
        manifest(&mut capture).segments,
        vec![
            MemoryDeltaSegment { gpa: 0x1000, length: 0, file_offset: 0, restore_file_offset: 0 },
            MemoryDeltaSegment { gpa: 0x2000, length: 8, file_offset: 0, restore_file_offset: 0 },
            MemoryDeltaSegment { gpa: 0x3000, length: 4, file_offset: 8, restore_file_offset: 0 },
        ]
    );
}

#[test]
fn address_and_length_must_not_overflow() {
    let mut capture = capture();
    capture.append_memory(table(&[(u64::MAX - 1, 8)])).unwrap();
    assert_eq!(capture.next_copy(), Some(GuestCopy { gpa: u64::MAX - 1, length: 8 }));
    assert!(capture.accepts_copy(1));
    assert!(!capture.accepts_copy(2));
    assert!(capture.accepts_copy(8));

    let mut capture = IncrementalSnapshotCapture::new(1, URL.to_string(), ()).unwrap();
    capture.append_memory(table(&[(0, u64::MAX), (0, 1)])).unwrap();
    capture.next_copy();
    capture.record_copy(u64::MAX);
    assert_eq!(capture.next_copy(), Some(GuestCopy { gpa: 0, length: 1 }));
    assert!(!capture.accepts_copy(1));
}

#[test]
fn failed_copy_keeps_the_captured_ranges() {
    let memory = guest();
    let mut capture = capture();
    append(&mut capture, &memory, table(&[(0, 0x1000)]), u64::MAX).unwrap();
    let error =
        append(&mut capture, &memory, table(&[(0x1000, 0x1000), (0x9000, 0x1000)]), u64::MAX)
            .unwrap_err();
    assert!(matches!(&error, CaptureError::GuestMemory { id: 7, .. }));
    assert!(error.message().starts_with("error writing guest memory for capture 7: "));
    assert_eq!(
        capture.captured_ranges().regions(),
        &vec![
            MemoryRange { gpa: 0, length: 0x1000 },
            MemoryRange { gpa: 0x1000, length: 0x1000 },
            MemoryRange { gpa: 0x9000, length: 0x1000 },
        ]
    );
    assert_eq!(capture.next_copy(), None);
    capture.mark_failed();
    assert_eq!(capture.phase(), CapturePhase::Failed);
    assert_eq!(
        capture.append_memory(table(&[(5, 5)])),
        Err(CaptureError::NotAccepting { id: 7, phase: CapturePhase::Failed })
    );
    assert_eq!(capture.captured_ranges().regions().len(), 3);
}

#[test]
fn closed_memory_file_takes_nothing() {
    let mut capture = capture();
    assert!(capture.memory_file().is_some());
    assert!(matches!(capture.finalize(), Ok(FinalizeStep::FlushMemory(_))));
    assert!(capture.memory_flushed(false).is_none());
    assert_eq!(capture.phase(), CapturePhase::Capturing);
    assert!(capture.memory_file().is_none());
    let error = capture.append_memory(table(&[(1, 2)])).unwrap_err();
    assert_eq!(error, CaptureError::MemoryFileClosed { id: 7 });
    assert_eq!(error.message(), "capture 7 memory file is closed");
    assert_eq!(capture.captured_ranges().regions(), &vec![MemoryRange { gpa: 1, length: 2 }]);

    match capture.finalize().unwrap() {
        FinalizeStep::WriteManifest(document) => assert_eq!(document.value.capture_id, 7),
        FinalizeStep::FlushMemory(_) => panic!("the memory file was closed"),
    }
    capture.manifest_written(false);
    assert_eq!(capture.phase(), CapturePhase::Capturing);
    assert!(matches!(capture.finalize(), Ok(FinalizeStep::WriteManifest(_))));
    capture.manifest_written(true);
    assert_eq!(capture.phase(), CapturePhase::Finalized);
}

#[test]
fn finalized_capture_is_closed() {
    let mut capture = capture();
    finalize(&mut capture);
    assert_eq!(capture.phase(), CapturePhase::Finalized);
    let error = capture.finalize().unwrap_err();
    assert_eq!(error, CaptureError::NotFinalizable { id: 7, phase: CapturePhase::Finalized });
    assert_eq!(error.message(), "capture 7 cannot be finalized from phase Finalized");
    let error = capture.append_memory(table(&[])).unwrap_err();
    assert_eq!(error.message(), "capture 7 is not accepting memory in phase Finalized");
    capture.mark_failed();
    assert_eq!(capture.phase(), CapturePhase::Failed);
}

#[test]
fn outcomes_out_of_turn_change_nothing() {
    let mut capture = capture();
    assert!(capture.memory_flushed(true).is_none());
    capture.manifest_written(true);
    assert_eq!(capture.phase(), CapturePhase::Capturing);
    assert!(capture.memory_file().is_some());
}

#[test]
fn layout_places_segments_in_the_first_range_that_holds_them() {
    let memory = guest();
    let mut capture = capture();
    append(&mut capture, &memory, table(&[(0x1800, 0x100), (0x800, 0x10)]), u64::MAX).unwrap();
    capture
        .set_restore_layout(table(&[(0x1000, 0x800), (0x1000, 0x1000), (0x1800, 0x400), (0, 0x1000)]))
        .unwrap();
    let manifest = manifest(&mut capture);
    assert_eq!(manifest.format_version, FORMAT_VERSION);
    assert_eq!(manifest.page_size, PAGE_SIZE);
    assert_eq!(manifest.restore_file_size, 0x2c00);
    assert_eq!(
        manifest.restore_ranges,
        vec![
            MemoryRestoreRange { gpa: 0x1000, length: 0x800, file_offset: 0 },
            MemoryRestoreRange { gpa: 0x1000, length: 0x1000, file_offset: 0x800 },
            MemoryRestoreRange { gpa: 0x1800, length: 0x400, file_offset: 0x1800 },
            MemoryRestoreRange { gpa: 0, length: 0x1000, file_offset: 0x1c00 },
        ]
    );
    assert_eq!(manifest.segments[0].restore_file_offset, 0x1000);
    assert_eq!(manifest.segments[1].restore_file_offset, 0x2400);
}

#[test]
fn segment_outside_the_layout_is_refused() {
    let memory = guest();
    let mut capture = capture();
    append(&mut capture, &memory, table(&[(0x100, 1), (0xff8, 0x10), (0x200, 1)]), u64::MAX)
        .unwrap();
    let error = capture
        .set_restore_layout(table(&[(0, 0x1000), (0x1000, 0x1000), (u64::MAX, 2)]))
        .unwrap_err();
    assert_eq!(error, CaptureError::OutsideRestoreLayout { gpa: 0xff8, end: 0x1008 });
    assert_eq!(
        error.message(),
        "memory delta [0xff8, 0x1008) is outside the restore layout"
    );
    let manifest = manifest(&mut capture);
    assert_eq!(manifest.restore_file_size, 0x2002);
    assert_eq!(manifest.restore_ranges.len(), 3);
    let offsets: Vec<u64> = manifest.segments.iter().map(|s| s.restore_file_offset).collect();
    assert_eq!(offsets, vec![0x100, 0, 0]);
}

#[test]
fn layout_that_is_too_long_is_refused() {
    let mut capture = capture();
    capture.set_restore_layout(table(&[(0, 16)])).unwrap();
    let error = capture
        .set_restore_layout(table(&[(0, u64::MAX), (1, 1), (2, 1)]))
        .unwrap_err();
    assert_eq!(error, CaptureError::RestoreSizeOverflow);
    assert_eq!(error.message(), "restore memory file size overflow");
    let manifest = manifest(&mut capture);
    assert_eq!(manifest.restore_file_size, 16);
    assert_eq!(
        manifest.restore_ranges,
        vec![
            MemoryRestoreRange { gpa: 0, length: u64::MAX, file_offset: 0 },
            MemoryRestoreRange { gpa: 1, length: 1, file_offset: u64::MAX },
        ]
    );
}

#[test]
fn segment_beyond_the_last_address_is_refused() {
    let mut capture = capture();
    capture.append_memory(table(&[(u64::MAX, 2)])).unwrap();
    capture.next_copy();
    capture.record_copy(2);
    assert_eq!(capture.next_copy(), None);
    let error = capture.set_restore_layout(table(&[(0, u64::MAX)])).unwrap_err();
    assert_eq!(error, CaptureError::GpaOverflow);
    assert_eq!(error.message(), "memory delta GPA overflow");
}

#[test]
fn files_go_to_the_destination() {
    assert_eq!(url_to_path("file:///a/b").unwrap(), "/a/b");
    assert_eq!(url_to_path("file://").unwrap(), "");
    let error = url_to_path("http://x").unwrap_err();
    assert_eq!(error, CaptureError::NotAFileUrl { url: "http://x".to_string() });
    assert_eq!(error.message(), "Could not extract path from URL: http://x");
    assert!(url_to_path("file:/").is_err());

    let request = Capture::memory_file_request("file:///d").unwrap();
    assert_eq!(request.directory, "/d");
    assert_eq!(request.name, "memory.delta");
    assert!(request.read && request.write && request.create_new);
    assert_eq!(request.mode, 0o660);
    assert_eq!(request, new_file("file:///d", MEMORY_DELTA_FILE).unwrap());
    assert!(Capture::memory_file_request("/d").is_err());
    assert!(IncrementalSnapshotCapture::new(1, "/d".to_string(), ()).is_err());
    assert!(write_json_file("/d", "x", 1u8).is_err());
    assert_eq!(write_json_file("file:///d", "x", 1u8).unwrap().value, 1);
}

#[test]
fn descriptor_describes_the_machine() {
    let config = VmConfig { memory_size: 1 << 30, boot_vcpus: 2, max_vcpus: 8 };
    let descriptor = CompatibilityDescriptor::new(&config, "x86_64", "v49.0", "v49.0-dirty");
    assert_eq!(descriptor.format_version, 1);
    assert_eq!(descriptor.architecture, "x86_64");
    assert_eq!(descriptor.vmm_version, "v49.0");
    assert_eq!(descriptor.build_version, "v49.0-dirty");
    assert_eq!(descriptor.memory_size, 1 << 30);
    assert_eq!(descriptor.boot_vcpus, 2);
    assert_eq!(descriptor.max_vcpus, 8);
    assert_eq!(descriptor.page_size, 4096);

    let capture = capture();
    let document = capture.write_compatibility(&descriptor);
    assert_eq!(document.file.directory, "/var/capture");
    assert_eq!(document.file.name, COMPATIBILITY_FILE);
    assert_eq!(document.value, &descriptor);
    assert_eq!(capture.id(), 7);
    assert_eq!(capture.destination_url(), URL);
}

#[test]
fn tables_keep_their_order() {
    let mut all = table(&[(1, 2)]);
    all.extend(table(&[(3, 4), (1, 2)]));
    assert_eq!(
        all.clone().into_regions(),
        vec![
            MemoryRange { gpa: 1, length: 2 },
            MemoryRange { gpa: 3, length: 4 },
            MemoryRange { gpa: 1, length: 2 },
        ]
    );
}

#[test]
fn numbers_are_written_as_usual() {
    for number in [0u64, 7, 9, 10, 99, 100, 255, 4096, 0xdead_beef, u64::MAX] {
        assert_eq!(decimal_text(number), format!("{}", number));
        assert_eq!(prefixed_hex_text(number), format!("{:#x}", number));
    }
}
