use vmm_core::sparse::{
    blk_range_ioctl, blkdiscard, blkzeroout, call_result, fallocate, punch_hole, write_zeroes,
    SparseCall, BLKDISCARD, BLKZEROOUT,
};

#[test]
fn block_device_hole_is_a_discard() {
    assert_eq!(
        punch_hole(5, true, 4096, 8192),
        SparseCall::RangeIoctl { fd: 5, request: 0x1277, start: 4096, count: 8192 }
    );
    assert_eq!(punch_hole(5, true, 4096, 8192), blkdiscard(5, 4096, 8192));
    assert_eq!(BLKDISCARD, 0x1277);
}

#[test]
fn block_device_zeroes_are_a_zero_out() {
    assert_eq!(
        write_zeroes(5, true, u64::MAX, 1),
        SparseCall::RangeIoctl { fd: 5, request: 0x127f, start: u64::MAX, count: 1 }
    );
    assert_eq!(write_zeroes(5, true, 0, 1), blkzeroout(5, 0, 1));
    assert_eq!(BLKZEROOUT, 0x127f);
}

#[test]
fn file_hole_keeps_the_size() {
    let mode = libc::FALLOC_FL_PUNCH_HOLE | libc::FALLOC_FL_KEEP_SIZE;
    assert_eq!(mode, 3);
    assert_eq!(
        punch_hole(7, false, 512, 1024),
        SparseCall::Fallocate { fd: 7, mode, offset: 512, length: 1024 }
    );
}

#[test]
fn file_zeroes_keep_the_size() {
    let mode = libc::FALLOC_FL_ZERO_RANGE | libc::FALLOC_FL_KEEP_SIZE;
    assert_eq!(mode, 0x11);
    assert_eq!(
        write_zeroes(7, false, 512, 1024),
        SparseCall::Fallocate { fd: 7, mode, offset: 512, length: 1024 }
    );
}

#[test]
fn offset_beyond_a_file_is_negative() {
    assert_eq!(
        fallocate(1, 0, u64::MAX, 1u64 << 63),
        SparseCall::Fallocate { fd: 1, mode: 0, offset: -1, length: i64::MIN }
    );
    assert_eq!(
        fallocate(1, 0, i64::MAX as u64, 0),
        SparseCall::Fallocate { fd: 1, mode: 0, offset: i64::MAX, length: 0 }
    );
}

#[test]
fn ioctl_passes_its_arguments_on() {
    assert_eq!(
        blk_range_ioctl(-1, 9, 3, 4),
        SparseCall::RangeIoctl { fd: -1, request: 9, start: 3, count: 4 }
    );
}

#[test]
fn only_zero_is_success() {
    assert!(call_result(0, std::io::Error::other("stale")).is_ok());
    let refused = call_result(-1, std::io::Error::from_raw_os_error(libc::EPERM));
    assert_eq!(refused.unwrap_err().raw_os_error(), Some(libc::EPERM));
    assert!(call_result(1, std::io::Error::other("odd")).is_err());
}
