//! Sparse operations on regular files and block devices.
//!
//! Each operation yields the system call to make; `call_result` reads what
//! that call returned.

use vstd::prelude::*;

verus! {

/// Linux UAPI `_IO(0x12, 119)`, whose argument is `__u64 range[2]`.
pub const BLKDISCARD: u64 = 0x1277;

/// Linux UAPI `_IO(0x12, 127)`, whose argument is `__u64 range[2]`.
pub const BLKZEROOUT: u64 = 0x127f;

/// The constant `libc::FALLOC_FL_KEEP_SIZE`, which is 1 on Linux.
#[verifier::external_body]
fn falloc_fl_keep_size() -> (flag: i32)
    ensures
        flag == 0x01,
{
    libc::FALLOC_FL_KEEP_SIZE
}

/// The constant `libc::FALLOC_FL_PUNCH_HOLE`, which is 2 on Linux.
#[verifier::external_body]
fn falloc_fl_punch_hole() -> (flag: i32)
    ensures
        flag == 0x02,
{
    libc::FALLOC_FL_PUNCH_HOLE
}

/// The constant `libc::FALLOC_FL_ZERO_RANGE`, which is 16 on Linux.
#[verifier::external_body]
fn falloc_fl_zero_range() -> (flag: i32)
    ensures
        flag == 0x10,
{
    libc::FALLOC_FL_ZERO_RANGE
}

/// A system call that changes how a byte range of `fd` is stored.
#[derive(Clone, Copy, Debug, PartialEq, Eq, Structural)]
pub enum SparseCall {
    /// `ioctl(fd, request, &[start, count])`.
    RangeIoctl { fd: i32, request: u64, start: u64, count: u64 },
    /// `fallocate(fd, mode, offset, length)`.
    Fallocate { fd: i32, mode: i32, offset: i64, length: i64 },
}

/// `value` as the kernel's signed file offset: the same 64 bits, read as two's
/// complement.
pub open spec fn file_offset(value: u64) -> int {
    if value <= i64::MAX {
        value as int
    } else {
        value - 0x1_0000_0000_0000_0000
    }
}

/// The `ioctl` that applies `request` to a byte range of a block device.
pub open spec fn range_ioctl(fd: i32, request: u64, offset: u64, length: u64) -> SparseCall {
    SparseCall::RangeIoctl { fd, request, start: offset, count: length }
}

/// The `fallocate` call with `mode` on a byte range of a file.
pub open spec fn fallocate_call(fd: i32, mode: i32, offset: u64, length: u64) -> SparseCall {
    SparseCall::Fallocate {
        fd,
        mode,
        offset: file_offset(offset) as i64,
        length: file_offset(length) as i64,
    }
}

/// The call that punches a hole: a discard on a block device, elsewhere
/// `FALLOC_FL_PUNCH_HOLE | FALLOC_FL_KEEP_SIZE`.
pub open spec fn punch_hole_call(
    fd: i32,
    is_block_device: bool,
    offset: u64,
    length: u64,
) -> SparseCall {
    if is_block_device {
        range_ioctl(fd, BLKDISCARD, offset, length)
    } else {
        fallocate_call(fd, 0x03, offset, length)
    }
}

/// The call that zeroes a range: a zero-out on a block device, elsewhere
/// `FALLOC_FL_ZERO_RANGE | FALLOC_FL_KEEP_SIZE`.
pub open spec fn write_zeroes_call(
    fd: i32,
    is_block_device: bool,
    offset: u64,
    length: u64,
) -> SparseCall {
    if is_block_device {
        range_ioctl(fd, BLKZEROOUT, offset, length)
    } else {
        fallocate_call(fd, 0x11, offset, length)
    }
}

impl SparseCall {
    /// The first byte and the byte count that the kernel is told.
    pub open spec fn range(self) -> (int, int) {
        match self {
            SparseCall::RangeIoctl { fd, request, start: offset, count: length } => (
                offset as int,
                length as int,
            ),
            SparseCall::Fallocate { fd, mode, offset, length } => (offset as int, length as int),
        }
    }

    /// Whether the call may leave the file longer or shorter than it was.
    /// Block devices have a fixed size.
    pub open spec fn may_change_size(self) -> bool {
        match self {
            SparseCall::RangeIoctl { fd, request, start: offset, count: length } => false,
            SparseCall::Fallocate { fd, mode, offset, length } => mode & 0x01 == 0,
        }
    }
}

/// The `ioctl` that applies `request` to a byte range of a block device.
pub fn blk_range_ioctl(fd: i32, request: u64, offset: u64, length: u64) -> (call: SparseCall)
    ensures
        call == range_ioctl(fd, request, offset, length),
{
    SparseCall::RangeIoctl { fd, request, start: offset, count: length }
}

/// The call that discards a byte range of a block device.
pub fn blkdiscard(fd: i32, offset: u64, length: u64) -> (call: SparseCall)
    ensures
        call == range_ioctl(fd, BLKDISCARD, offset, length),
{
    blk_range_ioctl(fd, BLKDISCARD, offset, length)
}

/// The call that zeroes a byte range of a block device.
pub fn blkzeroout(fd: i32, offset: u64, length: u64) -> (call: SparseCall)
    ensures
        call == range_ioctl(fd, BLKZEROOUT, offset, length),
{
    blk_range_ioctl(fd, BLKZEROOUT, offset, length)
}

/// The call that deallocates a byte range.
pub fn punch_hole(fd: i32, is_block_device: bool, offset: u64, length: u64) -> (call: SparseCall)
    ensures
        call == punch_hole_call(fd, is_block_device, offset, length),
{
    if is_block_device {
        blkdiscard(fd, offset, length)
    } else {
        assert(0x02i32 | 0x01i32 == 0x03i32) by (bit_vector);
        fallocate(fd, falloc_fl_punch_hole() | falloc_fl_keep_size(), offset, length)
    }
}

/// The call that makes a byte range read as zeroes.
pub fn write_zeroes(fd: i32, is_block_device: bool, offset: u64, length: u64) -> (call: SparseCall)
    ensures
        call == write_zeroes_call(fd, is_block_device, offset, length),
{
    if is_block_device {
        blkzeroout(fd, offset, length)
    } else {
        assert(0x10i32 | 0x01i32 == 0x11i32) by (bit_vector);
        fallocate(fd, falloc_fl_zero_range() | falloc_fl_keep_size(), offset, length)
    }
}

/// The `fallocate` call with `mode` on a byte range.
pub fn fallocate(fd: i32, mode: i32, offset: u64, length: u64) -> (call: SparseCall)
    ensures
        call == fallocate_call(fd, mode, offset, length),
{
    SparseCall::Fallocate { fd, mode, offset: to_off_t(offset), length: to_off_t(length) }
}

/// `value as off_t`.
fn to_off_t(value: u64) -> (converted: i64)
    ensures
        converted == file_offset(value),
{
    assert(value <= 0x7fff_ffff_ffff_ffffu64 ==> value as i64 == value) by (bit_vector);
    assert(value > 0x7fff_ffff_ffff_ffffu64 ==> value as i64 == value - 0x1_0000_0000_0000_0000)
        by (bit_vector);
    #[verifier::truncate]
    (value as i64)
}

/// What a system call that returned `result` and left `last_os_error` comes to.
pub open spec fn call_outcome(result: i32, last_os_error: std::io::Error) -> Result<
    (),
    std::io::Error,
> {
    if result == 0 {
        Ok(())
    } else {
        Err(last_os_error)
    }
}

/// What a sparse operation returns: success exactly when the system call
/// returned 0, and otherwise the error that the operating system left.
pub fn call_result(result: i32, last_os_error: std::io::Error) -> (outcome: Result<
    (),
    std::io::Error,
>)
    ensures
        outcome == call_outcome(result, last_os_error),
        result == 0 ==> outcome == Ok::<(), std::io::Error>(()),
        result != 0 ==> outcome == Err::<(), std::io::Error>(last_os_error),
{
    if result == 0 {
        Ok(())
    } else {
        Err(last_os_error)
    }
}

/// Neither operation changes the size of what it is applied to.
pub proof fn law_size_is_kept(fd: i32, is_block_device: bool, offset: u64, length: u64)
    ensures
        !punch_hole_call(fd, is_block_device, offset, length).may_change_size(),
        !write_zeroes_call(fd, is_block_device, offset, length).may_change_size(),
{
    assert(0x03i32 & 0x01i32 == 0x01i32) by (bit_vector);
    assert(0x11i32 & 0x01i32 == 0x01i32) by (bit_vector);
}

/// Both operations name the byte range that they were given to the kernel,
/// whatever the range on a block device, and on a file as long as the range can
/// be a file offset.
pub proof fn law_range_is_kept(fd: i32, is_block_device: bool, offset: u64, length: u64)
    requires
        is_block_device || (offset <= i64::MAX && length <= i64::MAX),
    ensures
        punch_hole_call(fd, is_block_device, offset, length).range() == (
            offset as int,
            length as int,
        ),
        write_zeroes_call(fd, is_block_device, offset, length).range() == (
            offset as int,
            length as int,
        ),
{
}

/// A range of a regular file that no file offset can express reaches the kernel
/// as a negative number, never as another valid range.
pub proof fn law_oversized_range_is_negative(fd: i32, offset: u64, length: u64)
    requires
        offset > i64::MAX || length > i64::MAX,
    ensures
        punch_hole_call(fd, false, offset, length).range().0 < 0 || punch_hole_call(
            fd,
            false,
            offset,
            length,
        ).range().1 < 0,
        write_zeroes_call(fd, false, offset, length).range().0 < 0 || write_zeroes_call(
            fd,
            false,
            offset,
            length,
        ).range().1 < 0,
{
}

/// Writing zeroes makes the range read as zeroes and does no more: a block device is
/// asked to zero it out, and a file to zero it with its size kept, never to discard
/// or deallocate it. The descriptor and the range are those that were given.
pub proof fn law_write_zeroes_zeroes(fd: i32, is_block_device: bool, offset: u64, length: u64)
    ensures
        match write_zeroes_call(fd, is_block_device, offset, length) {
            SparseCall::RangeIoctl { fd: target, request, start, count } => {
                &&& is_block_device
                &&& target == fd
                &&& request == 0x127f
                &&& start == offset
                &&& count == length
            },
            SparseCall::Fallocate { fd: target, mode, offset: from, length: size } => {
                &&& !is_block_device
                &&& target == fd
                &&& mode & 0x10 == 0x10
                &&& mode & 0x02 == 0
                &&& mode & 0x01 == 0x01
                &&& mode <= 0x13
                &&& mode >= 0
                &&& (from - offset) % 0x1_0000_0000_0000_0000 == 0
                &&& (size - length) % 0x1_0000_0000_0000_0000 == 0
            },
        },
{
    assert(0x11i32 & 0x10i32 == 0x10i32) by (bit_vector);
    assert(0x11i32 & 0x02i32 == 0i32) by (bit_vector);
    assert(0x11i32 & 0x01i32 == 0x01i32) by (bit_vector);
}

/// Punching a hole deallocates the range and does no more: a block device is asked to
/// discard it, and a file to punch a hole with its size kept. The descriptor and the
/// range are those that were given.
pub proof fn law_punch_hole_deallocates(fd: i32, is_block_device: bool, offset: u64, length: u64)
    ensures
        match punch_hole_call(fd, is_block_device, offset, length) {
            SparseCall::RangeIoctl { fd: target, request, start, count } => {
                &&& is_block_device
                &&& target == fd
                &&& request == 0x1277
                &&& start == offset
                &&& count == length
            },
            SparseCall::Fallocate { fd: target, mode, offset: from, length: size } => {
                &&& !is_block_device
                &&& target == fd
                &&& mode & 0x02 == 0x02
                &&& mode & 0x10 == 0
                &&& mode & 0x01 == 0x01
                &&& mode <= 0x13
                &&& mode >= 0
                &&& (from - offset) % 0x1_0000_0000_0000_0000 == 0
                &&& (size - length) % 0x1_0000_0000_0000_0000 == 0
            },
        },
{
    assert(0x03i32 & 0x10i32 == 0i32) by (bit_vector);
    assert(0x03i32 & 0x02i32 == 0x02i32) by (bit_vector);
    assert(0x03i32 & 0x01i32 == 0x01i32) by (bit_vector);
}

/// A file offset is the one signed number of 64 bits that is the given number modulo
/// two to the 64: two numbers that differ reach the kernel as different offsets.
pub proof fn law_file_offsets_do_not_collide(a: u64, b: u64)
    ensures
        i64::MIN <= file_offset(a) <= i64::MAX,
        (file_offset(a) - a) % 0x1_0000_0000_0000_0000 == 0,
        file_offset(a) == file_offset(b) ==> a == b,
{
}

/// A sparse operation succeeds exactly when its system call returned 0, and fails
/// with the error that was left.
pub proof fn law_zero_is_the_only_success(result: i32, last_os_error: std::io::Error)
    ensures
        call_outcome(result, last_os_error) is Ok <==> result == 0,
        call_outcome(result, last_os_error) matches Err(error) ==> error == last_os_error,
{
}

/// What is asked of a block device or a file reaches the kernel as it was asked: the
/// descriptor, the request or the mode, and the range.
pub proof fn law_call_is_as_asked(fd: i32, request: u64, mode: i32, offset: u64, length: u64)
    ensures
        match range_ioctl(fd, request, offset, length) {
            SparseCall::RangeIoctl { fd: target, request: asked, start, count } => {
                target == fd && asked == request && start == offset && count == length
            },
            _ => false,
        },
        match fallocate_call(fd, mode, offset, length) {
            SparseCall::Fallocate { fd: target, mode: asked, offset: from, length: size } => {
                &&& target == fd
                &&& asked == mode
                &&& (from - offset) % 0x1_0000_0000_0000_0000 == 0
                &&& (size - length) % 0x1_0000_0000_0000_0000 == 0
            },
            _ => false,
        },
{
}

} // verus!
