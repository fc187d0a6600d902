//! System call decoding and the register effects of the system calls.
use vstd::prelude::*;
use crate::traps::frame::TrapFrame;

verus! {

/// Status values returned to user space in `x7`.
#[derive(Debug, Copy, Clone, PartialEq, Eq, Structural)]
pub enum OsError {
    Unknown,
    Success,
    NoEntry,
    NoMemory,
    NoVmSpace,
    NoAccess,
    BadAddress,
    FileExists,
    InvalidArgument,
    IoError,
    IoErrorEof,
    IoErrorInvalidData,
    IoErrorInvalidInput,
    IoErrorTimedOut,
    InvalidSocket,
    IllegalSocketOperation,
    UnknownSocketError,
}

/// The numeric status code of an `OsError`.
pub open spec fn os_error_code(e: OsError) -> u64 {
    match e {
        OsError::Unknown => 0,
        OsError::Success => 1,
        OsError::NoEntry => 10,
        OsError::NoMemory => 20,
        OsError::NoVmSpace => 30,
        OsError::NoAccess => 40,
        OsError::BadAddress => 50,
        OsError::FileExists => 60,
        OsError::InvalidArgument => 70,
        OsError::IoError => 101,
        OsError::IoErrorEof => 102,
        OsError::IoErrorInvalidData => 103,
        OsError::IoErrorInvalidInput => 104,
        OsError::IoErrorTimedOut => 105,
        OsError::InvalidSocket => 200,
        OsError::IllegalSocketOperation => 201,
        OsError::UnknownSocketError => 202,
    }
}

impl OsError {
    /// The numeric status code.
    pub fn code(&self) -> (r: u64)
        ensures
            r == os_error_code(*self),
    {
        match self {
            OsError::Unknown => 0,
            OsError::Success => 1,
            OsError::NoEntry => 10,
            OsError::NoMemory => 20,
            OsError::NoVmSpace => 30,
            OsError::NoAccess => 40,
            OsError::BadAddress => 50,
            OsError::FileExists => 60,
            OsError::InvalidArgument => 70,
            OsError::IoError => 101,
            OsError::IoErrorEof => 102,
            OsError::IoErrorInvalidData => 103,
            OsError::IoErrorInvalidInput => 104,
            OsError::IoErrorTimedOut => 105,
            OsError::InvalidSocket => 200,
            OsError::IllegalSocketOperation => 201,
            OsError::UnknownSocketError => 202,
        }
    }
}

/// System call numbers.
pub const NR_SLEEP: u16 = 1;
pub const NR_TIME: u16 = 2;
pub const NR_EXIT: u16 = 3;
pub const NR_WRITE: u16 = 4;
pub const NR_GETPID: u16 = 5;

/// A decoded system call with its argument.
#[derive(Debug, Copy, Clone, PartialEq, Eq, Structural)]
pub enum Syscall {
    /// Sleep for the given number of milliseconds.
    Sleep(u32),
    /// Report the current time.
    Time,
    /// Terminate the calling process.
    Exit,
    /// Write one byte to the console.
    Write(u8),
    /// Report the calling process's id.
    GetPid,
    /// Any other number.
    Unknown,
}

/// The system call `num` with its argument taken from `x0`.
pub open spec fn syscall_of(num: u16, x0: u64) -> Syscall {
    if num == NR_SLEEP {
        Syscall::Sleep((x0 % 0x1_0000_0000) as u32)
    } else if num == NR_TIME {
        Syscall::Time
    } else if num == NR_EXIT {
        Syscall::Exit
    } else if num == NR_WRITE {
        Syscall::Write((x0 % 256) as u8)
    } else if num == NR_GETPID {
        Syscall::GetPid
    } else {
        Syscall::Unknown
    }
}

/// Decodes system call `num`; the argument of `sleep` and `write` is the
/// low part of `x0`.
pub fn decode_syscall(num: u16, tf: &TrapFrame) -> (s: Syscall)
    ensures
        s == syscall_of(num, tf.x[0]),
{
    let x0 = tf.x[0];
    assert(x0 as u32 == x0 % 0x1_0000_0000) by (bit_vector);
    assert(x0 as u8 == x0 % 256) by (bit_vector);
    if num == NR_SLEEP {
        Syscall::Sleep(x0 as u32)
    } else if num == NR_TIME {
        Syscall::Time
    } else if num == NR_EXIT {
        Syscall::Exit
    } else if num == NR_WRITE {
        Syscall::Write(x0 as u8)
    } else if num == NR_GETPID {
        Syscall::GetPid
    } else {
        Syscall::Unknown
    }
}

/// The registers of `tf` other than `x[i]` for `i` in `changed` are those
/// of `old`.
pub open spec fn only_changed(tf: TrapFrame, old: TrapFrame, changed: Set<int>) -> bool {
    &&& tf.elr == old.elr && tf.spsr == old.spsr && tf.sp == old.sp && tf.tpidr == old.tpidr
    &&& tf.ttbr0 == old.ttbr0 && tf.ttbr1 == old.ttbr1
    &&& forall|i: int| 0 <= i < 31 && !changed.contains(i) ==> #[trigger] tf.x[i] == old.x[i]
}

/// The status of an unknown system call: success, nothing else changes.
pub fn sys_unknown(tf: &mut TrapFrame)
    ensures
        final(tf).x[7] == os_error_code(OsError::Success),
        only_changed(*final(tf), *old(tf), set![7]),
{
    tf.x[7] = OsError::Success.code();
}

/// Write to console: a byte in the ASCII range is accepted (the caller
/// prints it) and `true` returned; any other byte is refused with
/// `IoErrorInvalidInput`.
pub fn sys_write(b: u8, tf: &mut TrapFrame) -> (accepted: bool)
    ensures
        accepted == (b <= 127),
        final(tf).x[7] == os_error_code(if b <= 127 {
            OsError::Success
        } else {
            OsError::IoErrorInvalidInput
        }),
        only_changed(*final(tf), *old(tf), set![7]),
{
    if b <= 127 {
        tf.x[7] = OsError::Success.code();
        true
    } else {
        tf.x[7] = OsError::IoErrorInvalidInput.code();
        false
    }
}

/// Returns the current process's id (its `tpidr`) in `x0`.
pub fn sys_getpid(tf: &mut TrapFrame)
    ensures
        final(tf).x[0] == old(tf).tpidr,
        final(tf).x[7] == os_error_code(OsError::Success),
        only_changed(*final(tf), *old(tf), set![0, 7]),
{
    tf.x[0] = tf.tpidr;
    tf.x[7] = OsError::Success.code();
}

/// Returns the current time, `secs` seconds and `nanos` nanoseconds, in
/// `x0` and `x1`.
pub fn sys_time(secs: u64, nanos: u32, tf: &mut TrapFrame)
    ensures
        final(tf).x[0] == secs,
        final(tf).x[1] == nanos,
        final(tf).x[7] == os_error_code(OsError::Success),
        only_changed(*final(tf), *old(tf), set![0, 1, 7]),
{
    tf.x[0] = secs;
    tf.x[1] = nanos as u64;
    tf.x[7] = OsError::Success.code();
}

/// The wake-up time of a sleep of `ms` milliseconds begun at `start_us`
/// microseconds.
pub open spec fn sleep_release(start_us: u64, ms: u32) -> int {
    start_us + ms * 1000
}

/// The moment, in microseconds, at which a sleep of `ms` milliseconds begun
/// at `start_us` ends.
pub fn sleep_release_time(start_us: u64, ms: u32) -> (r: u64)
    requires
        sleep_release(start_us, ms) <= u64::MAX,
    ensures
        r == sleep_release(start_us, ms),
{
    start_us + ms as u64 * 1000
}

/// Polls a sleeping process at `now_us`: once the release time is reached,
/// the elapsed milliseconds go to `x0`, the status `Ok` to `x7`, and `true`
/// is returned; before that nothing changes.
pub fn sleep_poll(start_us: u64, release_us: u64, now_us: u64, tf: &mut TrapFrame) -> (woken: bool)
    requires
        start_us <= release_us,
    ensures
        woken == (now_us >= release_us),
        woken ==> final(tf).x[0] == now_us / 1000 - start_us / 1000,
        woken ==> final(tf).x[7] == os_error_code(OsError::Success),
        woken ==> only_changed(*final(tf), *old(tf), set![0, 7]),
        !woken ==> *final(tf) == *old(tf),
{
    if now_us >= release_us {
        assert(now_us / 1000 >= start_us / 1000) by {
            vstd::arithmetic::div_mod::lemma_div_is_ordered(start_us as int, now_us as int, 1000);
        }
        tf.x[0] = now_us / 1000 - start_us / 1000;
        tf.x[7] = OsError::Success.code();
        true
    } else {
        false
    }
}

/// The system call numbers and their arguments: 1 sleeps for the
/// milliseconds in the low 32 bits of `x0`, 2 asks the time, 3 exits, 4
/// writes the byte in the low 8 bits of `x0`, 5 asks the process id; any
/// other number is unknown.
pub proof fn law_syscall_numbers(num: u16, x0: u64)
    ensures
        num == 1 ==> syscall_of(num, x0) == Syscall::Sleep((x0 & 0xFFFF_FFFF) as u32),
        num == 1 && x0 <= 0xFFFF_FFFF ==> syscall_of(num, x0) == Syscall::Sleep(x0 as u32),
        num == 2 ==> syscall_of(num, x0) == Syscall::Time,
        num == 3 ==> syscall_of(num, x0) == Syscall::Exit,
        num == 4 ==> syscall_of(num, x0) == Syscall::Write((x0 & 0xFF) as u8),
        num == 4 && x0 <= 0xFF ==> syscall_of(num, x0) == Syscall::Write(x0 as u8),
        num == 5 ==> syscall_of(num, x0) == Syscall::GetPid,
        num == 0 || num > 5 ==> syscall_of(num, x0) == Syscall::Unknown,
{
    assert(x0 & 0xFFFF_FFFF == x0 % 0x1_0000_0000) by (bit_vector);
    assert(x0 & 0xFF == x0 % 256) by (bit_vector);
}

/// The status codes returned to user space: success is 1, a refused write
/// 104, and the others as the kernel's error numbering gives them.
pub proof fn law_status_codes()
    ensures
        os_error_code(OsError::Unknown) == 0,
        os_error_code(OsError::Success) == 1,
        os_error_code(OsError::NoEntry) == 10,
        os_error_code(OsError::NoMemory) == 20,
        os_error_code(OsError::NoVmSpace) == 30,
        os_error_code(OsError::NoAccess) == 40,
        os_error_code(OsError::BadAddress) == 50,
        os_error_code(OsError::FileExists) == 60,
        os_error_code(OsError::InvalidArgument) == 70,
        os_error_code(OsError::IoError) == 101,
        os_error_code(OsError::IoErrorEof) == 102,
        os_error_code(OsError::IoErrorInvalidData) == 103,
        os_error_code(OsError::IoErrorInvalidInput) == 104,
        os_error_code(OsError::IoErrorTimedOut) == 105,
        os_error_code(OsError::InvalidSocket) == 200,
        os_error_code(OsError::IllegalSocketOperation) == 201,
        os_error_code(OsError::UnknownSocketError) == 202,
{
}

/// A sleep ends exactly its length in microseconds after it began, never
/// before.
pub proof fn law_sleep_release(start_us: u64, ms: u32)
    ensures
        sleep_release(start_us, ms) - start_us == ms as int * 1000,
        sleep_release(start_us, ms) >= start_us,
{
}

} // verus!
