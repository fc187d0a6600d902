use lib::traps::frame::TrapFrame;
use lib::traps::irq::{Interrupt, Irq, IrqHandler};
use lib::traps::syndrome::{Fault, Syndrome};
use lib::traps::syscall::{
    decode_syscall, sleep_poll, sleep_release_time, sys_getpid, sys_time, sys_unknown, sys_write,
    OsError, Syscall,
};

#[test]
fn fault_codes() {
    assert_eq!(Fault::from(0b000000), Fault::AddressSize);
    assert_eq!(Fault::from(0b000011), Fault::AddressSize);
    assert_eq!(Fault::from(0b000001), Fault::AddressSize);
    assert_eq!(Fault::from(0b000010), Fault::AddressSize);
    assert_eq!(Fault::from(0b000101), Fault::Translation);
    assert_eq!(Fault::from(0b001010), Fault::AccessFlag);
    assert_eq!(Fault::from(0b001101), Fault::Permission);
    assert_eq!(Fault::from(0b100001), Fault::Alignment);
    assert_eq!(Fault::from(0b110000), Fault::TlbConflict);
    assert_eq!(Fault::from(0xFFFF_FF00 | 0b000110), Fault::Translation);
    assert_eq!(Fault::from(0b111111), Fault::Other(0b111111));
}

#[test]
fn syndrome_classes() {
    assert_eq!(Syndrome::from(0), Syndrome::Unknown);
    assert_eq!(Syndrome::from(0b000001 << 26), Syndrome::WfiWfe);
    assert_eq!(Syndrome::from((0b010101 << 26) | 0x2_0003), Syndrome::Svc(3));
    assert_eq!(Syndrome::from((0b010001 << 26) | 0x1234), Syndrome::Svc(0x1234));
    assert_eq!(Syndrome::from((0b010110 << 26) | 7), Syndrome::Hvc(7));
    assert_eq!(Syndrome::from((0b010111 << 26) | 9), Syndrome::Smc(9));
    assert_eq!(Syndrome::from(0b011000 << 26), Syndrome::MsrMrsSystem);
    assert_eq!(
        Syndrome::from((0b100000 << 26) | 0b000101),
        Syndrome::InstructionAbort { kind: Fault::Translation, level: 1 }
    );
    assert_eq!(
        Syndrome::from(0x8600_0006),
        Syndrome::InstructionAbort { kind: Fault::Translation, level: 2 }
    );
    assert_eq!(
        Syndrome::from((0b100001 << 26) | 0b001101),
        Syndrome::InstructionAbort { kind: Fault::Permission, level: 1 }
    );
    assert_eq!(
        Syndrome::from((0b100101 << 26) | 0b000111),
        Syndrome::DataAbort { kind: Fault::Translation, level: 3 }
    );
    assert_eq!(
        Syndrome::from((0b100100 << 26) | 0b100001),
        Syndrome::DataAbort { kind: Fault::Alignment, level: 1 }
    );
    assert_eq!(Syndrome::from(0b100010 << 26), Syndrome::PCAlignmentFault);
    assert_eq!(Syndrome::from(0b100110 << 26), Syndrome::SpAlignmentFault);
    assert_eq!(Syndrome::from(0b101100 << 26), Syndrome::TrappedFpu);
    assert_eq!(Syndrome::from(0b101111 << 26), Syndrome::SError);
    assert_eq!(Syndrome::from(0b110001 << 26), Syndrome::Breakpoint);
    assert_eq!(Syndrome::from(0b110010 << 26), Syndrome::Step);
    assert_eq!(Syndrome::from(0b110101 << 26), Syndrome::Watchpoint);
    assert_eq!(Syndrome::from((0b111100 << 26) | 2), Syndrome::Brk(2));
    assert_eq!(Syndrome::from(0b111111 << 26), Syndrome::Other(0b111111 << 26));
}

#[test]
fn syscall_decoding() {
    let mut tf = TrapFrame::new();
    tf.x[0] = 0x1_0000_0005;
    assert_eq!(decode_syscall(1, &tf), Syscall::Sleep(5));
    assert_eq!(decode_syscall(2, &tf), Syscall::Time);
    assert_eq!(decode_syscall(3, &tf), Syscall::Exit);
    tf.x[0] = 0x141;
    assert_eq!(decode_syscall(4, &tf), Syscall::Write(0x41));
    assert_eq!(decode_syscall(5, &tf), Syscall::GetPid);
    assert_eq!(decode_syscall(9, &tf), Syscall::Unknown);
}

#[test]
fn syscall_register_effects() {
    let mut tf = TrapFrame::new();
    tf.tpidr = 42;
    sys_getpid(&mut tf);
    assert_eq!(tf.x[0], 42);
    assert_eq!(tf.x[7], OsError::Success.code());
    assert_eq!(OsError::Success.code(), 1);
    assert!(sys_write(b'a', &mut tf));
    assert_eq!(tf.x[7], 1);
    assert!(!sys_write(200, &mut tf));
    assert_eq!(tf.x[7], 104);
    sys_time(12, 345, &mut tf);
    assert_eq!((tf.x[0], tf.x[1], tf.x[7]), (12, 345, 1));
    tf.x[7] = 0;
    sys_unknown(&mut tf);
    assert_eq!(tf.x[7], 1);
    assert_eq!(OsError::NoMemory.code(), 20);
    assert_eq!(OsError::IoErrorInvalidData.code(), 103);
}

#[test]
fn sleep_wakes_at_release_time() {
    let release = sleep_release_time(1_500, 10);
    assert_eq!(release, 11_500);
    let mut tf = TrapFrame::new();
    assert!(!sleep_poll(1_500, release, 11_499, &mut tf));
    assert_eq!(tf.x[0], 0);
    assert!(sleep_poll(1_500, release, 12_700, &mut tf));
    assert_eq!(tf.x[0], 12 - 1);
    assert_eq!(tf.x[7], 1);
}

struct Counter(u64);

impl IrqHandler for Counter {
    fn handle(&mut self, tf: &mut TrapFrame) {
        self.0 += 1;
        tf.x[0] = self.0;
    }
}

#[test]
fn irq_register_and_invoke() {
    let mut irq: Irq<Counter> = Irq::uninitialized();
    assert!(!irq.has_table());
    assert!(!irq.has_handler(Interrupt::Timer1));
    let mut tf = TrapFrame::new();
    irq.invoke(Interrupt::Timer1, &mut tf);
    assert_eq!(tf.x[0], 0);
    irq.initialize();
    assert!(irq.has_table());
    assert!(!irq.has_handler(Interrupt::Timer1));
    irq.register(Interrupt::Timer1, Counter(10));
    assert!(irq.has_handler(Interrupt::Timer1));
    assert!(!irq.has_handler(Interrupt::Usb));
    irq.register(Interrupt::Uart, Counter(100));
    irq.invoke(Interrupt::Timer1, &mut tf);
    assert_eq!(tf.x[0], 11);
    irq.invoke(Interrupt::Timer1, &mut tf);
    assert_eq!(tf.x[0], 12);
    irq.invoke(Interrupt::Uart, &mut tf);
    assert_eq!(tf.x[0], 101);
    assert_eq!(Interrupt::to_index(Interrupt::Uart), 7);
    assert_eq!(Interrupt::to_index(Interrupt::Timer1), 0);
}
