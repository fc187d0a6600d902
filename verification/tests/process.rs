use lib::param::{PAGE_SIZE, USER_IMG_BASE, USER_STACK_BASE};
use lib::process::{
    align_down, get_image_base, load_after, load_start, LoadStep, get_max_va, get_stack_base, get_stack_top, Process, State,
    WaitEvent, SPSR_A, SPSR_D, SPSR_F,
};
use lib::traps::syscall::OsError;
use lib::vm::pagetable::PagePerm;

struct Countdown(u32);

impl WaitEvent for Countdown {
    fn poll(&mut self, p: &mut Process<Countdown>) -> bool {
        if self.0 == 0 {
            p.context.x[0] = 99;
            true
        } else {
            self.0 -= 1;
            false
        }
    }
}

#[test]
fn address_space_layout() {
    assert_eq!(get_image_base(), 0xffff_ffff_c000_0000);
    assert_eq!(get_max_va(), u64::MAX);
    assert_eq!(get_stack_base(), 0xffff_ffff_ffff_0000);
    assert_eq!(get_stack_top(), USER_STACK_BASE + (PAGE_SIZE - 16));
    assert_eq!(align_down(0x12345, 0x1000), 0x12000);
}

#[test]
fn new_process_needs_a_stack() {
    assert!(matches!(Process::<Countdown>::new(None, 0x10_0000), Err(OsError::NoMemory)));
    let p = Process::<Countdown>::new(Some(0x5000), 0x10_0000).unwrap();
    assert!(matches!(p.state, State::Ready));
    assert_eq!(p.stack, 0x5000);
    assert_eq!(p.context.sp, 0);
}

#[test]
fn initial_context() {
    let mut p = Process::<Countdown>::new(Some(0x5000), 0x10_0000).unwrap();
    p.set_initial_context(0x20_0000);
    assert_eq!(p.context.sp, get_stack_top());
    assert_eq!(p.context.elr, USER_IMG_BASE);
    assert_eq!(p.context.ttbr0, 0x20_0000);
    assert_eq!(p.context.ttbr1, 0x10_0000);
    assert_eq!(p.context.spsr, SPSR_D | SPSR_A | SPSR_F);
    assert_eq!(p.context.spsr, 0x340);
}

#[test]
fn waiting_process_becomes_ready_when_event_arrives() {
    let mut p = Process::<Countdown>::new(Some(0x5000), 0x10_0000).unwrap();
    assert!(p.is_ready());
    p.state = State::Waiting(Countdown(2));
    assert!(!p.is_ready());
    assert!(matches!(p.state, State::Waiting(Countdown(1))));
    assert!(!p.is_ready());
    assert!(p.is_ready());
    assert!(matches!(p.state, State::Ready));
    assert_eq!(p.context.x[0], 99);
    p.state = State::Dead;
    assert!(!p.is_ready());
    assert!(matches!(p.state, State::Dead));
}

#[test]
fn loading_maps_the_stack_then_image_pages_until_a_read_is_empty() {
    let first = load_start();
    assert_eq!(first, LoadStep::MapPage { va: USER_STACK_BASE, perm: PagePerm::RW, read: false });
    let img = load_after(first, 0);
    assert_eq!(img, LoadStep::MapPage { va: USER_IMG_BASE, perm: PagePerm::RWX, read: true });
    let next = load_after(img, PAGE_SIZE as usize);
    assert_eq!(next, LoadStep::MapPage { va: USER_IMG_BASE + PAGE_SIZE, perm: PagePerm::RWX, read: true });
    assert_eq!(load_after(next, 3), LoadStep::MapPage { va: USER_IMG_BASE + 2 * PAGE_SIZE, perm: PagePerm::RWX, read: true });
    assert_eq!(load_after(next, 0), LoadStep::Done);
}
