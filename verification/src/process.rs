//! Processes: scheduling state, address-space layout and initial context.
use vstd::prelude::*;
use crate::allocator::util::{align_down_spec, is_power_of_two};
use crate::param::{PAGE_SIZE, USER_IMG_BASE, USER_MAX_VM_SIZE, USER_STACK_BASE};
use crate::traps::frame::TrapFrame;
use crate::traps::syscall::OsError;
use crate::vm::pagetable::{PagePerm, PageTable, UserPageTable, table_entry, TABLE_ENTRIES};
use crate::vm::entry::PERM_USER_RW;

verus! {

/// Bits of the saved program status that mask debug exceptions (D),
/// SErrors (A) and FIQs (F).
pub const SPSR_D: u64 = 1 << 9;
pub const SPSR_A: u64 = 1 << 8;
pub const SPSR_F: u64 = 1 << 6;

/// An event a waiting process waits for; polling it may update the process.
pub trait WaitEvent: Sized {
    /// Whether one poll of the event, started as `self` on the process `p`,
    /// may end as `after` with the process `p_after` and the answer `arrived`.
    /// An implementation says what its poll does here; the default says
    /// nothing of it.
    open spec fn polls(&self, p: Process<Self>, after: Self, p_after: Process<Self>, arrived: bool) -> bool {
        true
    }

    /// Polls the event for the process `p`; returns whether it has arrived.
    fn poll(&mut self, p: &mut Process<Self>) -> (arrived: bool)
        ensures
            old(self).polls(*old(p), *final(self), *final(p), arrived),
    ;
}

/// The process `p` with its state replaced by `state`.
pub open spec fn with_state<E>(p: Process<E>, state: State<E>) -> Process<E> {
    Process { context: p.context, stack: p.stack, vmap: p.vmap, state }
}

/// The scheduling state of a process.
pub enum State<E> {
    /// The process is new.
    Start,
    /// The process is ready to be scheduled.
    Ready,
    /// The process is waiting on an event.
    Waiting(E),
    /// The process is currently running.
    Running,
    /// The process is dead.
    Dead,
}

/// The complete state of a process.
pub struct Process<E> {
    /// The saved trap frame.
    pub context: TrapFrame,
    /// Address of the process's kernel stack allocation.
    pub stack: u64,
    /// The page table describing the process's virtual memory.
    pub vmap: UserPageTable,
    /// The scheduling state.
    pub state: State<E>,
}

/// Returns the highest virtual address supported by this system.
pub fn get_max_va() -> (r: u64)
    ensures
        r == USER_IMG_BASE + USER_MAX_VM_SIZE - 1,
{
    USER_MAX_VM_SIZE + (USER_IMG_BASE - 1)
}

/// Returns the base address of the user memory space.
pub fn get_image_base() -> (r: u64)
    ensures
        r == USER_IMG_BASE,
{
    USER_IMG_BASE
}

/// Returns the base address of the user process's stack.
pub fn get_stack_base() -> (r: u64)
    ensures
        r == USER_STACK_BASE,
{
    USER_STACK_BASE
}

/// Returns the top of the user process's stack: 16 bytes below the end of
/// its page.
pub fn get_stack_top() -> (r: u64)
    ensures
        r == USER_STACK_BASE + PAGE_SIZE - 16,
{
    USER_STACK_BASE + (PAGE_SIZE - 16)
}

/// Align `addr` downwards to the nearest multiple of `align`, a power of two.
pub fn align_down(addr: usize, align: usize) -> (r: usize)
    requires
        is_power_of_two(align as int),
    ensures
        r == align_down_spec(addr as int, align as int),
        r <= addr,
        r % align == 0,
{
    crate::allocator::util::align_down(addr, align)
}

/// A step of loading a program into a fresh process.
#[derive(Debug, Copy, Clone, PartialEq, Eq, Structural)]
pub enum LoadStep {
    /// Map a fresh page at the user address `va` with permission `perm`;
    /// when `read` is set, read the program's next bytes into it.
    MapPage { va: u64, perm: PagePerm, read: bool },
    /// The program is loaded.
    Done,
}

/// The first step of loading a program: one read/write stack page at
/// `USER_STACK_BASE`, into which nothing is read.
pub fn load_start() -> (r: LoadStep)
    ensures
        r == (LoadStep::MapPage { va: USER_STACK_BASE, perm: PagePerm::RW, read: false }),
{
    LoadStep::MapPage { va: USER_STACK_BASE, perm: PagePerm::RW, read: false }
}

/// The step after `step`, once `bytes_read` bytes of the program were read
/// into its page: after the stack page, the first read/write/execute image
/// page at `USER_IMG_BASE`; after an image page that got bytes, the next
/// image page; after an image page whose read came back empty, done. The
/// image pages lie below the stack page.
pub fn load_after(step: LoadStep, bytes_read: usize) -> (r: LoadStep)
    requires
        step matches LoadStep::MapPage { va, read, .. } && (read ==> va < USER_STACK_BASE),
    ensures
        step matches LoadStep::MapPage { read: false, .. } ==> r == (LoadStep::MapPage {
            va: USER_IMG_BASE,
            perm: PagePerm::RWX,
            read: true,
        }),
        step matches LoadStep::MapPage { va, read: true, .. } ==> (bytes_read == 0 ==> r is Done) && (
        bytes_read > 0 ==> r == (LoadStep::MapPage {
            va: (va + PAGE_SIZE) as u64,
            perm: PagePerm::RWX,
            read: true,
        })),
{
    match step {
        LoadStep::MapPage { va, read, .. } => {
            if !read {
                LoadStep::MapPage { va: USER_IMG_BASE, perm: PagePerm::RWX, read: true }
            } else if bytes_read == 0 {
                LoadStep::Done
            } else {
                LoadStep::MapPage { va: va + PAGE_SIZE, perm: PagePerm::RWX, read: true }
            }
        },
        LoadStep::Done => LoadStep::Done,
    }
}

impl<E: WaitEvent> Process<E> {
    /// Creates a ready process with a zeroed trap frame, the stack
    /// allocation at `stack` and an empty user page table at `table_base`.
    ///
    /// # Errors
    ///
    /// `NoMemory` when no stack could be allocated (`stack` is `None`).
    pub fn new(stack: Option<u64>, table_base: u64) -> (r: Result<Process<E>, OsError>)
        requires
            PageTable::base_ok(table_base),
        ensures
            stack is None ==> r == Err::<Process<E>, OsError>(OsError::NoMemory),
            stack matches Some(s) ==> (r matches Ok(p) && p.stack == s && p.state is Ready
                && p.context.is_zeroed() && p.vmap.0.wf() && p.vmap.0.base_spec()
                == table_base && p.vmap.0.l2_entry(0) == table_entry(
                (table_base + PAGE_SIZE) as u64,
                PERM_USER_RW,
            ) && p.vmap.0.l2_entry(1) == table_entry((table_base + 2 * PAGE_SIZE) as u64, PERM_USER_RW)
                && p.vmap.0.table_for(0) == 0 && p.vmap.0.table_for(1) == 1 && (forall|i: int|
                2 <= i < TABLE_ENTRIES ==> #[trigger] p.vmap.0.l2_entry(i) == 0) && forall|i: int, j: int|
                0 <= i < 2 && 0 <= j < 8192 ==> #[trigger] p.vmap.0.l3_entry(i, j) == 0),
    {
        match stack {
            Some(x) => Ok(
                Process {
                    context: TrapFrame::new(),
                    stack: x,
                    state: State::Ready,
                    vmap: UserPageTable::new(table_base),
                },
            ),
            None => Err(OsError::NoMemory),
        }
    }

    /// Sets up the trap frame of a freshly loaded process: the stack pointer
    /// at the stack top, the return address at the image base, the kernel
    /// table (at `kernel_baddr`) in TTBR0 and the process's own table in
    /// TTBR1, and debug, SError and FIQ exceptions masked.
    pub fn set_initial_context(&mut self, kernel_baddr: u64)
        ensures
            final(self).context.sp == USER_STACK_BASE + PAGE_SIZE - 16,
            final(self).context.elr == USER_IMG_BASE,
            final(self).context.ttbr0 == kernel_baddr,
            final(self).context.ttbr1 == old(self).vmap.0.base_spec(),
            final(self).context.spsr == old(self).context.spsr | SPSR_D | SPSR_A | SPSR_F,
            final(self).context.tpidr == old(self).context.tpidr,
            final(self).context.x == old(self).context.x,
            final(self).stack == old(self).stack,
            final(self).vmap == old(self).vmap,
            final(self).state == old(self).state,
    {
        self.context.sp = get_stack_top();
        self.context.elr = get_image_base();
        self.context.ttbr0 = kernel_baddr;
        self.context.ttbr1 = self.vmap.0.get_baddr();
        self.context.spsr = self.context.spsr | SPSR_D | SPSR_A | SPSR_F;
    }

    /// Returns `true` if this process is ready to be scheduled.
    ///
    /// A ready process is, and is left unchanged. A waiting process has its
    /// event polled, its state being `Ready` while the event runs: the
    /// answer is the poll's; if the event has arrived the process is
    /// switched to `Ready`, otherwise it goes back to waiting on the same
    /// event. Any other process is not ready, and is left unchanged.
    pub fn is_ready(&mut self) -> (r: bool)
        ensures
            old(self).state is Ready ==> r && *final(self) == *old(self),
            old(self).state matches State::Waiting(e) ==> exists|e_after: E, p_after: Process<E>|
                #![trigger e.polls(with_state(*old(self), State::Ready), e_after, p_after, r)]
                {
                    &&& e.polls(with_state(*old(self), State::Ready), e_after, p_after, r)
                    &&& r ==> *final(self) == with_state(p_after, State::Ready)
                    &&& !r ==> *final(self) == with_state(p_after, State::Waiting(e_after))
                },
            !(old(self).state is Ready || old(self).state is Waiting) ==> !r && *final(self) == *old(
                self,
            ),
    {
        match &self.state {
            State::Ready => {
                return true;
            },
            State::Waiting(_) => {},
            _ => {
                return false;
            },
        }
        let mut st: State<E> = State::Ready;
        std::mem::swap(&mut st, &mut self.state);
        let ghost before = *self;
        match st {
            State::Waiting(mut event) => {
                let ghost e0 = event;
                let arrived = event.poll(self);
                let ghost p_after = *self;
                proof {
                    assert(before == with_state(*old(self), State::Ready));
                    assert(e0.polls(with_state(*old(self), State::Ready), event, p_after, arrived));
                }
                if arrived {
                    self.state = State::Ready;
                    true
                } else {
                    self.state = State::Waiting(event);
                    false
                }
            },
            _ => false,
        }
    }
}

} // verus!
