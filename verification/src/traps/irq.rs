//! The interrupt handler table.
use vstd::prelude::*;
use crate::traps::frame::TrapFrame;

verus! {

/// The interrupts the kernel can handle.
#[derive(Debug, Copy, Clone, PartialEq, Eq, Structural)]
pub enum Interrupt {
    Timer1,
    Timer3,
    Usb,
    Gpio0,
    Gpio1,
    Gpio2,
    Gpio3,
    Uart,
}

/// Number of interrupts, and of slots in the handler table.
pub const INTERRUPT_MAX: usize = 8;

/// The slot of an interrupt in the handler table.
pub open spec fn index_of(intr: Interrupt) -> int {
    match intr {
        Interrupt::Timer1 => 0,
        Interrupt::Timer3 => 1,
        Interrupt::Usb => 2,
        Interrupt::Gpio0 => 3,
        Interrupt::Gpio1 => 4,
        Interrupt::Gpio2 => 5,
        Interrupt::Gpio3 => 6,
        Interrupt::Uart => 7,
    }
}

impl Interrupt {
    /// The slot of an interrupt in the handler table.
    pub fn to_index(i: Interrupt) -> (r: usize)
        ensures
            r == index_of(i),
            r < INTERRUPT_MAX,
    {
        match i {
            Interrupt::Timer1 => 0,
            Interrupt::Timer3 => 1,
            Interrupt::Usb => 2,
            Interrupt::Gpio0 => 3,
            Interrupt::Gpio1 => 4,
            Interrupt::Gpio2 => 5,
            Interrupt::Gpio3 => 6,
            Interrupt::Uart => 7,
        }
    }
}

/// A handler run when its interrupt fires.
pub trait IrqHandler: Sized {
    /// Whether one run of the handler, started as `self` on the frame `tf`,
    /// may end as `after` with the frame `tf_after`. An implementation says
    /// what its handler does here; the default says nothing of it.
    open spec fn handles(&self, tf: TrapFrame, after: Self, tf_after: TrapFrame) -> bool {
        true
    }

    /// Runs the handler on the trap frame `tf`.
    fn handle(&mut self, tf: &mut TrapFrame)
        ensures
            old(self).handles(*old(tf), *final(self), *final(tf)),
    ;
}

/// The interrupt handler table, absent until initialized.
pub struct Irq<H> {
    handlers: Option<Vec<Option<H>>>,
}

impl<H> Irq<H> {
    #[verifier::type_invariant]
    closed spec fn wf(&self) -> bool {
        self.handlers matches Some(v) ==> v@.len() == INTERRUPT_MAX
    }

    /// Whether `initialize` has run.
    pub closed spec fn is_initialized(&self) -> bool {
        self.handlers matches Some(v) && v@.len() == INTERRUPT_MAX
    }

    /// Whether a handler is registered for `intr`.
    pub closed spec fn is_registered(&self, intr: Interrupt) -> bool {
        self.handlers matches Some(v) && v@[index_of(intr)] is Some
    }

    /// The handler registered for `intr`.
    pub closed spec fn handler(&self, intr: Interrupt) -> H {
        self.handlers->Some_0@[index_of(intr)]->Some_0
    }

    /// Returns an uninitialized table.
    pub fn uninitialized() -> (r: Irq<H>)
        ensures
            !r.is_initialized(),
    {
        Irq { handlers: None }
    }

    /// Initializes the table with no handler registered.
    pub fn initialize(&mut self)
        ensures
            final(self).is_initialized(),
            forall|i: Interrupt| !final(self).is_registered(i),
    {
        let mut v: Vec<Option<H>> = Vec::new();
        let mut k: usize = 0;
        while k < INTERRUPT_MAX
            invariant
                k <= INTERRUPT_MAX,
                v@.len() == k,
                forall|j: int| 0 <= j < k ==> v@[j] is None,
            decreases INTERRUPT_MAX - k,
        {
            v.push(None);
            k = k + 1;
        }
        self.handlers = Some(v);
        assert forall|i: Interrupt| !self.is_registered(i) by {
            assert(0 <= index_of(i) < INTERRUPT_MAX);
        }
    }

    /// Returns `true` once `initialize` has run.
    pub fn has_table(&self) -> (r: bool)
        ensures
            r == self.is_initialized(),
    {
        proof {
            use_type_invariant(self);
        }
        self.handlers.is_some()
    }

    /// Returns `true` if the table is initialized and a handler is
    /// registered for `intr`.
    pub fn has_handler(&self, intr: Interrupt) -> (r: bool)
        ensures
            r == self.is_registered(intr),
    {
        proof {
            use_type_invariant(self);
        }
        match &self.handlers {
            Some(v) => v[Interrupt::to_index(intr)].is_some(),
            None => false,
        }
    }

    /// Registers `handler` for `intr`, replacing any earlier one.
    /// The table must have been initialized.
    pub fn register(&mut self, intr: Interrupt, handler: H)
        requires
            old(self).is_initialized(),
        ensures
            final(self).is_initialized(),
            final(self).is_registered(intr),
            final(self).handler(intr) == handler,
            forall|i: Interrupt|
                i != intr ==> final(self).is_registered(i) == old(self).is_registered(i) && (
                old(self).is_registered(i) ==> final(self).handler(i) == old(self).handler(i)),
    {
        proof {
            use_type_invariant(&*self);
        }
        let idx = Interrupt::to_index(intr);
        let mut table: Option<Vec<Option<H>>> = None;
        std::mem::swap(&mut table, &mut self.handlers);
        match &mut table {
            Some(v) => {
                v.set(idx, Some(handler));
            },
            None => {},
        }
        self.handlers = table;
        assert forall|i: Interrupt| i != intr implies final(self).is_registered(i) == old(
            self,
        ).is_registered(i) by {
            assert(index_of(i) != index_of(intr));
        }
    }

}

impl<H: IrqHandler> Irq<H> {
    /// Runs the handler registered for `intr` on `tf`. Nothing happens while
    /// the table is uninitialized; once initialized, a handler must be
    /// registered for `intr`.
    pub fn invoke(&mut self, intr: Interrupt, tf: &mut TrapFrame)
        requires
            old(self).is_initialized() ==> old(self).is_registered(intr),
        ensures
            final(self).is_initialized() == old(self).is_initialized(),
            forall|i: Interrupt| final(self).is_registered(i) == old(self).is_registered(i),
            forall|i: Interrupt|
                i != intr && old(self).is_registered(i) ==> final(self).handler(i) == old(
                    self,
                ).handler(i),
            !old(self).is_initialized() ==> *final(tf) == *old(tf),
            old(self).is_initialized() ==> old(self).handler(intr).handles(
                *old(tf),
                final(self).handler(intr),
                *final(tf),
            ),
    {
        proof {
            use_type_invariant(&*self);
        }
        let mut table: Option<Vec<Option<H>>> = None;
        std::mem::swap(&mut table, &mut self.handlers);
        match &mut table {
            Some(v) => {
                let idx = Interrupt::to_index(intr);
                let slot = &mut v[idx];
                match slot {
                    Some(h) => h.handle(tf),
                    None => {},
                }
            },
            None => {},
        }
        self.handlers = table;
        assert forall|i: Interrupt| i != intr implies final(self).is_registered(i) == old(
            self,
        ).is_registered(i) by {
            assert(index_of(i) != index_of(intr));
        }
    }
}

} // verus!
