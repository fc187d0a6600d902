pub mod syndrome;
pub mod frame;
pub mod irq;
pub mod syscall;
