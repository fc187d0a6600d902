pub mod entry;
pub mod pagetable;
