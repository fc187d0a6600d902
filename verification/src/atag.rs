//! ARM boot tags (ATAGs) passed by the firmware.
use vstd::prelude::*;
use crate::fat32::ebpb::{le32, read_le32};

verus! {

/// Tag values.
pub const ATAG_NONE: u32 = 0x0000_0000;
pub const ATAG_CORE: u32 = 0x5441_0001;
pub const ATAG_MEM: u32 = 0x5441_0002;
pub const ATAG_CMDLINE: u32 = 0x5441_0009;

/// Offset of a tag's payload, after its size and tag words.
pub const ATAG_HEADER: usize = 8;

/// The payload of a `CORE` tag.
#[derive(Debug, Copy, Clone, PartialEq, Eq, Structural)]
pub struct Core {
    pub flags: u32,
    pub page_size: u32,
    pub root_dev: u32,
}

/// The payload of a `MEM` tag: a region of physical memory.
#[derive(Debug, Copy, Clone, PartialEq, Eq, Structural)]
pub struct Mem {
    pub size: u32,
    pub start: u32,
}

/// An ATAG.
#[derive(Debug)]
pub enum Atag {
    Core(Core),
    Mem(Mem),
    /// The kernel command line, without its terminating zero byte.
    Cmd(Vec<u8>),
    Unknown(u32),
    /// The `NONE` tag that ends the list.
    End,
}

impl Atag {
    /// Returns `Some` if this is a `Core` ATAG. Otherwise returns `None`.
    pub fn get_core(self) -> (r: Option<Core>)
        ensures
            self matches Atag::Core(c) ==> r == Some(c),
            !(self is Core) ==> r is None,
    {
        match self {
            Atag::Core(core) => Some(core),
            _ => None,
        }
    }

    /// Returns `Some` if this is a `Mem` ATAG. Otherwise returns `None`.
    pub fn mem(self) -> (r: Option<Mem>)
        ensures
            self matches Atag::Mem(m) ==> r == Some(m),
            !(self is Mem) ==> r is None,
    {
        match self {
            Atag::Mem(mem) => Some(mem),
            _ => None,
        }
    }

    /// Returns `Some` with the command line if this is a `Cmd` ATAG.
    /// Otherwise returns `None`.
    pub fn cmd(self) -> (r: Option<Vec<u8>>)
        ensures
            self matches Atag::Cmd(c) ==> (r matches Some(v) && v@ == c@),
            !(self is Cmd) ==> r is None,
    {
        match self {
            Atag::Cmd(value) => Some(value),
            _ => None,
        }
    }

    /// Decodes the tag whose bytes begin `raw`: little-endian size and tag
    /// words, then the payload. A command line runs up to its first zero byte.
    pub fn from_raw(raw: &[u8]) -> (a: Atag)
        requires
            raw@.len() >= ATAG_HEADER,
            le32(raw@, 4) == ATAG_CORE ==> raw@.len() >= ATAG_HEADER + 12,
            le32(raw@, 4) == ATAG_MEM ==> raw@.len() >= ATAG_HEADER + 8,
            le32(raw@, 4) == ATAG_CMDLINE ==> exists|i: int|
                ATAG_HEADER <= i < raw@.len() && #[trigger] raw@[i] == 0,
        ensures
            ({
                let tag = le32(raw@, 4);
                &&& tag == ATAG_CORE ==> (a matches Atag::Core(c) && c.flags == le32(raw@, 8)
                    && c.page_size == le32(raw@, 12) && c.root_dev == le32(raw@, 16))
                &&& tag == ATAG_MEM ==> (a matches Atag::Mem(m) && m.size == le32(raw@, 8)
                    && m.start == le32(raw@, 12))
                &&& tag == ATAG_CMDLINE ==> (a matches Atag::Cmd(c) && c@.len() + ATAG_HEADER
                    < raw@.len() && c@ == raw@.subrange(
                    ATAG_HEADER as int,
                    ATAG_HEADER + c@.len(),
                ) && raw@[ATAG_HEADER + c@.len()] == 0 && (forall|j: int|
                    0 <= j < c@.len() ==> #[trigger] c@[j] != 0))
                &&& tag == ATAG_NONE ==> a is End
                &&& tag != ATAG_CORE && tag != ATAG_MEM && tag != ATAG_CMDLINE && tag != ATAG_NONE
                    ==> a == Atag::Unknown(tag as u32)
            }),
    {
        let tag = read_le32(raw, 4);
        if tag == ATAG_CORE {
            Atag::Core(
                Core {
                    flags: read_le32(raw, 8),
                    page_size: read_le32(raw, 12),
                    root_dev: read_le32(raw, 16),
                },
            )
        } else if tag == ATAG_MEM {
            Atag::Mem(Mem { size: read_le32(raw, 8), start: read_le32(raw, 12) })
        } else if tag == ATAG_CMDLINE {
            let mut cmd: Vec<u8> = Vec::new();
            let mut i: usize = ATAG_HEADER;
            while raw[i] != 0
                invariant
                    ATAG_HEADER <= i < raw@.len(),
                    exists|k: int| i <= k < raw@.len() && #[trigger] raw@[k] == 0,
                    cmd@ == raw@.subrange(ATAG_HEADER as int, i as int),
                    forall|j: int| 0 <= j < cmd@.len() ==> #[trigger] cmd@[j] != 0,
                decreases raw@.len() - i,
            {
                cmd.push(raw[i]);
                i = i + 1;
                assert(cmd@ =~= raw@.subrange(ATAG_HEADER as int, i as int));
            }
            Atag::Cmd(cmd)
        } else if tag == ATAG_NONE {
            Atag::End
        } else {
            Atag::Unknown(tag)
        }
    }
}

} // verus!
