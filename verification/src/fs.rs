//! The kernel's file system slot: empty until a volume is mounted.
use vstd::prelude::*;
use crate::fat32::vfat::VFat;

verus! {

/// Something that gives access to a mounted volume.
pub trait VFatHandle: Sized {
    fn new(val: VFat) -> Self;
}

/// The handle the kernel keeps for its mounted volume.
pub struct PiVFatHandle(pub VFat);

impl VFatHandle for PiVFatHandle {
    fn new(val: VFat) -> (h: PiVFatHandle)
        ensures
            h.0 == val,
    {
        PiVFatHandle(val)
    }
}

/// The kernel's file system: no volume until one is installed.
pub struct FileSystem(pub Option<PiVFatHandle>);

impl FileSystem {
    /// Returns an uninitialized `FileSystem`.
    pub fn uninitialized() -> (fs: FileSystem)
        ensures
            fs.0 is None,
    {
        FileSystem(None)
    }

    /// Installs the mounted volume `vfat`.
    pub fn install(&mut self, vfat: VFat)
        ensures
            final(self).0 matches Some(h) && h.0 == vfat,
    {
        self.0 = Some(PiVFatHandle(vfat));
    }

    /// The mounted volume, if any.
    pub fn volume(&self) -> (r: Option<&VFat>)
        ensures
            self.0 is None ==> r is None,
            self.0 matches Some(h) ==> (r matches Some(v) && *v == h.0),
    {
        match &self.0 {
            Some(h) => Some(&h.0),
            None => None,
        }
    }
}

} // verus!
