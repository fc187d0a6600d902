//! Cluster numbers and FAT entries.
use vstd::prelude::*;

verus! {

/// A cluster number as stored in a FAT entry or a directory entry.
#[derive(Debug, Copy, Clone, PartialEq, Eq, Structural)]
pub struct Cluster(u32);

impl Cluster {
    /// The raw cluster number.
    pub closed spec fn value_spec(self) -> u32 {
        self.0
    }

    /// Wraps a raw cluster number.
    pub fn from(value: u32) -> (c: Cluster)
        ensures
            c.value_spec() == value,
    {
        Cluster(value)
    }

    /// The raw cluster number.
    pub fn get_cluster_value(&self) -> (v: u32)
        ensures
            v == self.value_spec(),
    {
        self.0
    }
}

/// The status of a FAT entry.
#[derive(Debug, Copy, Clone, PartialEq, Eq, Structural)]
pub enum Status {
    /// The FAT entry corresponds to an unused (free) cluster.
    Free,
    /// The FAT entry/cluster is reserved.
    Reserved,
    /// The FAT entry corresponds to a valid data cluster. The next cluster in
    /// the chain is `Cluster`.
    Data(Cluster),
    /// The FAT entry corresponds to a bad (disk failed) cluster.
    Bad,
    /// The FAT entry corresponds to a valid data cluster. The corresponding
    /// cluster is the last in its chain.
    Eoc(u32),
}

/// A raw 32-bit FAT entry.
#[derive(Debug, Copy, Clone, PartialEq, Eq, Structural)]
pub struct FatEntry(pub u32);

/// The low 28 bits of a FAT entry; the top four bits are reserved.
pub open spec fn entry_bits(raw: u32) -> int {
    raw as int % 0x1000_0000
}

/// The status a raw FAT entry denotes. Classification goes by the low 28
/// bits; the reserved and end-of-chain ranges additionally require the raw
/// value itself to lie in them, and a `Data` or `Eoc` status carries the raw
/// value unmasked.
pub open spec fn status_of(raw: u32) -> Status {
    let v = entry_bits(raw);
    if v == 0 {
        Status::Free
    } else if v == 1 {
        Status::Reserved
    } else if 2 <= v <= 0x0FFF_FFEF {
        Status::Data(Cluster::from_spec_value(raw))
    } else if v >= 0x0FFF_FFF0 && raw <= 0x0FFF_FFF6 {
        Status::Reserved
    } else if v == 0x0FFF_FFF7 {
        Status::Bad
    } else if v >= 0x0FFF_FFF8 && raw <= 0x0FFF_FFFF {
        Status::Eoc(raw)
    } else {
        Status::Bad
    }
}

impl Cluster {
    /// The cluster with the given raw number.
    pub closed spec fn from_spec_value(value: u32) -> Cluster {
        Cluster(value)
    }

    pub proof fn lemma_from_spec_value(value: u32)
        ensures
            Self::from_spec_value(value).value_spec() == value,
    {
    }
}

impl FatEntry {
    /// Returns the `Status` of the FAT entry `self`.
    pub fn status(&self) -> (s: Status)
        ensures
            s == status_of(self.0),
    {
        let num: u32 = self.0;
        let num2: u32 = num & 0x0FFF_FFFF;
        assert(num2 == num as int % 0x1000_0000) by (bit_vector)
            requires
                num2 == num & 0x0FFF_FFFFu32,
        ;
        if num2 == 0 {
            Status::Free
        } else if num2 == 1 {
            Status::Reserved
        } else if num2 >= 2 && num2 <= 0x0FFF_FFEF {
            Status::Data(Cluster(num))
        } else if num2 >= 0x0FFF_FFF0 && num <= 0x0FFF_FFF6 {
            Status::Reserved
        } else if num2 == 0x0FFF_FFF7 {
            Status::Bad
        } else if num2 >= 0x0FFF_FFF8 && num <= 0x0FFF_FFFF {
            Status::Eoc(num)
        } else {
            Status::Bad
        }
    }
}

/// For entries whose reserved top bits are clear, the status follows the
/// FAT32 ranges exactly: 0 free, 1 and 0x0FFFFFF0..=0x0FFFFFF6 reserved,
/// 2..=0x0FFFFFEF data pointing at that cluster, 0x0FFFFFF7 bad, and
/// 0x0FFFFFF8..=0x0FFFFFFF end of chain.
pub proof fn law_status_ranges(raw: u32)
    requires
        raw < 0x1000_0000,
    ensures
        (status_of(raw) == Status::Free) <==> raw == 0,
        (status_of(raw) == Status::Reserved) <==> (raw == 1 || 0x0FFF_FFF0 <= raw <= 0x0FFF_FFF6),
        (status_of(raw) is Data) <==> 2 <= raw <= 0x0FFF_FFEF,
        (status_of(raw) is Data) ==> status_of(raw)->Data_0.value_spec() == raw,
        (status_of(raw) == Status::Bad) <==> raw == 0x0FFF_FFF7,
        (status_of(raw) is Eoc) <==> 0x0FFF_FFF8 <= raw,
{
    Cluster::lemma_from_spec_value(raw);
}

} // verus!
