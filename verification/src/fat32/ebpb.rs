//! The FAT32 extended BIOS parameter block.
use vstd::prelude::*;
use crate::fat32::error::{Error, IoErrorKind};

verus! {

/// Size of the parameter block, one 512-byte sector.
pub const EBPB_SIZE: usize = 512;

/// The little-endian 16-bit value at `off`.
pub open spec fn le16(b: Seq<u8>, off: int) -> int {
    b[off] + 256 * b[off + 1]
}

/// The little-endian 32-bit value at `off`.
pub open spec fn le32(b: Seq<u8>, off: int) -> int {
    le16(b, off) + 65536 * le16(b, off + 2)
}

/// Reads the little-endian `u16` at `off`.
pub fn read_le16(b: &[u8], off: usize) -> (r: u16)
    requires
        off + 2 <= b@.len(),
    ensures
        r == le16(b@, off as int),
{
    b[off] as u16 + (b[off + 1] as u16) * 256
}

/// Reads the little-endian `u32` at `off`.
pub fn read_le32(b: &[u8], off: usize) -> (r: u32)
    requires
        off + 4 <= b@.len(),
    ensures
        r == le32(b@, off as int),
{
    let _n = b.len();
    read_le16(b, off) as u32 + (read_le16(b, off + 2) as u32) * 65536
}

/// The FAT32 extended BIOS parameter block: one 512-byte sector, read at
/// the fixed offsets of the on-disk layout.
pub struct BiosParameterBlock {
    raw: Vec<u8>,
}

impl BiosParameterBlock {
    #[verifier::type_invariant]
    spec fn inv(self) -> bool {
        self.raw@.len() == EBPB_SIZE
    }

    /// The sector's bytes.
    pub closed spec fn sector(self) -> Seq<u8> {
        self.raw@
    }

    /// Bytes per logical sector (offset 11).
    pub fn get_bytes_per_sector(&self) -> (r: u16)
        ensures
            r == le16(self.sector(), 11),
    {
        proof {
            use_type_invariant(self);
        }
        read_le16(self.raw.as_slice(), 11)
    }

    /// Sectors per cluster (offset 13).
    pub fn get_sector_per_cluster(&self) -> (r: u8)
        ensures
            r == self.sector()[13],
    {
        proof {
            use_type_invariant(self);
        }
        self.raw[13]
    }

    /// Number of reserved sectors before the first FAT (offset 14).
    pub fn get_reserved_sector(&self) -> (r: u16)
        ensures
            r == le16(self.sector(), 14),
    {
        proof {
            use_type_invariant(self);
        }
        read_le16(self.raw.as_slice(), 14)
    }

    /// Sectors per FAT (offset 36).
    pub fn get_sector_per_fat(&self) -> (r: u32)
        ensures
            r == le32(self.sector(), 36),
    {
        proof {
            use_type_invariant(self);
        }
        read_le32(self.raw.as_slice(), 36)
    }

    /// Cluster number of the root directory (offset 44).
    pub fn get_root_cluster(&self) -> (r: u32)
        ensures
            r == le32(self.sector(), 44),
    {
        proof {
            use_type_invariant(self);
        }
        read_le32(self.raw.as_slice(), 44)
    }

    /// Number of FATs (offset 16).
    #[allow(non_snake_case)]
    pub fn get_number_FAT(&self) -> (r: u8)
        ensures
            r == self.sector()[16],
    {
        proof {
            use_type_invariant(self);
        }
        self.raw[16]
    }

    /// The 32-bit total logical sector count (offset 32).
    pub fn get_total_sector(&self) -> (r: u32)
        ensures
            r == le32(self.sector(), 32),
    {
        proof {
            use_type_invariant(self);
        }
        read_le32(self.raw.as_slice(), 32)
    }

    /// The 16-bit total logical sector count (offset 19).
    pub fn logical_sector(&self) -> (r: u16)
        ensures
            r == le16(self.sector(), 19),
    {
        proof {
            use_type_invariant(self);
        }
        read_le16(self.raw.as_slice(), 19)
    }

    /// The partition signature (offset 510), `0xAA55` on a valid block.
    pub fn get_partition_signature(&self) -> (r: u16)
        ensures
            r == le16(self.sector(), 510),
    {
        proof {
            use_type_invariant(self);
        }
        read_le16(self.raw.as_slice(), 510)
    }

    /// Decodes the parameter block from the bytes read from its sector.
    ///
    /// # Errors
    ///
    /// Fewer or more than 512 bytes give `Io(UnexpectedEof)`; a block whose
    /// signature is not `0xAA55` gives `BadSignature`.
    pub fn from_bytes(bytes: &[u8]) -> (r: Result<BiosParameterBlock, Error>)
        ensures
            bytes@.len() != EBPB_SIZE ==> r == Err::<BiosParameterBlock, Error>(
                Error::Io(IoErrorKind::UnexpectedEof),
            ),
            bytes@.len() == EBPB_SIZE && le16(bytes@, 510) != 0xAA55 ==> r == Err::<
                BiosParameterBlock,
                Error,
            >(Error::BadSignature),
            bytes@.len() == EBPB_SIZE && le16(bytes@, 510) == 0xAA55 ==> (r matches Ok(b)
                && b.sector() == bytes@),
    {
        if bytes.len() != EBPB_SIZE {
            return Err(Error::Io(IoErrorKind::UnexpectedEof));
        }
        if read_le16(bytes, 510) != 0xAA55 {
            return Err(Error::BadSignature);
        }
        let mut raw: Vec<u8> = Vec::new();
        let mut i: usize = 0;
        while i < bytes.len()
            invariant
                i <= bytes@.len(),
                raw@ == bytes@.subrange(0, i as int),
            decreases bytes@.len() - i,
        {
            raw.push(bytes[i]);
            i = i + 1;
        }
        assert(raw@ == bytes@);
        Ok(BiosParameterBlock { raw })
    }
}

} // verus!
