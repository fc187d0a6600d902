//! Volume geometry of a FAT32 partition and the arithmetic of reading
//! clusters and following cluster chains.
use vstd::prelude::*;
use crate::fat32::ebpb::{BiosParameterBlock, le16, le32, read_le16, read_le32};
use crate::fat32::error::{Error, IoErrorKind};
use crate::fat32::fat::{Cluster, FatEntry, Status, status_of};
use crate::fat32::entry::Dir;
use crate::fat32::metadata::{Metadata, ATTR_SYSTEM};
use crate::shell::{components, path_components, DOT, SLASH};

verus! {

/// Offset of the first partition entry in a master boot record.
pub const MBR_FIRST_PARTITION: usize = 446;

/// A partition of a block device, in sectors.
#[derive(Debug, Copy, Clone, PartialEq, Eq, Structural)]
pub struct Partition {
    /// First sector of the partition.
    pub start: u64,
    /// Number of sectors in the partition.
    pub num_sectors: u64,
    /// Size of a logical sector in bytes.
    pub sector_size: u64,
}

impl Partition {
    /// The device sectors holding logical sector `sector` of the partition,
    /// for a device of `device_sector_size`-byte sectors: the first one and
    /// how many (at least one).
    pub fn device_sectors(&self, sector: u64, device_sector_size: u64) -> (r: (u64, u64))
        requires
            device_sector_size > 0,
            self.start + (sector + 1) * (if self.sector_size / device_sector_size > 1 {
                self.sector_size / device_sector_size
            } else {
                1
            }) <= u64::MAX,
        ensures
            r.1 == (if self.sector_size / device_sector_size > 1 {
                self.sector_size / device_sector_size
            } else {
                1
            }),
            r.0 == self.start + sector * r.1,
    {
        let q = self.sector_size / device_sector_size;
        let factor = if q > 1 {
            q
        } else {
            1
        };
        assert(sector * factor <= (sector + 1) * factor) by (nonlinear_arith)
            requires
                factor >= 1,
        ;
        (self.start + sector * factor, factor)
    }
}

/// The first partition entry of a master boot record: its type byte and its
/// first sector.
#[derive(Debug, Copy, Clone, PartialEq, Eq, Structural)]
pub struct PartitionEntry {
    pub partition_type: u8,
    pub relative_sector: u32,
}

impl PartitionEntry {
    /// Whether the partition type is FAT32 (CHS `0x0B` or LBA `0x0C`).
    pub fn is_fat32(&self) -> (r: bool)
        ensures
            r == (self.partition_type == 0x0B || self.partition_type == 0x0C),
    {
        self.partition_type == 0x0B || self.partition_type == 0x0C
    }
}

/// Decodes the first partition entry of a master boot record sector.
///
/// # Errors
///
/// A sector of other than 512 bytes gives `Io(UnexpectedEof)`; one without
/// the `0xAA55` signature gives `BadSignature`.
pub fn first_partition(mbr: &[u8]) -> (r: Result<PartitionEntry, Error>)
    ensures
        mbr@.len() != 512 ==> r == Err::<PartitionEntry, Error>(Error::Io(IoErrorKind::UnexpectedEof)),
        mbr@.len() == 512 && le16(mbr@, 510) != 0xAA55 ==> r == Err::<PartitionEntry, Error>(
            Error::BadSignature,
        ),
        mbr@.len() == 512 && le16(mbr@, 510) == 0xAA55 ==> r == Ok::<PartitionEntry, Error>(
            PartitionEntry {
                partition_type: mbr@[450],
                relative_sector: le32(mbr@, 454) as u32,
            },
        ),
{
    if mbr.len() != 512 {
        return Err(Error::Io(IoErrorKind::UnexpectedEof));
    }
    if read_le16(mbr, 510) != 0xAA55 {
        return Err(Error::BadSignature);
    }
    Ok(
        PartitionEntry {
            partition_type: mbr[MBR_FIRST_PARTITION + 4],
            relative_sector: read_le32(mbr, MBR_FIRST_PARTITION + 8),
        },
    )
}

/// The geometry of a mounted FAT32 volume.
pub struct VFat {
    pub partition: Partition,
    pub bytes_per_sector: u16,
    pub sectors_per_cluster: u8,
    pub sectors_per_fat: u32,
    /// First sector of the first FAT, relative to the partition.
    pub fat_start_sector: u64,
    /// First sector of the data region, relative to the partition.
    pub data_start_sector: u64,
    pub rootdir_cluster: Cluster,
}

/// The number of sectors of a partition as its parameter block gives it: the
/// 32-bit count, unless that is at most 65535 and the 16-bit count is
/// nonzero, in which case the 16-bit count.
pub open spec fn partition_sectors(total32: int, total16: int) -> int {
    if total32 <= 65535 && total16 != 0 {
        total16
    } else {
        total32
    }
}

impl VFat {
    /// Bytes in one cluster.
    pub open spec fn cluster_bytes(self) -> int {
        self.sectors_per_cluster * self.bytes_per_sector
    }

    /// The volume described by the parameter block `ebpb` of the partition
    /// starting at sector `partition_start`.
    pub fn from_ebpb(ebpb: &BiosParameterBlock, partition_start: u64) -> (v: VFat)
        ensures
            v.bytes_per_sector == le16(ebpb.sector(), 11),
            v.sectors_per_cluster == ebpb.sector()[13],
            v.sectors_per_fat == le32(ebpb.sector(), 36),
            v.fat_start_sector == le16(ebpb.sector(), 14),
            v.data_start_sector == ebpb.sector()[16] * le32(ebpb.sector(), 36) + le16(
                ebpb.sector(),
                14,
            ),
            v.rootdir_cluster.value_spec() == le32(ebpb.sector(), 44),
            v.partition.start == partition_start,
            v.partition.num_sectors == partition_sectors(
                le32(ebpb.sector(), 32),
                le16(ebpb.sector(), 19),
            ),
            v.partition.sector_size == le16(ebpb.sector(), 11),
    {
        let bytes_per_sector = ebpb.get_bytes_per_sector();
        let rootdir = ebpb.get_root_cluster();
        let sect_per_fat = ebpb.get_sector_per_fat();
        let sect_per_cluster = ebpb.get_sector_per_cluster();
        let fat_start = ebpb.get_reserved_sector() as u64;
        let nfat = ebpb.get_number_FAT() as u64;
        assert(nfat * (sect_per_fat as u64) <= 255 * 0xFFFF_FFFF) by (nonlinear_arith)
            requires
                nfat <= 255,
                sect_per_fat <= 0xFFFF_FFFF,
        ;
        let data_start = nfat * sect_per_fat as u64 + fat_start;
        let mut num12 = ebpb.get_total_sector() as u64;
        if num12 <= 65535 {
            num12 = ebpb.logical_sector() as u64;
            if num12 == 0 {
                num12 = ebpb.get_total_sector() as u64;
            }
        }
        VFat {
            partition: Partition {
                start: partition_start,
                num_sectors: num12,
                sector_size: bytes_per_sector as u64,
            },
            bytes_per_sector,
            sectors_per_cluster: sect_per_cluster,
            sectors_per_fat: sect_per_fat,
            fat_start_sector: fat_start,
            data_start_sector: data_start,
            rootdir_cluster: Cluster::from(rootdir),
        }
    }

    /// The sector holding the FAT entry of cluster `num`, and the entry's byte
    /// offset within that sector.
    pub fn map_cluster_entry(&self, num: u32) -> (r: (u64, u64))
        requires
            self.bytes_per_sector > 0,
            self.fat_start_sector + (num * 4) / (self.bytes_per_sector as int) <= u64::MAX,
        ensures
            r.0 == self.fat_start_sector + (num * 4) / (self.bytes_per_sector as int),
            r.1 == (num * 4) % (self.bytes_per_sector as int),
            r.1 < self.bytes_per_sector,
    {
        let bps = self.bytes_per_sector as u64;
        let byte = num as u64 * 4;
        assert(byte / bps <= byte) by {
            vstd::arithmetic::div_mod::lemma_div_is_ordered_by_denominator(byte as int, 1, bps as int);
        }
        let fatsecnum = self.fat_start_sector + byte / bps;
        let fatentryoffset = byte % bps;
        (fatsecnum, fatentryoffset)
    }

    /// The number of bytes a read of `buf_len` bytes at `offset` within a
    /// cluster delivers.
    pub open spec fn cluster_read_len(self, offset: int, buf_len: int) -> int {
        if buf_len < self.cluster_bytes() - offset {
            buf_len
        } else {
            self.cluster_bytes() - offset
        }
    }

    /// The first sector of `cluster`, relative to the partition.
    pub open spec fn cluster_start_spec(self, cluster: Cluster) -> int {
        self.data_start_sector + (cluster.value_spec() - 2) * self.sectors_per_cluster
    }

    /// The first sector of a data cluster, relative to the partition.
    ///
    /// # Errors
    ///
    /// Clusters 0 and 1 hold no data: `Io(InvalidInput)`.
    pub fn cluster_start(&self, cluster: Cluster) -> (r: Result<u64, Error>)
        requires
            cluster.value_spec() >= 2 ==> self.cluster_start_spec(cluster) <= u64::MAX,
        ensures
            cluster.value_spec() < 2 ==> r == Err::<u64, Error>(Error::Io(IoErrorKind::InvalidInput)),
            cluster.value_spec() >= 2 ==> r == Ok::<u64, Error>(
                self.cluster_start_spec(cluster) as u64,
            ),
    {
        let c = cluster.get_cluster_value();
        if c < 2 {
            return Err(Error::Io(IoErrorKind::InvalidInput));
        }
        let spc = self.sectors_per_cluster as u64;
        let d = (c - 2) as u64;
        assert(d * spc <= 0xFFFF_FFFF * 255) by (nonlinear_arith)
            requires
                d <= 0xFFFF_FFFF,
                spc <= 255,
        ;
        Ok(self.data_start_sector + d * spc)
    }

    /// Bytes in one cluster.
    pub fn cluster_size(&self) -> (r: usize)
        ensures
            r == self.cluster_bytes(),
    {
        assert(self.sectors_per_cluster * self.bytes_per_sector <= 255 * 65535) by (nonlinear_arith)
            requires
                self.sectors_per_cluster <= 255,
                self.bytes_per_sector <= 65535,
        ;
        self.sectors_per_cluster as usize * self.bytes_per_sector as usize
    }

    /// Which sectors of a cluster a read of `buf_len` bytes at `offset`
    /// touches: the index of the first one within the cluster and how many.
    pub fn cluster_read_sectors(&self, offset: usize, buf_len: usize) -> (r: (usize, usize))
        requires
            self.bytes_per_sector > 0,
            offset <= self.cluster_bytes(),
        ensures
            r.0 == (offset as int) / (self.bytes_per_sector as int),
            self.cluster_read_len(offset as int, buf_len as int) == 0 ==> r.1 == 0,
            self.cluster_read_len(offset as int, buf_len as int) > 0 ==> r.1 == (offset
                + self.cluster_read_len(offset as int, buf_len as int) - 1) / (
            self.bytes_per_sector as int) - r.0 + 1,
    {
        let cs = self.cluster_size();
        let bps = self.bytes_per_sector as usize;
        let left = cs - offset;
        let need = if buf_len < left {
            buf_len
        } else {
            left
        };
        let first = offset / bps;
        if need == 0 {
            (first, 0)
        } else {
            proof {
                vstd::arithmetic::div_mod::lemma_div_is_ordered(
                    offset as int,
                    (offset + need - 1) as int,
                    bps as int,
                );
            }
            let last = (offset + need - 1) / bps;
            (first, last - first + 1)
        }
    }

    /// Reads from `cluster`, starting `offset` bytes into it, into `buf`.
    /// `sectors` holds the contents of the cluster's sectors that
    /// `cluster_read_sectors` names, in order. Returns the number of bytes
    /// copied: the smaller of the buffer's length and what is left of the
    /// cluster after `offset`.
    ///
    /// # Errors
    ///
    /// Clusters 0 and 1 hold no data: `Io(InvalidInput)`, `buf` untouched.
    pub fn read_cluster(
        &self,
        cluster: Cluster,
        offset: usize,
        buf: &mut [u8],
        sectors: &[Vec<u8>],
    ) -> (r: Result<usize, Error>)
        requires
            cluster.value_spec() >= 2 ==> self.bytes_per_sector > 0,
            cluster.value_spec() >= 2 ==> offset <= self.cluster_bytes(),
            cluster.value_spec() >= 2 && self.cluster_read_len(offset as int, old(buf)@.len() as int)
                > 0 ==> sectors@.len() == (offset + self.cluster_read_len(
                offset as int,
                old(buf)@.len() as int,
            ) - 1) / (self.bytes_per_sector as int) - (offset as int) / (
            self.bytes_per_sector as int) + 1,
            cluster.value_spec() >= 2 ==> forall|i: int|
                0 <= i < sectors@.len() ==> (#[trigger] sectors@[i])@.len() == self.bytes_per_sector,
        ensures
            final(buf)@.len() == old(buf)@.len(),
            cluster.value_spec() < 2 ==> r == Err::<usize, Error>(Error::Io(IoErrorKind::InvalidInput))
                && final(buf)@ == old(buf)@,
            cluster.value_spec() >= 2 ==> r == Ok::<usize, Error>(
                self.cluster_read_len(offset as int, old(buf)@.len() as int) as usize,
            ),
            cluster.value_spec() >= 2 ==> forall|j: int|
                0 <= j < self.cluster_read_len(offset as int, old(buf)@.len() as int)
                    ==> #[trigger] final(buf)@[j] == sectors@[(offset + j) / (
                self.bytes_per_sector as int) - (offset as int) / (self.bytes_per_sector as int)]@[(offset
                    + j) % (self.bytes_per_sector as int)],
            cluster.value_spec() >= 2 ==> forall|j: int|
                self.cluster_read_len(offset as int, old(buf)@.len() as int) <= j < old(
                    buf,
                )@.len() ==> #[trigger] final(buf)@[j] == old(buf)@[j],
    {
        if cluster.get_cluster_value() < 2 {
            return Err(Error::Io(IoErrorKind::InvalidInput));
        }
        let cs = self.cluster_size();
        let bps = self.bytes_per_sector as usize;
        let left = cs - offset;
        let need = if buf.len() < left {
            buf.len()
        } else {
            left
        };
        let first = offset / bps;
        let mut j: usize = 0;
        while j < need
            invariant
                j <= need,
                need <= buf@.len(),
                buf@.len() == old(buf)@.len(),
                need == self.cluster_read_len(offset as int, old(buf)@.len() as int),
                bps == self.bytes_per_sector,
                bps > 0,
                first == (offset as int) / (bps as int),
                offset + need <= cs,
                cs == self.cluster_bytes(),
                need > 0 ==> sectors@.len() == (offset + need - 1) / (bps as int) - first + 1,
                forall|i: int| 0 <= i < sectors@.len() ==> (#[trigger] sectors@[i])@.len() == bps,
                forall|k: int|
                    0 <= k < j ==> #[trigger] buf@[k] == sectors@[(offset + k) / (bps as int)
                        - first]@[(offset + k) % (bps as int)],
                forall|k: int| need <= k < buf@.len() ==> #[trigger] buf@[k] == old(buf)@[k],
            decreases need - j,
        {
            let pos = offset + j;
            proof {
                vstd::arithmetic::div_mod::lemma_div_is_ordered(offset as int, pos as int, bps as int);
                vstd::arithmetic::div_mod::lemma_div_is_ordered(
                    pos as int,
                    (offset + need - 1) as int,
                    bps as int,
                );
                vstd::arithmetic::div_mod::lemma_mod_bound(pos as int, bps as int);
            }
            let s = pos / bps - first;
            let b = pos % bps;
            buf[j] = sectors[s][b];
            j = j + 1;
        }
        Ok(need)
    }

    /// The FAT entry stored at byte `offset` of a FAT sector.
    pub fn fat_entry_at(sector: &[u8], offset: usize) -> (e: FatEntry)
        requires
            offset + 4 <= sector@.len(),
        ensures
            e.0 == le32(sector@, offset as int),
    {
        FatEntry(read_le32(sector, offset))
    }

    /// One step along a cluster chain, given the status of the current
    /// cluster's FAT entry: the next cluster, `None` at the end of the chain.
    ///
    /// # Errors
    ///
    /// A free, reserved or bad entry inside a chain gives `Io(InvalidInput)`.
    pub fn chain_next(status: Status) -> (r: Result<Option<Cluster>, Error>)
        ensures
            status matches Status::Data(c) ==> r == Ok::<Option<Cluster>, Error>(Some(c)),
            status is Eoc ==> r == Ok::<Option<Cluster>, Error>(None),
            !(status is Data || status is Eoc) ==> r == Err::<Option<Cluster>, Error>(
                Error::Io(IoErrorKind::InvalidInput),
            ),
    {
        match status {
            Status::Data(x) => Ok(Some(x)),
            Status::Eoc(_) => Ok(None),
            _ => Err(Error::Io(IoErrorKind::InvalidInput)),
        }
    }
}


/// The next step of reading a cluster chain.
#[derive(Debug, Copy, Clone, PartialEq, Eq, Structural)]
pub enum ChainAction {
    /// Grow the buffer to `buf_len` bytes and read all of `cluster` into it
    /// at the bytes read so far, then report with `chain_after_cluster`.
    ReadCluster { cluster: Cluster, buf_len: usize },
    /// Read the FAT entry at byte `offset` of partition sector `sector`, then
    /// report it with `chain_after_entry`.
    ReadFatEntry { sector: u64, offset: u64 },
    /// The chain ended; this many bytes were read.
    Done(usize),
}

/// The progress of reading a cluster chain.
#[derive(Debug, Copy, Clone, PartialEq, Eq, Structural)]
pub struct ChainRead {
    /// The cluster being read.
    pub current: Cluster,
    /// Bytes read so far.
    pub bytes_read: usize,
    /// Clusters visited so far, the current one included.
    pub clusters: usize,
}

impl VFat {
    /// The action asking for the FAT entry of cluster `c`.
    pub open spec fn fat_entry_action(self, c: Cluster) -> ChainAction {
        ChainAction::ReadFatEntry {
            sector: (self.fat_start_sector + (c.value_spec() * 4) / (self.bytes_per_sector as int)) as u64,
            offset: ((c.value_spec() * 4) % (self.bytes_per_sector as int)) as u64,
        }
    }

    /// The action asking to read cluster `c` as the `n`th cluster of a chain.
    pub open spec fn read_cluster_action(self, c: Cluster, n: int) -> ChainAction {
        ChainAction::ReadCluster { cluster: c, buf_len: (n * self.cluster_bytes()) as usize }
    }

    /// The state after moving on to cluster `c`.
    pub open spec fn advanced(st: ChainRead, c: Cluster) -> ChainRead {
        ChainRead { current: c, bytes_read: st.bytes_read, clusters: (st.clusters + 1) as usize }
    }

    /// The state after `n` bytes of the current cluster were read.
    pub open spec fn after_cluster(st: ChainRead, n: usize) -> ChainRead {
        ChainRead { current: st.current, bytes_read: (st.bytes_read + n) as usize, clusters: st.clusters }
    }

    /// The state and the outcome after following the FAT entry `e` of the
    /// current cluster: on to the next cluster, done at the end of the chain,
    /// or an error for a free, reserved or bad entry.
    pub open spec fn after_entry(self, st: ChainRead, e: FatEntry) -> (ChainRead, Result<ChainAction, Error>) {
        match status_of(e.0) {
            Status::Data(c) => (Self::advanced(st, c), Ok(self.read_cluster_action(c, st.clusters + 1))),
            Status::Eoc(_) => (st, Ok(ChainAction::Done(st.bytes_read))),
            _ => (st, Err(Error::Io(IoErrorKind::InvalidInput))),
        }
    }

    /// The state at the start of the chain at `c`.
    pub open spec fn chain_begin(c: Cluster) -> ChainRead {
        ChainRead { current: c, bytes_read: 0, clusters: 1 }
    }

    /// Starts reading the cluster chain that begins at `start`.
    ///
    /// # Errors
    ///
    /// Clusters 0 and 1 hold no data: `Io(InvalidInput)`.
    pub fn chain_start(&self, start: Cluster) -> (r: Result<(ChainRead, ChainAction), Error>)
        ensures
            start.value_spec() < 2 ==> r == Err::<(ChainRead, ChainAction), Error>(Error::Io(IoErrorKind::InvalidInput)),
            start.value_spec() >= 2 ==> r == Ok::<(ChainRead, ChainAction), Error>((Self::chain_begin(start), self.read_cluster_action(start, 1))),
    {
        if start.get_cluster_value() < 2 {
            return Err(Error::Io(IoErrorKind::InvalidInput));
        }
        let n = self.cluster_size();
        Ok((ChainRead { current: start, bytes_read: 0, clusters: 1 }, ChainAction::ReadCluster { cluster: start, buf_len: n }))
    }

    /// Records that `n` bytes of the current cluster were read, and asks for
    /// the current cluster's FAT entry.
    pub fn chain_after_cluster(&self, st: &mut ChainRead, n: usize) -> (a: ChainAction)
        requires
            self.bytes_per_sector > 0,
            self.fat_start_sector + (old(st).current.value_spec() * 4) / (self.bytes_per_sector as int)
                <= u64::MAX,
            old(st).bytes_read + n <= usize::MAX,
        ensures
            *final(st) == Self::after_cluster(*old(st), n),
            final(st).bytes_read == old(st).bytes_read + n,
            a == self.fat_entry_action(old(st).current),
    {
        st.bytes_read = st.bytes_read + n;
        let (sector, offset) = self.map_cluster_entry(st.current.get_cluster_value());
        ChainAction::ReadFatEntry { sector, offset }
    }

    /// Follows the current cluster's FAT entry `e`: on to the next cluster,
    /// or done at the end of the chain.
    ///
    /// # Errors
    ///
    /// A free, reserved or bad entry inside a chain gives `Io(InvalidInput)`.
    pub fn chain_after_entry(&self, st: &mut ChainRead, e: FatEntry) -> (r: Result<ChainAction, Error>)
        requires
            old(st).clusters < usize::MAX,
            (old(st).clusters + 1) * self.cluster_bytes() <= usize::MAX,
        ensures
            (*final(st), r) == self.after_entry(*old(st), e),
            status_of(e.0) matches Status::Data(c) ==> r == Ok::<ChainAction, Error>(self.read_cluster_action(c, old(st).clusters + 1)) && *final(st) == Self::advanced(*old(st), c),
            status_of(e.0) is Eoc ==> r == Ok::<ChainAction, Error>(ChainAction::Done(old(st).bytes_read)) && *final(st) == *old(st),
            !(status_of(e.0) is Data || status_of(e.0) is Eoc) ==> r == Err::<ChainAction, Error>(Error::Io(IoErrorKind::InvalidInput)) && *final(st) == *old(st),
    {
        match Self::chain_next(e.status()) {
            Ok(Some(next)) => {
                let cs = self.cluster_size();
                st.current = next;
                st.clusters = st.clusters + 1;
                Ok(ChainAction::ReadCluster { cluster: next, buf_len: st.clusters * cs })
            },
            Ok(None) => Ok(ChainAction::Done(st.bytes_read)),
            Err(err) => Err(err),
        }
    }

    /// Follows the current cluster's FAT entry `e` when a chain is read into
    /// a buffer that only grows after a cluster with a successor: the next
    /// cluster is read with the buffer grown to the clusters read so far,
    /// one cluster less than `chain_after_entry` asks for.
    ///
    /// # Errors
    ///
    /// A free, reserved or bad entry inside a chain gives `Io(InvalidInput)`.
    pub fn chain_offset_after_entry(&self, st: &mut ChainRead, e: FatEntry) -> (r: Result<ChainAction, Error>)
        requires
            old(st).clusters < usize::MAX,
            old(st).clusters * self.cluster_bytes() <= usize::MAX,
        ensures
            status_of(e.0) matches Status::Data(c) ==> r == Ok::<ChainAction, Error>(self.read_cluster_action(c, old(st).clusters as int)) && *final(st) == Self::advanced(*old(st), c),
            status_of(e.0) is Eoc ==> r == Ok::<ChainAction, Error>(ChainAction::Done(old(st).bytes_read)) && *final(st) == *old(st),
            !(status_of(e.0) is Data || status_of(e.0) is Eoc) ==> r == Err::<ChainAction, Error>(Error::Io(IoErrorKind::InvalidInput)) && *final(st) == *old(st),
    {
        match Self::chain_next(e.status()) {
            Ok(Some(next)) => {
                let cs = self.cluster_size();
                let grown = st.clusters * cs;
                st.current = next;
                st.clusters = st.clusters + 1;
                Ok(ChainAction::ReadCluster { cluster: next, buf_len: grown })
            },
            Ok(None) => Ok(ChainAction::Done(st.bytes_read)),
            Err(err) => Err(err),
        }
    }

    /// The state of reading `chain` after its first `i` clusters were read,
    /// with the byte counts `counts`, and their FAT entries `entries`
    /// followed.
    pub open spec fn chain_state(
        self,
        chain: Seq<Cluster>,
        entries: Seq<FatEntry>,
        counts: Seq<usize>,
        i: nat,
    ) -> ChainRead
        decreases i,
    {
        if i == 0 {
            Self::chain_begin(chain[0])
        } else {
            self.after_entry(
                Self::after_cluster(self.chain_state(chain, entries, counts, (i - 1) as nat), counts[i - 1]),
                entries[i - 1],
            ).0
        }
    }
}

/// The names a path lookup walks through, in order: the path's components
/// without `..`, which a lookup skips.
pub open spec fn lookup_names(parts: Seq<Seq<u8>>) -> Seq<Seq<u8>>
    decreases parts.len(),
{
    if parts.len() == 0 {
        Seq::empty()
    } else {
        let rest = lookup_names(parts.drop_last());
        if parts.last() == seq![DOT, DOT] {
            rest
        } else {
            rest.push(parts.last())
        }
    }
}

impl VFat {
    /// The root directory of the volume: named `/`, starting at the root
    /// cluster, with default metadata.
    pub fn root_dir(&self) -> (d: Dir)
        ensures
            d.start_cluster == self.rootdir_cluster,
            d.name@ == seq!['/'],
            d.metadata.created.date.raw() == 0 && d.metadata.created.time.raw() == 0,
            d.metadata.accessed.date.raw() == 0 && d.metadata.accessed.time.raw() == 0,
            d.metadata.modified.date.raw() == 0 && d.metadata.modified.time.raw() == 0,
            d.metadata.attributes.raw() == ATTR_SYSTEM,
    {
        let root = "/";
        proof {
            reveal_strlit("/");
        }
        Dir { start_cluster: self.rootdir_cluster, name: root.to_owned(), metadata: Metadata::default() }
    }

    /// Starts opening `path`: the root directory, where a lookup begins, and
    /// the names to look up from it in order.
    ///
    /// # Errors
    ///
    /// A path that is not absolute gives `Io(InvalidInput)`.
    pub fn open_start(&self, path: &[u8]) -> (r: Result<(Dir, Vec<Vec<u8>>), Error>)
        ensures
            !(path@.len() > 0 && path@[0] == SLASH) ==> r == Err::<(Dir, Vec<Vec<u8>>), Error>(Error::Io(IoErrorKind::InvalidInput)),
            path@.len() > 0 && path@[0] == SLASH ==> (r matches Ok((d, names)) && d.start_cluster
                == self.rootdir_cluster && d.name@ == seq!['/'] && names.deep_view() == lookup_names(
                path_components(path@),
            )),
    {
        if !(path.len() > 0 && path[0] == SLASH) {
            return Err(Error::Io(IoErrorKind::InvalidInput));
        }
        let parts = components(path);
        let mut names: Vec<Vec<u8>> = Vec::new();
        let mut k: usize = 0;
        assert(parts.deep_view().subrange(0, 0) =~= Seq::<Seq<u8>>::empty());
        assert(names.deep_view() =~= Seq::<Seq<u8>>::empty());
        while k < parts.len()
            invariant
                k <= parts.len(),
                names.deep_view() == lookup_names(parts.deep_view().subrange(0, k as int)),
            decreases parts.len() - k,
        {
            let ghost pre = parts.deep_view().subrange(0, k + 1);
            assert(pre.drop_last() =~= parts.deep_view().subrange(0, k as int));
            assert(pre.last() == parts[k as int]@);
            let c = &parts[k];
            let parent = c.len() == 2 && c[0] == DOT && c[1] == DOT;
            assert(parent <==> c@ == seq![DOT, DOT]) by {
                if c@ == seq![DOT, DOT] {
                    assert(c@.len() == 2 && c@[0] == DOT && c@[1] == DOT);
                }
                if parent {
                    assert(c@ =~= seq![DOT, DOT]);
                }
            }
            if !parent {
                let mut copy: Vec<u8> = Vec::new();
                let mut j: usize = 0;
                while j < c.len()
                    invariant
                        j <= c@.len(),
                        copy@ == c@.subrange(0, j as int),
                    decreases c@.len() - j,
                {
                    copy.push(c[j]);
                    j = j + 1;
                }
                assert(copy@ =~= c@);
                let ghost before = names.deep_view();
                assert(copy.deep_view() =~= copy@);
                names.push(copy);
                assert(names.deep_view() =~= before.push(c@));
            }
            k = k + 1;
        }
        assert(parts.deep_view().subrange(0, parts.len() as int) =~= parts.deep_view());
        Ok((self.root_dir(), names))
    }
}

/// The bytes read from the first `i` clusters of a chain.
pub open spec fn bytes_before(counts: Seq<usize>, i: int) -> int
    decreases i,
{
    if i <= 0 {
        0
    } else {
        bytes_before(counts, i - 1) + counts[i - 1]
    }
}

/// Reading a whole chain: when the FAT entry of each cluster of `chain`
/// names the next one and that of the last marks the end, the steps of
/// `chain_start`, `chain_after_cluster` and `chain_after_entry` read the
/// clusters in order, each into the buffer right after the bytes read
/// before it, ask for each next cluster with the buffer grown by one
/// cluster, and end with `Done` of the total.
pub proof fn law_chain_read(v: VFat, chain: Seq<Cluster>, entries: Seq<FatEntry>, counts: Seq<usize>)
    requires
        chain.len() > 0,
        chain.len() < usize::MAX,
        entries.len() == chain.len(),
        counts.len() == chain.len(),
        forall|i: int| 0 <= i < chain.len() - 1 ==> status_of(#[trigger] entries[i].0) == Status::Data(chain[i + 1]),
        status_of(entries[chain.len() - 1].0) is Eoc,
        bytes_before(counts, chain.len() as int) <= usize::MAX,
    ensures
        forall|i: int|
            0 <= i < chain.len() ==> #[trigger] v.chain_state(chain, entries, counts, i as nat) == (ChainRead {
                current: chain[i],
                bytes_read: bytes_before(counts, i) as usize,
                clusters: (i + 1) as usize,
            }),
        forall|i: int|
            0 <= i < chain.len() - 1 ==> #[trigger] v.after_entry(
                VFat::after_cluster(v.chain_state(chain, entries, counts, i as nat), counts[i]),
                entries[i],
            ).1 == Ok::<ChainAction, Error>(v.read_cluster_action(chain[i + 1], i + 2)),
        v.after_entry(
            VFat::after_cluster(v.chain_state(chain, entries, counts, (chain.len() - 1) as nat), counts[chain.len() - 1]),
            entries[chain.len() - 1],
        ).1 == Ok::<ChainAction, Error>(ChainAction::Done(bytes_before(counts, chain.len() as int) as usize)),
{
    assert forall|i: int| 0 <= i <= chain.len() implies 0 <= #[trigger] bytes_before(counts, i)
        <= bytes_before(counts, chain.len() as int) by {
        lemma_bytes_before_monotonic(counts, i, chain.len() as int);
    }
    assert forall|i: int|
        0 <= i < chain.len() implies #[trigger] v.chain_state(chain, entries, counts, i as nat) == (ChainRead {
            current: chain[i],
            bytes_read: bytes_before(counts, i) as usize,
            clusters: (i + 1) as usize,
        }) by {
        lemma_chain_state(v, chain, entries, counts, i as nat);
    }
    let last = (chain.len() - 1) as nat;
    assert(v.chain_state(chain, entries, counts, last).bytes_read == bytes_before(counts, last as int));
    assert(bytes_before(counts, chain.len() as int) == bytes_before(counts, last as int) + counts[last as int]);
}

/// `bytes_before` grows with the number of clusters.
proof fn lemma_bytes_before_monotonic(counts: Seq<usize>, i: int, j: int)
    requires
        0 <= i <= j <= counts.len(),
    ensures
        0 <= bytes_before(counts, i) <= bytes_before(counts, j),
    decreases j,
{
    if i < j {
        lemma_bytes_before_monotonic(counts, i, j - 1);
    } else if i > 0 {
        lemma_bytes_before_monotonic(counts, i - 1, i - 1);
    }
}

/// The state after the first `i` clusters of a well-linked chain.
proof fn lemma_chain_state(v: VFat, chain: Seq<Cluster>, entries: Seq<FatEntry>, counts: Seq<usize>, i: nat)
    requires
        i < chain.len(),
        chain.len() < usize::MAX,
        entries.len() == chain.len(),
        counts.len() == chain.len(),
        forall|k: int| 0 <= k < chain.len() - 1 ==> status_of(#[trigger] entries[k].0) == Status::Data(chain[k + 1]),
        forall|k: int| 0 <= k <= chain.len() ==> 0 <= #[trigger] bytes_before(counts, k) <= usize::MAX,
    ensures
        v.chain_state(chain, entries, counts, i) == (ChainRead {
            current: chain[i as int],
            bytes_read: bytes_before(counts, i as int) as usize,
            clusters: (i + 1) as usize,
        }),
    decreases i,
{
    if i > 0 {
        lemma_chain_state(v, chain, entries, counts, (i - 1) as nat);
        assert(status_of(entries[i - 1].0) == Status::Data(chain[i as int]));
        assert(bytes_before(counts, i as int) == bytes_before(counts, i - 1) + counts[i - 1]);
        assert(0 <= bytes_before(counts, i as int) <= usize::MAX);
    }
}

} // verus!
