//! Files of a FAT32 volume: position handling and reading.
use vstd::prelude::*;
use crate::fat32::error::IoErrorKind;
use crate::fat32::fat::Cluster;
use crate::fat32::metadata::Metadata;

verus! {

/// A position to seek to, relative to the start, the end or the current
/// position of a file.
#[derive(Debug, Copy, Clone, PartialEq, Eq, Structural)]
pub enum SeekFrom {
    Start(u64),
    End(i64),
    Current(i64),
}

/// A file of a FAT32 volume.
pub struct File {
    pub start_cluster: Cluster,
    pub name: String,
    pub metadata: Metadata,
    /// Size of the file in bytes.
    pub size: u64,
    /// Current read position.
    pub current_offset: u64,
    pub current_cluster: Cluster,
}

/// The position a seek aims at, before it is checked against the file.
pub open spec fn seek_target(size: u64, current: u64, pos: SeekFrom) -> int {
    match pos {
        SeekFrom::Start(n) => n as int,
        SeekFrom::End(d) => size + d,
        SeekFrom::Current(d) => current + d,
    }
}

/// A seek succeeds when it aims within the file or exactly at its end.
pub open spec fn seek_ok(size: u64, current: u64, pos: SeekFrom) -> bool {
    0 <= seek_target(size, current, pos) <= size
}

/// The number of bytes a read into a buffer of `buf_len` bytes returns.
pub open spec fn read_len(size: u64, current: u64, buf_len: int) -> int {
    if size == 0 {
        0
    } else if size - current > buf_len {
        buf_len
    } else {
        size - current
    }
}

impl File {
    /// The file's name.
    pub fn name(&self) -> (r: &str)
        ensures
            r@ == self.name@,
    {
        self.name.as_str()
    }

    /// The file's metadata.
    pub fn metadata(&self) -> (r: &Metadata)
        ensures
            *r == self.metadata,
    {
        &self.metadata
    }

    /// Returns the size of the file in bytes.
    pub fn size(&self) -> (r: u64)
        ensures
            r == self.size,
    {
        self.size
    }

    /// Seek to offset `pos` in the file.
    ///
    /// A seek to the end of the file is allowed. If the seek completes, the
    /// new position from the start of the file is returned.
    ///
    /// # Errors
    ///
    /// Seeking before the start of the file or beyond its end results in an
    /// `InvalidInput` error, and the position is unchanged.
    pub fn seek(&mut self, pos: SeekFrom) -> (r: Result<u64, IoErrorKind>)
        ensures
            seek_ok(old(self).size, old(self).current_offset, pos) ==> {
                &&& r == Ok::<u64, IoErrorKind>(
                    seek_target(old(self).size, old(self).current_offset, pos) as u64,
                )
                &&& final(self).current_offset == seek_target(
                    old(self).size,
                    old(self).current_offset,
                    pos,
                )
            },
            !seek_ok(old(self).size, old(self).current_offset, pos) ==> {
                &&& r == Err::<u64, IoErrorKind>(IoErrorKind::InvalidInput)
                &&& final(self).current_offset == old(self).current_offset
            },
            final(self).size == old(self).size,
            final(self).start_cluster == old(self).start_cluster,
            final(self).current_cluster == old(self).current_cluster,
            final(self).name == old(self).name,
            final(self).metadata == old(self).metadata,
    {
        let target: i128 = match pos {
            SeekFrom::Start(n) => n as i128,
            SeekFrom::End(d) => self.size as i128 + d as i128,
            SeekFrom::Current(d) => self.current_offset as i128 + d as i128,
        };
        if target < 0 || target > self.size as i128 {
            return Err(IoErrorKind::InvalidInput);
        }
        let offset = target as u64;
        self.current_offset = offset;
        Ok(offset)
    }

    /// Reads from the current position into `buf`, given the bytes of the
    /// file's cluster chain in `contents`; returns the number of bytes read,
    /// the smaller of the buffer's length and what is left of the file.
    pub fn read(&mut self, contents: &[u8], buf: &mut [u8]) -> (r: usize)
        requires
            old(self).current_offset <= old(self).size,
            old(self).current_offset + read_len(
                old(self).size,
                old(self).current_offset,
                old(buf)@.len() as int,
            ) <= contents@.len(),
        ensures
            r == read_len(old(self).size, old(self).current_offset, old(buf)@.len() as int),
            final(buf)@.len() == old(buf)@.len(),
            forall|j: int|
                0 <= j < r ==> #[trigger] final(buf)@[j] == contents@[old(self).current_offset + j],
            forall|j: int| r <= j < old(buf)@.len() ==> #[trigger] final(buf)@[j] == old(buf)@[j],
            final(self).current_offset == old(self).current_offset + r,
            final(self).size == old(self).size,
            final(self).start_cluster == old(self).start_cluster,
            final(self).current_cluster == old(self).current_cluster,
            final(self).name == old(self).name,
            final(self).metadata == old(self).metadata,
    {
        if self.size == 0 {
            return 0;
        }
        let remaining = self.size - self.current_offset;
        let n: usize = if remaining > buf.len() as u64 {
            buf.len()
        } else {
            remaining as usize
        };
        if n == 0 {
            return 0;
        }
        let clen = contents.len();
        assert(self.current_offset + n <= clen);
        let start = self.current_offset as usize;
        let mut i: usize = 0;
        while i < n
            invariant
                i <= n,
                n <= buf@.len(),
                buf@.len() == old(buf)@.len(),
                start == old(self).current_offset,
                start + n <= contents@.len(),
                clen == contents@.len(),
                forall|j: int| 0 <= j < i ==> #[trigger] buf@[j] == contents@[start + j],
                forall|j: int| n <= j < buf@.len() ==> #[trigger] buf@[j] == old(buf)@[j],
            decreases n - i,
        {
            buf[i] = contents[start + i];
            i = i + 1;
        }
        self.current_offset = self.current_offset + n as u64;
        n
    }
}

/// Seeking relative to the current position by zero stays put, seeking to
/// the end by zero lands on the file size, and every successful seek lands
/// within the file.
pub proof fn law_seek_positions(size: u64, current: u64, pos: SeekFrom)
    requires
        current <= size,
    ensures
        seek_ok(size, current, SeekFrom::Current(0)),
        seek_target(size, current, SeekFrom::Current(0)) == current,
        seek_ok(size, current, SeekFrom::End(0)),
        seek_target(size, current, SeekFrom::End(0)) == size,
        seek_ok(size, current, pos) ==> seek_target(size, current, pos) <= size,
        seek_ok(size, current, SeekFrom::Start(current)),
{
}

/// A read never moves the position past the end of the file.
pub proof fn law_read_stays_in_file(size: u64, current: u64, buf_len: int)
    requires
        current <= size,
        buf_len >= 0,
    ensures
        0 <= read_len(size, current, buf_len) <= buf_len,
        current + read_len(size, current, buf_len) <= size,
        size > 0 && buf_len > 0 && current < size ==> read_len(size, current, buf_len) > 0,
{
}

} // verus!
