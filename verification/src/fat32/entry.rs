//! Directory entries: files and directories.
use vstd::prelude::*;
use crate::fat32::fat::Cluster;
use crate::fat32::file::File;
use crate::fat32::metadata::Metadata;

verus! {

/// A directory of a FAT32 volume.
pub struct Dir {
    pub start_cluster: Cluster,
    pub name: String,
    pub metadata: Metadata,
}

/// An entry of a directory: a file or a subdirectory.
pub enum Entry {
    File(File),
    Dir(Dir),
}

impl Entry {
    /// The entry's name.
    pub fn name(&self) -> (r: &str)
        ensures
            r@ == match self {
                Entry::File(f) => f.name@,
                Entry::Dir(d) => d.name@,
            },
    {
        match self {
            Entry::File(x) => x.name.as_str(),
            Entry::Dir(y) => y.name.as_str(),
        }
    }

    /// The entry's metadata.
    pub fn metadata(&self) -> (r: &Metadata)
        ensures
            *r == match self {
                Entry::File(f) => f.metadata,
                Entry::Dir(d) => d.metadata,
            },
    {
        match self {
            Entry::File(x) => &x.metadata,
            Entry::Dir(y) => &y.metadata,
        }
    }

    /// The file, if this entry is one.
    pub fn as_file(&self) -> (r: Option<&File>)
        ensures
            (self is File) == (r is Some),
            self is File ==> r.unwrap() == self->File_0,
    {
        match self {
            Entry::File(x) => Some(x),
            _ => None,
        }
    }

    /// The directory, if this entry is one.
    pub fn as_dir(&self) -> (r: Option<&Dir>)
        ensures
            (self is Dir) == (r is Some),
            self is Dir ==> r.unwrap() == self->Dir_0,
    {
        match self {
            Entry::Dir(x) => Some(x),
            _ => None,
        }
    }

    /// The file, if this entry is one.
    pub fn into_file(self) -> (r: Option<File>)
        ensures
            (self is File) == (r is Some),
            self is File ==> r.unwrap() == self->File_0,
    {
        match self {
            Entry::File(x) => Some(x),
            _ => None,
        }
    }

    /// The directory, if this entry is one.
    pub fn into_dir(self) -> (r: Option<Dir>)
        ensures
            (self is Dir) == (r is Some),
            self is Dir ==> r.unwrap() == self->Dir_0,
    {
        match self {
            Entry::Dir(x) => Some(x),
            _ => None,
        }
    }
}

} // verus!
