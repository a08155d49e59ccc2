use vstd::prelude::*;
use std::path::PathBuf;
use std::time::SystemTime;

verus! {

/// `std::path::PathBuf`, carried through opaque.
#[verifier::external_type_specification]
#[verifier::external_body]
pub struct ExPathBuf(std::path::PathBuf);

/// The kind of a disk entry.
#[derive(PartialEq, Eq, PartialOrd, Ord, Clone, Copy, Debug, Structural)]
pub enum FileType {
    Dir,
    File,
    Symlink,
    Unknown,
}

impl FileType {
    /// The kind of an entry from what `std::fs::FileType` answers: a
    /// directory first, then a file, then a symlink.
    pub fn from_kind(is_dir: bool, is_file: bool, is_symlink: bool) -> (r: FileType)
        ensures
            r == (if is_dir {
                FileType::Dir
            } else if is_file {
                FileType::File
            } else if is_symlink {
                FileType::Symlink
            } else {
                FileType::Unknown
            }),
    {
        if is_dir {
            FileType::Dir
        } else if is_file {
            FileType::File
        } else if is_symlink {
            FileType::Symlink
        } else {
            FileType::Unknown
        }
    }
}

/// Most of the useful information for a disk node.
#[derive(Debug)]
pub struct Metadata {
    pub file_type: FileType,
    pub len: u64,
    pub created: SystemTime,
    pub modified: SystemTime,
    pub accessed: SystemTime,
    pub permissions_read_only: bool,
}

/// A disk node: its path and metadata.
pub struct DiskEntry {
    pub path: PathBuf,
    pub meta: Metadata,
}

/// A disk entry as stored in the database: the path and the encoded
/// metadata.
#[derive(Clone)]
pub struct DiskEntryRaw {
    pub the_path: String,
    pub the_meta: Vec<u8>,
}

/// A key/value row of database metadata.
#[derive(Clone)]
pub struct DbMeta {
    pub the_key: Vec<u8>,
    pub the_value: Vec<u8>,
}

} // verus!
