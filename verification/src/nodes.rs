use vstd::prelude::*;
use crate::type_and_size::NodeFileType;

verus! {

/// The index of a node in the node store.
#[derive(Debug, Clone, Copy, PartialEq, Eq, Structural)]
pub struct SlabIndex(pub usize);

impl SlabIndex {
    pub fn new(index: usize) -> (r: SlabIndex)
        ensures
            r.0 == index,
    {
        SlabIndex(index)
    }

    pub fn get(&self) -> (r: usize)
        ensures
            r == self.0,
    {
        self.0
    }
}

/// The metadata of a node as the store keeps it: kind, size, and creation
/// and modification times in seconds (`None` when unknown; never 0).
#[derive(Debug, Clone, Copy)]
pub struct SlabNodeMetadata {
    pub file_type: NodeFileType,
    pub size: i64,
    pub ctime: Option<u32>,
    pub mtime: Option<u32>,
}

impl SlabNodeMetadata {
    pub fn file_type(&self) -> (r: NodeFileType)
        ensures
            r == self.file_type,
    {
        self.file_type
    }

    pub fn size(&self) -> (r: i64)
        ensures
            r == self.size,
    {
        self.size
    }

    pub fn ctime(&self) -> (r: Option<u32>)
        ensures
            r == self.ctime,
    {
        self.ctime
    }

    pub fn mtime(&self) -> (r: Option<u32>)
        ensures
            r == self.mtime,
    {
        self.mtime
    }
}

} // verus!
