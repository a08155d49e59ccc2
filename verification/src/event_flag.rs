use vstd::prelude::*;

verus! {

/// The flags of a file system event (the FSEvents flag bits).
#[derive(Debug, Clone, Copy, PartialEq, Eq, Structural)]
pub struct EventFlag {
    pub bits: u32,
}

#[allow(non_snake_case)]
impl EventFlag {
    pub open spec fn spec_empty() -> EventFlag {
        EventFlag { bits: 0 }
    }

    #[verifier::when_used_as_spec(spec_empty)]
    pub fn empty() -> (r: EventFlag)
        ensures
            r == Self::spec_empty(),
    {
        EventFlag { bits: 0 }
    }
    pub open spec fn spec_MustScanSubDirs() -> EventFlag {
        EventFlag { bits: 0x1 }
    }

    #[verifier::when_used_as_spec(spec_MustScanSubDirs)]
    pub fn MustScanSubDirs() -> (r: EventFlag)
        ensures
            r == Self::spec_MustScanSubDirs(),
    {
        EventFlag { bits: 0x1 }
    }
    pub open spec fn spec_UserDropped() -> EventFlag {
        EventFlag { bits: 0x2 }
    }

    #[verifier::when_used_as_spec(spec_UserDropped)]
    pub fn UserDropped() -> (r: EventFlag)
        ensures
            r == Self::spec_UserDropped(),
    {
        EventFlag { bits: 0x2 }
    }
    pub open spec fn spec_KernelDropped() -> EventFlag {
        EventFlag { bits: 0x4 }
    }

    #[verifier::when_used_as_spec(spec_KernelDropped)]
    pub fn KernelDropped() -> (r: EventFlag)
        ensures
            r == Self::spec_KernelDropped(),
    {
        EventFlag { bits: 0x4 }
    }
    pub open spec fn spec_EventIdsWrapped() -> EventFlag {
        EventFlag { bits: 0x8 }
    }

    #[verifier::when_used_as_spec(spec_EventIdsWrapped)]
    pub fn EventIdsWrapped() -> (r: EventFlag)
        ensures
            r == Self::spec_EventIdsWrapped(),
    {
        EventFlag { bits: 0x8 }
    }
    pub open spec fn spec_HistoryDone() -> EventFlag {
        EventFlag { bits: 0x10 }
    }

    #[verifier::when_used_as_spec(spec_HistoryDone)]
    pub fn HistoryDone() -> (r: EventFlag)
        ensures
            r == Self::spec_HistoryDone(),
    {
        EventFlag { bits: 0x10 }
    }
    pub open spec fn spec_RootChanged() -> EventFlag {
        EventFlag { bits: 0x20 }
    }

    #[verifier::when_used_as_spec(spec_RootChanged)]
    pub fn RootChanged() -> (r: EventFlag)
        ensures
            r == Self::spec_RootChanged(),
    {
        EventFlag { bits: 0x20 }
    }
    pub open spec fn spec_Mount() -> EventFlag {
        EventFlag { bits: 0x40 }
    }

    #[verifier::when_used_as_spec(spec_Mount)]
    pub fn Mount() -> (r: EventFlag)
        ensures
            r == Self::spec_Mount(),
    {
        EventFlag { bits: 0x40 }
    }
    pub open spec fn spec_Unmount() -> EventFlag {
        EventFlag { bits: 0x80 }
    }

    #[verifier::when_used_as_spec(spec_Unmount)]
    pub fn Unmount() -> (r: EventFlag)
        ensures
            r == Self::spec_Unmount(),
    {
        EventFlag { bits: 0x80 }
    }
    pub open spec fn spec_ItemCreated() -> EventFlag {
        EventFlag { bits: 0x100 }
    }

    #[verifier::when_used_as_spec(spec_ItemCreated)]
    pub fn ItemCreated() -> (r: EventFlag)
        ensures
            r == Self::spec_ItemCreated(),
    {
        EventFlag { bits: 0x100 }
    }
    pub open spec fn spec_ItemRemoved() -> EventFlag {
        EventFlag { bits: 0x200 }
    }

    #[verifier::when_used_as_spec(spec_ItemRemoved)]
    pub fn ItemRemoved() -> (r: EventFlag)
        ensures
            r == Self::spec_ItemRemoved(),
    {
        EventFlag { bits: 0x200 }
    }
    pub open spec fn spec_ItemInodeMetaMod() -> EventFlag {
        EventFlag { bits: 0x400 }
    }

    #[verifier::when_used_as_spec(spec_ItemInodeMetaMod)]
    pub fn ItemInodeMetaMod() -> (r: EventFlag)
        ensures
            r == Self::spec_ItemInodeMetaMod(),
    {
        EventFlag { bits: 0x400 }
    }
    pub open spec fn spec_ItemRenamed() -> EventFlag {
        EventFlag { bits: 0x800 }
    }

    #[verifier::when_used_as_spec(spec_ItemRenamed)]
    pub fn ItemRenamed() -> (r: EventFlag)
        ensures
            r == Self::spec_ItemRenamed(),
    {
        EventFlag { bits: 0x800 }
    }
    pub open spec fn spec_ItemModified() -> EventFlag {
        EventFlag { bits: 0x1000 }
    }

    #[verifier::when_used_as_spec(spec_ItemModified)]
    pub fn ItemModified() -> (r: EventFlag)
        ensures
            r == Self::spec_ItemModified(),
    {
        EventFlag { bits: 0x1000 }
    }
    pub open spec fn spec_ItemFinderInfoMod() -> EventFlag {
        EventFlag { bits: 0x2000 }
    }

    #[verifier::when_used_as_spec(spec_ItemFinderInfoMod)]
    pub fn ItemFinderInfoMod() -> (r: EventFlag)
        ensures
            r == Self::spec_ItemFinderInfoMod(),
    {
        EventFlag { bits: 0x2000 }
    }
    pub open spec fn spec_ItemChangeOwner() -> EventFlag {
        EventFlag { bits: 0x4000 }
    }

    #[verifier::when_used_as_spec(spec_ItemChangeOwner)]
    pub fn ItemChangeOwner() -> (r: EventFlag)
        ensures
            r == Self::spec_ItemChangeOwner(),
    {
        EventFlag { bits: 0x4000 }
    }
    pub open spec fn spec_ItemXattrMod() -> EventFlag {
        EventFlag { bits: 0x8000 }
    }

    #[verifier::when_used_as_spec(spec_ItemXattrMod)]
    pub fn ItemXattrMod() -> (r: EventFlag)
        ensures
            r == Self::spec_ItemXattrMod(),
    {
        EventFlag { bits: 0x8000 }
    }
    pub open spec fn spec_ItemIsFile() -> EventFlag {
        EventFlag { bits: 0x10000 }
    }

    #[verifier::when_used_as_spec(spec_ItemIsFile)]
    pub fn ItemIsFile() -> (r: EventFlag)
        ensures
            r == Self::spec_ItemIsFile(),
    {
        EventFlag { bits: 0x10000 }
    }
    pub open spec fn spec_ItemIsDir() -> EventFlag {
        EventFlag { bits: 0x20000 }
    }

    #[verifier::when_used_as_spec(spec_ItemIsDir)]
    pub fn ItemIsDir() -> (r: EventFlag)
        ensures
            r == Self::spec_ItemIsDir(),
    {
        EventFlag { bits: 0x20000 }
    }
    pub open spec fn spec_ItemIsSymlink() -> EventFlag {
        EventFlag { bits: 0x40000 }
    }

    #[verifier::when_used_as_spec(spec_ItemIsSymlink)]
    pub fn ItemIsSymlink() -> (r: EventFlag)
        ensures
            r == Self::spec_ItemIsSymlink(),
    {
        EventFlag { bits: 0x40000 }
    }
    pub open spec fn spec_OwnEvent() -> EventFlag {
        EventFlag { bits: 0x80000 }
    }

    #[verifier::when_used_as_spec(spec_OwnEvent)]
    pub fn OwnEvent() -> (r: EventFlag)
        ensures
            r == Self::spec_OwnEvent(),
    {
        EventFlag { bits: 0x80000 }
    }
    pub open spec fn spec_IsHardlink() -> EventFlag {
        EventFlag { bits: 0x100000 }
    }

    #[verifier::when_used_as_spec(spec_IsHardlink)]
    pub fn IsHardlink() -> (r: EventFlag)
        ensures
            r == Self::spec_IsHardlink(),
    {
        EventFlag { bits: 0x100000 }
    }
    pub open spec fn spec_IsLastHardlink() -> EventFlag {
        EventFlag { bits: 0x200000 }
    }

    #[verifier::when_used_as_spec(spec_IsLastHardlink)]
    pub fn IsLastHardlink() -> (r: EventFlag)
        ensures
            r == Self::spec_IsLastHardlink(),
    {
        EventFlag { bits: 0x200000 }
    }
    pub open spec fn spec_Cloned() -> EventFlag {
        EventFlag { bits: 0x400000 }
    }

    #[verifier::when_used_as_spec(spec_Cloned)]
    pub fn Cloned() -> (r: EventFlag)
        ensures
            r == Self::spec_Cloned(),
    {
        EventFlag { bits: 0x400000 }
    }

    /// Every bit of `other` is set in `self`.
    pub open spec fn spec_contains(self, other: EventFlag) -> bool {
        self.bits & other.bits == other.bits
    }

    pub fn contains(&self, other: EventFlag) -> (r: bool)
        ensures
            r == self.spec_contains(other),
    {
        self.bits & other.bits == other.bits
    }

    /// The flags set in either.
    pub fn union(self, other: EventFlag) -> (r: EventFlag)
        ensures
            r.bits == self.bits | other.bits,
    {
        EventFlag { bits: self.bits | other.bits }
    }

    /// The event's kind of node, read from the flags in this order:
    /// hard link, symlink, directory, file.
    pub open spec fn spec_event_type(self) -> EventType {
        if self.spec_contains(EventFlag::IsHardlink()) || self.spec_contains(EventFlag::IsLastHardlink()) {
            EventType::Hardlink
        } else if self.spec_contains(EventFlag::ItemIsSymlink()) {
            EventType::Symlink
        } else if self.spec_contains(EventFlag::ItemIsDir()) {
            EventType::Dir
        } else if self.spec_contains(EventFlag::ItemIsFile()) {
            EventType::File
        } else {
            EventType::Unknown
        }
    }

    /// What to scan for the event: nothing once history is replayed or ids
    /// wrapped, everything when the root changed, else the folder for a
    /// directory and the single node otherwise.
    pub open spec fn spec_scan_type(self) -> ScanType {
        if self.spec_contains(EventFlag::HistoryDone()) || self.spec_contains(EventFlag::EventIdsWrapped()) {
            ScanType::Nop
        } else if self.spec_contains(EventFlag::RootChanged()) {
            ScanType::ReScan
        } else if self.spec_event_type() == EventType::Dir {
            ScanType::Folder
        } else {
            ScanType::SingleNode
        }
    }

    pub fn event_type(&self) -> (r: EventType)
        ensures
            r == self.spec_event_type(),
    {
        if self.contains(EventFlag::IsHardlink()) || self.contains(EventFlag::IsLastHardlink()) {
            EventType::Hardlink
        } else if self.contains(EventFlag::ItemIsSymlink()) {
            EventType::Symlink
        } else if self.contains(EventFlag::ItemIsDir()) {
            EventType::Dir
        } else if self.contains(EventFlag::ItemIsFile()) {
            EventType::File
        } else {
            EventType::Unknown
        }
    }

    pub fn scan_type(&self) -> (r: ScanType)
        ensures
            r == self.spec_scan_type(),
    {
        let event_type = self.event_type();
        let is_dir = match event_type {
            EventType::Dir => true,
            _ => false,
        };
        if self.contains(EventFlag::HistoryDone()) || self.contains(EventFlag::EventIdsWrapped()) {
            ScanType::Nop
        } else if self.contains(EventFlag::RootChanged()) {
            ScanType::ReScan
        } else {
            if is_dir {
                ScanType::Folder
            } else {
                ScanType::SingleNode
            }
        }
    }
}

impl vstd::std_specs::ops::BitOrSpecImpl for EventFlag {
    open spec fn obeys_bitor_spec() -> bool {
        true
    }

    open spec fn bitor_req(self, rhs: EventFlag) -> bool {
        true
    }

    open spec fn bitor_spec(self, rhs: EventFlag) -> EventFlag {
        EventFlag { bits: self.bits | rhs.bits }
    }
}

impl core::ops::BitOr for EventFlag {
    type Output = EventFlag;

    fn bitor(self, rhs: EventFlag) -> EventFlag {
        EventFlag { bits: self.bits | rhs.bits }
    }
}


/// The inotify event mask bits (`IN_*` of `<sys/inotify.h>`).
pub const IN_ACCESS: u32 = 0x1;
pub const IN_MODIFY: u32 = 0x2;
pub const IN_ATTRIB: u32 = 0x4;
pub const IN_CLOSE_WRITE: u32 = 0x8;
pub const IN_MOVED_FROM: u32 = 0x40;
pub const IN_MOVED_TO: u32 = 0x80;
pub const IN_CREATE: u32 = 0x100;
pub const IN_DELETE: u32 = 0x200;
pub const IN_DELETE_SELF: u32 = 0x400;
pub const IN_MOVE_SELF: u32 = 0x800;
pub const IN_ISDIR: u32 = 0x4000_0000;

pub open spec fn bit_if(cond: bool, bit: u32) -> u32 {
    if cond {
        bit
    } else {
        0
    }
}

pub open spec fn has(mask: u32, bit: u32) -> bool {
    mask & bit == bit
}

/// The flags of an inotify event mask: access, modification and
/// close-after-write count as modified; attribute changes as metadata
/// changes; moves as renames; creation as created; deletion as removed;
/// and the node is a directory when `IN_ISDIR` is set, else a file.
pub open spec fn spec_from_inotify_mask(mask: u32) -> u32 {
    bit_if(has(mask, IN_ACCESS) || has(mask, IN_MODIFY) || has(mask, IN_CLOSE_WRITE), 0x1000)
        | bit_if(has(mask, IN_ATTRIB), 0x400)
        | bit_if(has(mask, IN_MOVED_FROM) || has(mask, IN_MOVED_TO) || has(mask, IN_MOVE_SELF), 0x800)
        | bit_if(has(mask, IN_CREATE), 0x100)
        | bit_if(has(mask, IN_DELETE) || has(mask, IN_DELETE_SELF), 0x200)
        | if has(mask, IN_ISDIR) { 0x20000u32 } else { 0x10000u32 }
}

impl EventFlag {
    /// Translates the mask of an inotify event into event flags.
    pub fn from_inotify_mask(mask: u32) -> (r: EventFlag)
        ensures
            r.bits == spec_from_inotify_mask(mask),
    {
        let modified: u32 = if mask & IN_ACCESS == IN_ACCESS || mask & IN_MODIFY == IN_MODIFY
            || mask & IN_CLOSE_WRITE == IN_CLOSE_WRITE {
            0x1000
        } else {
            0
        };
        let attrib: u32 = if mask & IN_ATTRIB == IN_ATTRIB {
            0x400
        } else {
            0
        };
        let renamed: u32 = if mask & IN_MOVED_FROM == IN_MOVED_FROM || mask & IN_MOVED_TO == IN_MOVED_TO
            || mask & IN_MOVE_SELF == IN_MOVE_SELF {
            0x800
        } else {
            0
        };
        let created: u32 = if mask & IN_CREATE == IN_CREATE {
            0x100
        } else {
            0
        };
        let removed: u32 = if mask & IN_DELETE == IN_DELETE || mask & IN_DELETE_SELF == IN_DELETE_SELF {
            0x200
        } else {
            0
        };
        let kind: u32 = if mask & IN_ISDIR == IN_ISDIR {
            0x20000
        } else {
            0x10000
        };
        let bits: u32 = modified | attrib | renamed | created | removed | kind;
        EventFlag { bits }
    }
}

/// The kind of node an event is about.
#[derive(Debug, Clone, Copy, PartialEq, Eq, Structural)]
pub enum EventType {
    Unknown,
    File,
    Dir,
    Symlink,
    Hardlink,
}

/// What an event asks to rescan.
#[derive(Debug, Clone, Copy, PartialEq, Eq, Structural)]
pub enum ScanType {
    /// Scan a single node
    SingleNode,
    /// Scan the whole folder, including sub-folders.
    Folder,
    /// Something wrong happened, do re-indexing.
    ReScan,
    /// Do nothing, since event id is always updated.
    Nop,
}

} // verus!
