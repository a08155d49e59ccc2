#![allow(non_upper_case_globals)]
use vstd::prelude::*;

verus! {

pub const kFSEventStreamEventFlagNone: u32 = 0x0;
pub const kFSEventStreamEventFlagMustScanSubDirs: u32 = 0x1;
pub const kFSEventStreamEventFlagUserDropped: u32 = 0x2;
pub const kFSEventStreamEventFlagKernelDropped: u32 = 0x4;
pub const kFSEventStreamEventFlagEventIdsWrapped: u32 = 0x8;
pub const kFSEventStreamEventFlagHistoryDone: u32 = 0x10;
pub const kFSEventStreamEventFlagRootChanged: u32 = 0x20;
pub const kFSEventStreamEventFlagMount: u32 = 0x40;
pub const kFSEventStreamEventFlagUnmount: u32 = 0x80;
pub const kFSEventStreamEventFlagItemCreated: u32 = 0x100;
pub const kFSEventStreamEventFlagItemRemoved: u32 = 0x200;
pub const kFSEventStreamEventFlagItemInodeMetaMod: u32 = 0x400;
pub const kFSEventStreamEventFlagItemRenamed: u32 = 0x800;
pub const kFSEventStreamEventFlagItemModified: u32 = 0x1000;
pub const kFSEventStreamEventFlagItemFinderInfoMod: u32 = 0x2000;
pub const kFSEventStreamEventFlagItemChangeOwner: u32 = 0x4000;
pub const kFSEventStreamEventFlagItemXattrMod: u32 = 0x8000;
pub const kFSEventStreamEventFlagItemIsFile: u32 = 0x10000;
pub const kFSEventStreamEventFlagItemIsDir: u32 = 0x20000;
pub const kFSEventStreamEventFlagItemIsSymlink: u32 = 0x40000;
pub const kFSEventStreamEventFlagOwnEvent: u32 = 0x80000;
pub const kFSEventStreamEventFlagItemIsHardlink: u32 = 0x100000;
pub const kFSEventStreamEventFlagItemIsLastHardlink: u32 = 0x200000;
pub const kFSEventStreamEventFlagItemCloned: u32 = 0x400000;

/// The raw flags FSEvents reports for an event.
#[derive(Debug, Clone, Copy, PartialEq, Eq, Structural)]
pub struct MacEventFlag {
    pub bits: u32,
}

impl MacEventFlag {
    /// The flags with the given bits, unknown bits dropped.
    pub fn from_bits_truncate(bits: u32) -> (r: MacEventFlag)
        ensures
            r.bits == bits & 0x7f_ffff,
    {
        MacEventFlag { bits: bits & 0x7f_ffff }
    }

    /// Every bit of `mask` is set.
    pub open spec fn spec_contains(self, mask: u32) -> bool {
        self.bits & mask == mask
    }

    pub fn contains(&self, mask: u32) -> (r: bool)
        ensures
            r == self.spec_contains(mask),
    {
        self.bits & mask == mask
    }
}

/// Abstract action of a file system event.
#[derive(Debug, Clone, Copy, PartialEq, Eq, PartialOrd, Ord, Structural)]
pub enum EventFlag {
    Create,
    Delete,
    Modify,
}

pub open spec fn is_delete(f: MacEventFlag) -> bool {
    f.spec_contains(kFSEventStreamEventFlagItemRemoved) || f.spec_contains(kFSEventStreamEventFlagUnmount)
}

pub open spec fn is_modify(f: MacEventFlag) -> bool {
    f.spec_contains(kFSEventStreamEventFlagItemInodeMetaMod) || f.spec_contains(kFSEventStreamEventFlagItemXattrMod)
        || f.spec_contains(kFSEventStreamEventFlagItemChangeOwner) || f.spec_contains(kFSEventStreamEventFlagItemFinderInfoMod)
        || f.spec_contains(kFSEventStreamEventFlagItemModified) || f.spec_contains(kFSEventStreamEventFlagItemRenamed)
        || f.spec_contains(kFSEventStreamEventFlagItemCloned)
}

/// Flags that would need a rescan of a directory, which this conversion
/// does not handle.
pub open spec fn needs_rescan(f: MacEventFlag) -> bool {
    f.spec_contains(kFSEventStreamEventFlagMustScanSubDirs) || f.spec_contains(kFSEventStreamEventFlagUserDropped)
        || f.spec_contains(kFSEventStreamEventFlagKernelDropped) || f.spec_contains(kFSEventStreamEventFlagEventIdsWrapped)
        || f.spec_contains(kFSEventStreamEventFlagMount)
}

/// Flags that cannot come while the root is watched without own events.
pub open spec fn is_unexpected(f: MacEventFlag) -> bool {
    f.spec_contains(kFSEventStreamEventFlagRootChanged) || f.spec_contains(kFSEventStreamEventFlagOwnEvent)
}

/// The action of an event: creation first, then deletion, then
/// modification; flags with none of them give the flags back.
pub open spec fn spec_event_action(f: MacEventFlag) -> Result<EventFlag, MacEventFlag> {
    if f.spec_contains(kFSEventStreamEventFlagItemCreated) {
        Ok(EventFlag::Create)
    } else if is_delete(f) {
        Ok(EventFlag::Delete)
    } else if is_modify(f) {
        Ok(EventFlag::Modify)
    } else {
        Err(f)
    }
}

impl EventFlag {
    /// The action of the raw flags. Flags with no action but asking for a
    /// directory rescan, or that cannot come while watching, are not
    /// handled.
    pub fn try_from(f: MacEventFlag) -> (r: Result<EventFlag, MacEventFlag>)
        requires
            spec_event_action(f) is Err ==> !needs_rescan(f) && !is_unexpected(f),
        ensures
            r == spec_event_action(f),
    {
        if f.contains(kFSEventStreamEventFlagItemCreated) {
            Ok(EventFlag::Create)
        } else if f.contains(kFSEventStreamEventFlagItemRemoved) || f.contains(kFSEventStreamEventFlagUnmount) {
            Ok(EventFlag::Delete)
        } else if f.contains(kFSEventStreamEventFlagItemInodeMetaMod) || f.contains(kFSEventStreamEventFlagItemXattrMod)
            || f.contains(kFSEventStreamEventFlagItemChangeOwner) || f.contains(kFSEventStreamEventFlagItemFinderInfoMod)
            || f.contains(kFSEventStreamEventFlagItemModified) || f.contains(kFSEventStreamEventFlagItemRenamed)
            || f.contains(kFSEventStreamEventFlagItemCloned) {
            Ok(EventFlag::Modify)
        } else {
            Err(f)
        }
    }
}

} // verus!
