use nix::sys::inotify::AddWatchFlags;
use cardinal_search::event_flag::{
    EventFlag, EventType, ScanType, IN_ATTRIB, IN_CLOSE_WRITE, IN_CREATE, IN_DELETE, IN_ISDIR,
    IN_MOVED_TO,
};
use cardinal_search::fsevent::{
    self, kFSEventStreamEventFlagItemCreated, kFSEventStreamEventFlagItemIsFile,
    kFSEventStreamEventFlagItemRemoved, kFSEventStreamEventFlagItemRenamed,
    kFSEventStreamEventFlagUnmount, MacEventFlag,
};

#[test]
fn test_event_type_deduction() {
    assert!(matches!(
        (EventFlag::ItemIsFile()).event_type(),
        EventType::File
    ));
    assert!(matches!(
        (EventFlag::ItemIsDir()).event_type(),
        EventType::Dir
    ));
    assert!(matches!(
        (EventFlag::ItemIsSymlink()).event_type(),
        EventType::Symlink
    ));
    assert!(matches!(
        (EventFlag::IsHardlink()).event_type(),
        EventType::Hardlink
    ));
    // Unknown when no type bits set
    assert!(matches!((EventFlag::empty()).event_type(), EventType::Unknown));
}

#[test]
fn test_scan_type_root_changed_and_history_done() {
    assert_eq!(EventFlag::RootChanged().scan_type(), ScanType::ReScan);
    assert_eq!(EventFlag::HistoryDone().scan_type(), ScanType::Nop);
}

#[test]
fn test_scan_type_created_removed_modified() {
    assert!(matches!(
        (EventFlag::ItemCreated() | EventFlag::ItemIsFile()).scan_type(),
        ScanType::SingleNode
    ));
    assert!(matches!(
        (EventFlag::ItemRemoved() | EventFlag::ItemIsDir()).scan_type(),
        ScanType::Folder
    ));
    assert!(matches!(
        (EventFlag::ItemRemoved() | EventFlag::ItemIsFile()).scan_type(),
        ScanType::SingleNode
    ));
    assert!(matches!(
        (EventFlag::ItemModified() | EventFlag::ItemIsFile()).scan_type(),
        ScanType::SingleNode
    ));
}

#[test]
fn test_scan_type_must_scan_subdirs() {
    assert!(matches!(
        (EventFlag::MustScanSubDirs() | EventFlag::ItemIsDir()).scan_type(),
        ScanType::Folder
    ));
}

#[test]
fn hardlink_wins_over_other_type_bits() {
    let f = EventFlag::IsLastHardlink() | EventFlag::ItemIsDir() | EventFlag::ItemIsFile();
    assert_eq!(f.event_type(), EventType::Hardlink);
    let f = EventFlag::ItemIsSymlink() | EventFlag::ItemIsDir();
    assert_eq!(f.event_type(), EventType::Symlink);
}

#[test]
fn ids_wrapped_is_nop_even_for_root_change() {
    let f = EventFlag::EventIdsWrapped() | EventFlag::RootChanged();
    assert_eq!(f.scan_type(), ScanType::Nop);
    let f = EventFlag::RootChanged() | EventFlag::ItemIsDir();
    assert_eq!(f.scan_type(), ScanType::ReScan);
}

#[test]
fn inotify_mask_translation() {
    // created file
    let f = EventFlag::from_inotify_mask(IN_CREATE);
    assert_eq!(f, EventFlag::ItemCreated() | EventFlag::ItemIsFile());
    // deleted directory
    let f = EventFlag::from_inotify_mask(IN_DELETE | IN_ISDIR);
    assert_eq!(f, EventFlag::ItemRemoved() | EventFlag::ItemIsDir());
    // close after write and attribute change
    let f = EventFlag::from_inotify_mask(IN_CLOSE_WRITE | IN_ATTRIB);
    assert_eq!(
        f,
        EventFlag::ItemModified() | EventFlag::ItemInodeMetaMod() | EventFlag::ItemIsFile()
    );
    // moves are renames
    let f = EventFlag::from_inotify_mask(IN_MOVED_TO);
    assert_eq!(f, EventFlag::ItemRenamed() | EventFlag::ItemIsFile());
    // nothing but the kind
    let f = EventFlag::from_inotify_mask(0);
    assert_eq!(f, EventFlag::ItemIsFile());
}

#[test]
fn mac_flags_to_actions() {
    let f = MacEventFlag::from_bits_truncate(
        kFSEventStreamEventFlagItemCreated | kFSEventStreamEventFlagItemRemoved,
    );
    assert_eq!(fsevent::EventFlag::try_from(f), Ok(fsevent::EventFlag::Create));
    let f = MacEventFlag::from_bits_truncate(kFSEventStreamEventFlagUnmount);
    assert_eq!(fsevent::EventFlag::try_from(f), Ok(fsevent::EventFlag::Delete));
    let f = MacEventFlag::from_bits_truncate(kFSEventStreamEventFlagItemRenamed);
    assert_eq!(fsevent::EventFlag::try_from(f), Ok(fsevent::EventFlag::Modify));
    let f = MacEventFlag::from_bits_truncate(kFSEventStreamEventFlagItemIsFile);
    assert_eq!(fsevent::EventFlag::try_from(f), Err(f));
    assert_eq!(MacEventFlag::from_bits_truncate(0xffff_ffff).bits, 0x7f_ffff);
}

#[test]
fn inotify_constants_match_the_kernel_abi() {
    assert_eq!(cardinal_search::event_flag::IN_ACCESS, AddWatchFlags::IN_ACCESS.bits());
    assert_eq!(cardinal_search::event_flag::IN_MODIFY, AddWatchFlags::IN_MODIFY.bits());
    assert_eq!(cardinal_search::event_flag::IN_ATTRIB, AddWatchFlags::IN_ATTRIB.bits());
    assert_eq!(cardinal_search::event_flag::IN_CLOSE_WRITE, AddWatchFlags::IN_CLOSE_WRITE.bits());
    assert_eq!(cardinal_search::event_flag::IN_MOVED_FROM, AddWatchFlags::IN_MOVED_FROM.bits());
    assert_eq!(cardinal_search::event_flag::IN_MOVED_TO, AddWatchFlags::IN_MOVED_TO.bits());
    assert_eq!(cardinal_search::event_flag::IN_CREATE, AddWatchFlags::IN_CREATE.bits());
    assert_eq!(cardinal_search::event_flag::IN_DELETE, AddWatchFlags::IN_DELETE.bits());
    assert_eq!(cardinal_search::event_flag::IN_DELETE_SELF, AddWatchFlags::IN_DELETE_SELF.bits());
    assert_eq!(cardinal_search::event_flag::IN_MOVE_SELF, AddWatchFlags::IN_MOVE_SELF.bits());
    assert_eq!(cardinal_search::event_flag::IN_ISDIR, AddWatchFlags::IN_ISDIR.bits());
}
