use cardinal_search::event_flag::{EventFlag, ScanType};
use cardinal_search::event_flag::{IN_CREATE, IN_ISDIR, IN_MODIFY};
use cardinal_search::fs_event::{events_from_inotify, rescan_needed, FsEvent};

fn event(path: &str, flag: EventFlag) -> FsEvent {
    FsEvent { path: path.to_string(), flag, id: 7 }
}

#[test]
fn root_changed_always_rescans() {
    let e = event("/somewhere/else", EventFlag::RootChanged());
    assert!(e.should_rescan("/watched"));
}

#[test]
fn history_done_never_rescans() {
    let e = event("/watched", EventFlag::HistoryDone());
    assert!(!e.should_rescan("/watched"));
}

#[test]
fn change_at_root_rescans() {
    let e = event("/watched", EventFlag::ItemCreated() | EventFlag::ItemIsDir());
    assert!(e.should_rescan("/watched"));
    let f = event("/watched/file", EventFlag::ItemCreated() | EventFlag::ItemIsFile());
    assert!(!f.should_rescan("/watched"));
}

#[test]
fn rescan_needed_table() {
    assert!(rescan_needed(ScanType::ReScan, false));
    assert!(rescan_needed(ScanType::Folder, true));
    assert!(rescan_needed(ScanType::SingleNode, true));
    assert!(!rescan_needed(ScanType::SingleNode, false));
    assert!(!rescan_needed(ScanType::Nop, true));
}

#[test]
fn inotify_records_become_numbered_events() {
    let records = vec![
        (IN_CREATE, Some("a.txt".to_string())),
        (IN_MODIFY, None),
        (IN_CREATE | IN_ISDIR, Some("dir".to_string())),
    ];
    let (events, count) = events_from_inotify(records, 10);
    assert_eq!(count, 13);
    assert_eq!(events.len(), 2);
    assert_eq!(events[0].id, 11);
    assert_eq!(events[0].path, "a.txt");
    assert_eq!(events[0].flag.bits, EventFlag::from_inotify_mask(IN_CREATE).bits);
    assert_eq!(events[1].id, 13);
    assert_eq!(events[1].path, "dir");
    assert!(events[1].flag.contains(EventFlag::ItemIsDir()));
}

#[test]
fn node_event_at_root_compares_paths_by_components() {
    let e = event("/watched/", EventFlag::ItemCreated() | EventFlag::ItemIsDir());
    assert!(e.should_rescan("/watched"));
    let f = event("/watched//", EventFlag::ItemRemoved() | EventFlag::ItemIsFile());
    assert!(f.should_rescan("/watched"));
    let g = event("/watched/sub", EventFlag::ItemRemoved() | EventFlag::ItemIsDir());
    assert!(!g.should_rescan("/watched"));
}
