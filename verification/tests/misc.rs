use cardinal_search::clock::{count_of, timestamp_of};
use cardinal_search::commands::{NodeInfoMetadata, SearchOptionsPayload, SearchResponse};
use cardinal_search::harmony::{self, LifecycleState};
use cardinal_search::icons::{icon_of_path_linux, icon_of_path_ns, icon_of_path_ql};
use cardinal_search::nodes::{SlabIndex, SlabNodeMetadata};
use cardinal_search::search_activity::{elapsed_since_last_search, search_idles};
use cardinal_search::segment::SearchOptions;
use cardinal_search::type_and_size::NodeFileType;
use cardinal_search::window_controls::{is_foreground, toggle_action, toggle_outcome, ToggleAction, WindowToggle};
use cardinal_search::disk_entry::FileType;

#[test]
fn lifecycle_state_numbers_and_names() {
    let all = [
        LifecycleState::Uninitialized,
        LifecycleState::Initializing,
        LifecycleState::Indexing,
        LifecycleState::Ready,
        LifecycleState::Updating,
        LifecycleState::Error,
    ];
    for (i, s) in all.iter().enumerate() {
        assert_eq!(s.as_u8(), i as u8);
        assert_eq!(LifecycleState::from_u8(i as u8), *s);
    }
    assert_eq!(LifecycleState::from_u8(6), LifecycleState::Uninitialized);
    assert_eq!(LifecycleState::from_u8(255), LifecycleState::Uninitialized);
    assert_eq!(LifecycleState::Ready.to_str(), "READY");
    assert_eq!(LifecycleState::Uninitialized.to_str(), "UNINITIALIZED");
    assert_eq!(LifecycleState::Error.to_str(), "ERROR");
}

#[test]
fn node_info_metadata_from_metadata() {
    let m = SlabNodeMetadata { file_type: NodeFileType::Symlink, size: 42, ctime: Some(7), mtime: None };
    let info = NodeInfoMetadata::from_metadata(m);
    assert_eq!(info, NodeInfoMetadata { file_type: 2, size: 42, ctime: 7, mtime: 0 });
    let h = harmony::NodeInfoMetadata::from_metadata(&Some(m));
    assert_eq!(h, harmony::NodeInfoMetadata { file_type: 2, size: 42, ctime: 7, mtime: 0 });
    let h = harmony::NodeInfoMetadata::from_metadata(&None);
    assert_eq!(h, harmony::NodeInfoMetadata { file_type: 0, size: -1, ctime: 0, mtime: 0 });
}

#[test]
fn search_options_from_payload() {
    let o: SearchOptions = SearchOptionsPayload { case_insensitive: true }.into();
    assert!(o.case_insensitive);
    let o: SearchOptions = SearchOptionsPayload::default().into();
    assert!(!o.case_insensitive);
    let r = SearchResponse::default();
    assert!(r.results.is_empty() && r.highlights.is_empty());
    assert_eq!(SlabIndex::new(5).get(), 5);
}

#[test]
fn icons_are_absent_on_linux() {
    assert!(icon_of_path_linux("/tmp").is_none());
    assert!(icon_of_path_ql("/tmp").is_none());
    assert!(icon_of_path_ns("/tmp").is_none());
}

#[test]
fn idle_after_five_minutes() {
    assert_eq!(elapsed_since_last_search(0, 1000), None);
    assert_eq!(elapsed_since_last_search(1000, 1500), Some(500));
    assert_eq!(elapsed_since_last_search(1000, 500), Some(0));
    assert!(!search_idles(0, u64::MAX));
    assert!(!search_idles(1000, 1000 + 299_999));
    assert!(search_idles(1000, 1000 + 300_000));
}

#[test]
fn window_toggle_decisions() {
    assert_eq!(toggle_action(true, false, true), ToggleAction::Hide);
    assert_eq!(toggle_action(true, true, true), ToggleAction::QuickLaunch);
    assert_eq!(toggle_action(false, false, true), ToggleAction::QuickLaunch);
    assert_eq!(toggle_outcome(ToggleAction::Hide, true), WindowToggle::Hidden);
    assert_eq!(toggle_outcome(ToggleAction::Hide, false), WindowToggle::Failed);
    assert_eq!(toggle_outcome(ToggleAction::QuickLaunch, false), WindowToggle::Shown);
    assert!(is_foreground(true, true, false));
    assert!(!is_foreground(true, true, true));
}

#[test]
fn disk_file_type_order() {
    assert_eq!(FileType::from_kind(true, true, false), FileType::Dir);
    assert_eq!(FileType::from_kind(false, true, true), FileType::File);
    assert_eq!(FileType::from_kind(false, false, true), FileType::Symlink);
    assert_eq!(FileType::from_kind(false, false, false), FileType::Unknown);
}

#[test]
fn clock_values_are_positive_now() {
    assert!(cardinal_search::clock::current_timestamp() > 1_600_000_000);
    assert!(cardinal_search::clock::unix_ms_now() > 1_600_000_000_000);
    let id = cardinal_search::clock::EventId::now_with_id(9);
    assert_eq!(id.since, 9);
    assert!(id.timestamp > 0);
}

#[test]
fn clock_readings_map_to_numbers() {
    assert_eq!(timestamp_of(Some(1_700_000_000)), 1_700_000_000);
    assert_eq!(timestamp_of(None), 0);
    assert_eq!(count_of(Some(1_700_000_000_123)), 1_700_000_000_123);
    assert_eq!(count_of(Some(u128::from(u64::MAX) + 5)), 4);
    assert_eq!(count_of(None), 0);
}
