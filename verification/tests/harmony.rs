use cardinal_search::harmony::{ensure_ready, node_info, result_indices, LifecycleState};
use cardinal_search::nodes::{SlabIndex, SlabNodeMetadata};
use cardinal_search::type_and_size::NodeFileType;

#[test]
fn only_a_ready_backend_serves() {
    assert_eq!(ensure_ready(LifecycleState::Ready), Ok(()));
    assert_eq!(
        ensure_ready(LifecycleState::Indexing),
        Err("Backend not ready. Current state: INDEXING".to_string())
    );
    assert_eq!(
        ensure_ready(LifecycleState::Uninitialized),
        Err("Backend not ready. Current state: UNINITIALIZED".to_string())
    );
}

#[test]
fn result_indices_truncate_and_drop_cancelled() {
    assert!(result_indices(None).is_empty());
    let r = result_indices(Some(vec![SlabIndex::new(5), SlabIndex::new((1usize << 32) + 7)]));
    assert_eq!(r, vec![5, 7]);
}

#[test]
fn harmony_node_info_without_metadata() {
    let info = node_info("/p".to_string(), &None, None);
    assert_eq!(info.path, "/p");
    let m = info.metadata.unwrap();
    assert_eq!(m.size, -1);
    assert_eq!(m.file_type, 0);
    assert!(info.icon.is_none());
}

#[test]
fn harmony_node_info_with_icon() {
    let meta = Some(SlabNodeMetadata { file_type: NodeFileType::Dir, size: 1, ctime: None, mtime: Some(9) });
    let info = node_info("/d".to_string(), &meta, Some(b"hi".to_vec()));
    assert_eq!(info.icon.unwrap(), "data:image/png;base64,aGk=");
    let m = info.metadata.unwrap();
    assert_eq!(m.mtime, 9);
    assert_eq!(m.ctime, 0);
}
