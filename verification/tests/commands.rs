use cardinal_search::commands::{icon_data_url, node_info, nodes_info, search_response};
use cardinal_search::nodes::{SlabIndex, SlabNodeMetadata};
use cardinal_search::type_and_size::NodeFileType;

#[test]
fn icon_data_url_encodes_base64() {
    assert_eq!(icon_data_url(&b"hello".to_vec()), "data:image/png;base64,aGVsbG8=");
    assert_eq!(icon_data_url(&b"abc".to_vec()), "data:image/png;base64,YWJj");
    assert_eq!(icon_data_url(&b"ab".to_vec()), "data:image/png;base64,YWI=");
    assert_eq!(icon_data_url(&vec![0xff, 0xfe]), "data:image/png;base64,//4=");
    assert_eq!(icon_data_url(&Vec::new()), "data:image/png;base64,");
}

#[test]
fn node_info_carries_path_and_metadata() {
    let meta = SlabNodeMetadata { file_type: NodeFileType::File, size: 42, ctime: Some(7), mtime: None };
    let info = node_info("/a/b".to_string(), Some(meta), true);
    assert_eq!(info.path, "/a/b");
    let m = info.metadata.unwrap();
    assert_eq!(m.size, 42);
    assert_eq!(m.ctime, 7);
    assert_eq!(m.mtime, 0);
    assert!(info.icon.is_none());
}

#[test]
fn nodes_info_keeps_order() {
    let infos = nodes_info(vec![("/x".to_string(), None), ("/y".to_string(), None)], None);
    assert_eq!(infos.len(), 2);
    assert_eq!(infos[0].path, "/x");
    assert_eq!(infos[1].path, "/y");
    assert!(infos[1].metadata.is_none());
}

#[test]
fn cancelled_search_answers_nothing() {
    let r = search_response(None, vec!["a".to_string()]);
    assert!(r.results.is_empty());
    assert_eq!(r.highlights, vec!["a"]);
    let r = search_response(Some(vec![SlabIndex::new(3)]), Vec::new());
    assert_eq!(r.results.len(), 1);
    assert_eq!(r.results[0].get(), 3);
}
