use cardinal_search::slab_tree::{SlabNode, SlabNodeData};
use slab::Slab;

fn node(parent: Option<usize>, name: &str) -> SlabNode {
    SlabNode { parent, children: Vec::new(), name: name.to_string() }
}

fn sample() -> (Slab<SlabNode>, usize, usize, usize) {
    let mut slab = Slab::new();
    let root = slab.insert(node(None, ""));
    let usr = slab.insert(node(Some(root), "usr"));
    let bin = slab.insert(node(Some(usr), "bin"));
    (slab, root, usr, bin)
}

#[test]
fn path_of_nested_node() {
    let (slab, _root, _usr, bin) = sample();
    let ls = node(Some(bin), "ls");
    assert_eq!(ls.path(&slab), "/usr/bin/ls");
    assert_eq!(slab[bin].path(&slab), "/usr/bin");
}

#[test]
fn path_of_top_level_node() {
    let (slab, _root, usr, _bin) = sample();
    assert_eq!(slab[usr].path(&slab), "/usr");
}

#[test]
fn path_of_root_is_a_slash() {
    let (slab, root, _usr, _bin) = sample();
    assert_eq!(slab[root].path(&slab), "/");
}

#[test]
fn checked_path_refuses_dangling_parent() {
    let (slab, _root, _usr, _bin) = sample();
    let orphan = node(Some(42), "x");
    assert_eq!(orphan.checked_path(&slab), None);
    let ls = node(Some(2), "ls");
    assert_eq!(ls.checked_path(&slab), Some("/usr/bin/ls".to_string()));
}

#[test]
fn checked_path_refuses_cycle() {
    let mut slab = Slab::new();
    let a = slab.insert(node(Some(1), "a"));
    let _b = slab.insert(node(Some(a), "b"));
    let leaf = node(Some(a), "leaf");
    assert_eq!(leaf.checked_path(&slab), None);
}

#[test]
fn slab_node_data_takes_times() {
    let d = SlabNodeData::new("f".to_string(), Some((Some(1), None)));
    assert_eq!(d.name, "f");
    assert_eq!(d.ctime, Some(1));
    assert_eq!(d.mtime, None);
    let e = SlabNodeData::new("g".to_string(), None);
    assert_eq!(e.ctime, None);
    assert_eq!(e.mtime, None);
}
