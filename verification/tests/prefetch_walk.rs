use cardinal_search::name_match::{path_matchers_for, NameExpr, NameTerm};
use cardinal_search::segment::SearchOptions;
use cardinal_search::search_iterator::PrefetchMessage;
use cardinal_search::nodes::SlabIndex;
use cardinal_search::prefetch_walk::PrefetchWalk;

fn idx(v: &[usize]) -> Vec<SlabIndex> {
    v.iter().map(|&i| SlabIndex::new(i)).collect()
}

fn raw(v: &[SlabIndex]) -> Vec<usize> {
    v.iter().map(|i| i.get()).collect()
}

#[test]
fn walk_visits_children_in_order_and_batches() {
    // root 0 with children 1, 2; node 1 with child 3
    let mut walk = PrefetchWalk::new(SlabIndex::new(0), 2, 4);
    let root = walk.next_node().unwrap();
    assert_eq!(root.index.get(), 0);
    assert!(root.path.is_empty());
    let out = walk.visit(root.index, &root.path, "", &idx(&[1, 2]), true);
    assert!(out.send.is_none());
    assert!(!out.finished);
    assert_eq!(walk.current_pos, 0);
    assert_eq!(walk.matched_count, 0);

    let first = walk.next_node().unwrap();
    assert_eq!(first.index.get(), 1);
    assert_eq!(first.path, vec![String::new()]);
    let out = walk.visit(first.index, &first.path, "usr", &idx(&[3]), true);
    assert!(out.send.is_none());
    assert!(!out.finished);

    let deep = walk.next_node().unwrap();
    assert_eq!(deep.index.get(), 3);
    assert_eq!(deep.path, vec![String::new(), "usr".to_string()]);
    let out = walk.visit(deep.index, &deep.path, "bin", &Vec::new(), true);
    assert_eq!(raw(&out.send.unwrap()), vec![1, 3]);
    assert!(!out.finished);

    let last = walk.next_node().unwrap();
    assert_eq!(last.index.get(), 2);
    let out = walk.visit(last.index, &last.path, "etc", &Vec::new(), false);
    assert!(out.send.is_none());
    assert!(out.finished);
    assert_eq!(walk.matched_count, 2);
    assert_eq!(walk.current_pos, 3);
    assert!(walk.take_batch().is_empty());
    assert!(walk.next_node().is_none());
}

#[test]
fn finish_sends_rest_then_done_or_cancels() {
    let mut walk = PrefetchWalk::new(SlabIndex::new(0), 10, 5);
    let root = walk.next_node().unwrap();
    walk.visit(root.index, &root.path, "", &idx(&[4]), false);
    let n = walk.next_node().unwrap();
    walk.visit(n.index, &n.path, "a", &Vec::new(), true);
    let msgs = walk.finish(false);
    assert_eq!(msgs.len(), 2);
    match &msgs[0] {
        PrefetchMessage::Batch(v) => assert_eq!(raw(v), vec![4]),
        _ => panic!("expected a batch"),
    }
    assert!(matches!(msgs[1], PrefetchMessage::Done));
    let again = walk.finish(false);
    assert_eq!(again.len(), 1);
    assert!(matches!(again[0], PrefetchMessage::Done));
    let cancelled = walk.finish(true);
    assert_eq!(cancelled.len(), 1);
    assert!(matches!(cancelled[0], PrefetchMessage::Cancelled));
}

#[test]
fn visit_found_skips_missing_and_matches_names() {
    let expr = NameExpr::Term(NameTerm::Word("a".to_string()));
    let mut walk = PrefetchWalk::new(SlabIndex::new(0), 10, 4);
    let root = walk.next_node().unwrap();
    // the root matches nothing, even where its name would
    let out = walk
        .visit_found(&root, Some(("a".to_string(), idx(&[1, 2]))), &expr, None, false)
        .unwrap();
    assert!(out.send.is_none());
    assert_eq!(walk.matched_count, 0);
    let first = walk.next_node().unwrap();
    assert_eq!(first.index.get(), 1);
    assert!(walk.visit_found(&first, None, &expr, None, false).is_none());
    assert_eq!(walk.current_pos, 0);
    let second = walk.next_node().unwrap();
    walk.visit_found(&second, Some(("bar".to_string(), Vec::new())), &expr, None, false).unwrap();
    assert_eq!(walk.matched_count, 1);
    assert_eq!(raw(&walk.take_batch()), vec![2]);
}

#[test]
fn path_matchers_only_for_queries_with_a_slash() {
    let opts = SearchOptions::default();
    assert!(path_matchers_for("report", opts).is_none());
    let ms = path_matchers_for("docs/report", opts).unwrap();
    assert_eq!(ms.len(), 2);
    let expr = NameExpr::Empty;
    let mut walk = PrefetchWalk::new(SlabIndex::new(0), 10, 3);
    let root = walk.next_node().unwrap();
    walk.visit_found(&root, Some(("docs".to_string(), idx(&[5]))), &expr, Some(ms.as_slice()), false).unwrap();
    let child = walk.next_node().unwrap();
    walk.visit_found(&child, Some(("report.txt".to_string(), Vec::new())), &expr, Some(ms.as_slice()), false)
        .unwrap();
    assert_eq!(raw(&walk.take_batch()), vec![5]);
}
