use cardinal_search::name_match::{match_node_basic, match_node_with_path, match_wildcard_static, NameExpr, NameTerm};
use cardinal_search::query_segmentation::query_segmentation;
use cardinal_search::segment::{build_segment_matchers, SearchOptions};

fn word(w: &str) -> NameExpr {
    NameExpr::Term(NameTerm::Word(w.to_string()))
}

#[test]
fn test_match_node_basic_simple() {
    let expr = word("test");
    assert!(match_node_basic(&expr, "test_file", false));
    assert!(match_node_basic(&expr, "my_test", false));
    assert!(!match_node_basic(&expr, "other", false));
}

#[test]
fn test_match_node_basic_case_insensitive() {
    let expr = word("TEST");
    assert!(match_node_basic(&expr, "test_file", true));
    assert!(match_node_basic(&expr, "TEST_FILE", true));
}

#[test]
fn test_match_node_with_path() {
    let expr = word("test");
    assert!(match_node_with_path(&expr, "test_file", &[], None, false));
    assert!(match_node_with_path(&expr, "my_test", &[], None, false));
    assert!(!match_node_with_path(&expr, "other", &[], None, false));
}

#[test]
fn match_node_with_path_uses_matchers() {
    let matchers = build_segment_matchers(&query_segmentation("foo/bar"), SearchOptions::default()).unwrap();
    let expr = NameExpr::Empty;
    assert!(match_node_with_path(&expr, "bar", &["foo".to_string()], Some(matchers.as_slice()), false));
    assert!(!match_node_with_path(&expr, "bar", &["baz".to_string()], Some(matchers.as_slice()), false));
}

#[test]
fn wildcard_static_patterns() {
    assert!(match_wildcard_static("anything", "*"));
    assert!(match_wildcard_static("report.pdf", "*.pdf"));
    assert!(!match_wildcard_static("reportxpdf", "*.pdf"));
    assert!(match_wildcard_static("file1.txt", "file?.txt"));
    assert!(!match_wildcard_static("file12.txt", "file?.txt"));
    // an unbalanced bracket is no valid regex: nothing matches
    assert!(!match_wildcard_static("a[b", "a[*"));
}

#[test]
fn word_with_wildcard_matches_whole_name() {
    assert!(match_node_basic(&word("*.rs"), "lib.rs", false));
    assert!(!match_node_basic(&word("*.rs"), "lib.rs.bak", false));
    assert!(match_node_basic(&word("*.RS"), "lib.rs", true));
}

#[test]
fn ext_filter_checks_ending() {
    let ext = NameExpr::Term(NameTerm::Filter { is_ext: true, argument: Some("PDF".to_string()) });
    assert!(match_node_basic(&ext, "a.pdf", true));
    assert!(!match_node_basic(&ext, "a.pdf", false));
    assert!(!match_node_basic(&ext, "pdf", true));
    let other = NameExpr::Term(NameTerm::Filter { is_ext: false, argument: Some("pdf".to_string()) });
    assert!(!match_node_basic(&other, "a.pdf", false));
    let regex = NameExpr::Term(NameTerm::Regex("a.*".to_string()));
    assert!(!match_node_basic(&regex, "abc", false));
}

#[test]
fn boolean_combinations() {
    let both = NameExpr::And(vec![word("foo"), word("bar")]);
    assert!(match_node_basic(&both, "foobar", false));
    assert!(!match_node_basic(&both, "foo", false));
    let either = NameExpr::Or(vec![word("foo"), word("bar")]);
    assert!(match_node_basic(&either, "bar", false));
    assert!(!match_node_basic(&either, "baz", false));
    let not = NameExpr::Not(Box::new(word("foo")));
    assert!(match_node_basic(&not, "bar", false));
    assert!(!match_node_basic(&not, "foo", false));
    assert!(match_node_basic(&NameExpr::Empty, "x", false));
    assert!(match_node_basic(&NameExpr::And(Vec::new()), "x", false));
    assert!(!match_node_basic(&NameExpr::Or(Vec::new()), "x", false));
}
