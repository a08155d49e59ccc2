use cardinal_search::path_match::{match_path_segments, match_query_path};
use cardinal_search::query_segmentation::query_segmentation;
use cardinal_search::segment::{build_segment_matchers, SearchOptions};

#[test]
fn test_match_path_segments_simple() {
    let matchers =
        build_segment_matchers(&query_segmentation("foo/bar"), SearchOptions::default()).unwrap();
    assert!(match_path_segments(&matchers, &["foo".to_string()], "bar"));
    assert!(!match_path_segments(&matchers, &["baz".to_string()], "bar"));
    assert!(!match_path_segments(&matchers, &["foo".to_string()], "baz"));
}

#[test]
fn test_match_path_segments_globstar() {
    let matchers =
        build_segment_matchers(&query_segmentation("foo/**/bar"), SearchOptions::default())
            .unwrap();
    assert!(match_path_segments(&matchers, &["foo".to_string()], "bar"));
    assert!(match_path_segments(
        &matchers,
        &["foo".to_string(), "x".to_string()],
        "bar"
    ));
    assert!(match_path_segments(
        &matchers,
        &["foo".to_string(), "x".to_string(), "y".to_string()],
        "bar"
    ));
    assert!(!match_path_segments(
        &matchers,
        &["baz".to_string(), "x".to_string()],
        "bar"
    ));
}

#[test]
fn test_match_path_segments_wildcard() {
    let matchers =
        build_segment_matchers(&query_segmentation("*.rs"), SearchOptions::default()).unwrap();
    assert!(match_path_segments(&matchers, &[], "test.rs"));
    assert!(match_path_segments(&matchers, &[], "lib.rs"));
    assert!(!match_path_segments(&matchers, &[], "test.txt"));
}

#[test]
fn path_query_matches_any_run_of_components() {
    let path = ["home".to_string(), "user".to_string(), "docs".to_string()];
    assert_eq!(
        match_query_path("user/docs/", SearchOptions::default(), &path, "x.txt"),
        Some(false)
    );
    assert_eq!(
        match_query_path("user/docs/x", SearchOptions::default(), &path, "x.txt"),
        Some(true)
    );
    assert_eq!(
        match_query_path("/home/", SearchOptions::default(), &path, "x.txt"),
        Some(false)
    );
    assert_eq!(
        match_query_path("/home/**/x.txt/", SearchOptions::default(), &path, "x.txt"),
        Some(true)
    );
    let ci = SearchOptions { case_insensitive: true };
    let path2 = ["home".to_string(), "user".to_string()];
    assert_eq!(match_query_path("USER/Docs", ci, &path2, "docs"), Some(true));
    assert_eq!(match_query_path("USER/Docs", SearchOptions::default(), &path2, "docs"), Some(false));
    // meta characters are escaped, so the regex builds
    assert_eq!(match_query_path("(a", ci, &path2, "(a"), Some(true));
}


#[test]
fn globstar_spans_any_number_of_components() {
    let matchers =
        build_segment_matchers(&query_segmentation("foo/**/bar"), SearchOptions::default())
            .unwrap();
    // the globstar may pass over a component that the next matcher accepts
    assert!(match_path_segments(
        &matchers,
        &["foo".to_string(), "bar".to_string(), "x".to_string()],
        "bar"
    ));
    assert!(!match_path_segments(
        &matchers,
        &["foo".to_string(), "bar".to_string(), "x".to_string()],
        "baz"
    ));
    // a lone globstar matches everything
    let all = build_segment_matchers(&query_segmentation("**"), SearchOptions::default()).unwrap();
    assert!(match_path_segments(&all, &["a".to_string()], "b"));
    // a trailing concrete matcher still needs its component
    let tail = build_segment_matchers(&query_segmentation("/foo/**/bar/"), SearchOptions::default()).unwrap();
    assert!(!match_path_segments(&tail, &[], "foo"));
}
