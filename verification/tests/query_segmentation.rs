use cardinal_search::query_segmentation::{query_segmentation, Segment, SegmentConcrete};

#[test]
fn test_query_segmentation() {
    assert_eq!(
        query_segmentation("elloworl"),
        vec![Segment::substr("elloworl")]
    );
    assert_eq!(query_segmentation("**"), vec![Segment::GlobStar]);
    assert_eq!(query_segmentation("/root"), vec![Segment::prefix("root")]);
    assert_eq!(query_segmentation("root/"), vec![Segment::suffix("root")]);
    assert_eq!(query_segmentation("/root/"), vec![Segment::exact("root")]);
    assert_eq!(
        query_segmentation("/root/bar"),
        vec![Segment::exact("root"), Segment::prefix("bar")]
    );
    assert_eq!(
        query_segmentation("/root/bar/kksk"),
        vec![
            Segment::exact("root"),
            Segment::exact("bar"),
            Segment::prefix("kksk")
        ]
    );
    assert_eq!(
        query_segmentation("foo/bar/kks"),
        vec![
            Segment::suffix("foo"),
            Segment::exact("bar"),
            Segment::prefix("kks")
        ]
    );
    assert_eq!(
        query_segmentation("foo/**/bar"),
        vec![
            Segment::suffix("foo"),
            Segment::GlobStar,
            Segment::prefix("bar")
        ]
    );
    assert_eq!(
        query_segmentation("gaea/lil/bee/"),
        vec![
            Segment::suffix("gaea"),
            Segment::exact("lil"),
            Segment::exact("bee")
        ]
    );
    assert_eq!(
        query_segmentation("bab/bob/"),
        vec![Segment::suffix("bab"), Segment::exact("bob")]
    );
    assert_eq!(
        query_segmentation("/byb/huh/good/"),
        vec![
            Segment::exact("byb"),
            Segment::exact("huh"),
            Segment::exact("good")
        ]
    );
}

#[test]
fn test_query_segmentation_edge_cases() {
    // Empty string
    assert_eq!(query_segmentation(""), vec![]);

    // Single slash
    assert_eq!(query_segmentation("/"), vec![]);

    // Multiple slashes
    assert_eq!(query_segmentation("///"), vec![]);

    // Globstar mixing
    assert_eq!(
        query_segmentation("/**/foo"),
        vec![Segment::GlobStar, Segment::prefix("foo")]
    );
    assert_eq!(
        query_segmentation("foo/**"),
        vec![Segment::suffix("foo"), Segment::GlobStar]
    );

    // Leading and trailing slashes
    assert_eq!(query_segmentation("/a/"), vec![Segment::exact("a")]);

    // Single character
    assert_eq!(query_segmentation("a"), vec![Segment::substr("a")]);

    // Single character with slash
    assert_eq!(query_segmentation("/a"), vec![Segment::prefix("a")]);
    assert_eq!(query_segmentation("a/"), vec![Segment::suffix("a")]);

    // Mixed slashes and empty segments
    assert_eq!(query_segmentation("/a//b/"), vec![]);

    // Long string without slashes
    assert_eq!(
        query_segmentation("thisisaverylongstringwithoutslashes"),
        vec![Segment::substr("thisisaverylongstringwithoutslashes")]
    );

    // Long string with slashes
    assert_eq!(
        query_segmentation("/this/is/a/very/long/string/"),
        vec![
            Segment::exact("this"),
            Segment::exact("is"),
            Segment::exact("a"),
            Segment::exact("very"),
            Segment::exact("long"),
            Segment::exact("string")
        ]
    );

    // Two segments no leading/trailing slash => suffix + prefix
    assert_eq!(
        query_segmentation("foo/bar"),
        vec![Segment::suffix("foo"), Segment::prefix("bar")]
    );
    // Two segments trailing slash => suffix + exact
    assert_eq!(
        query_segmentation("foo/bar/"),
        vec![Segment::suffix("foo"), Segment::exact("bar")]
    );
    // Two segments leading slash => exact + prefix
    assert_eq!(
        query_segmentation("/foo/bar"),
        vec![Segment::exact("foo"), Segment::prefix("bar")]
    );
    // Unicode segments
    assert_eq!(
        query_segmentation("/报告/测试/"),
        vec![Segment::exact("报告"), Segment::exact("测试")]
    );
}

#[test]
fn segment_value_and_kind_accessors() {
    let segs = query_segmentation("foo/bar/");
    match segs[0] {
        Segment::Concrete(c) => {
            assert_eq!(c.as_value(), "foo");
            assert_eq!(c, SegmentConcrete::Suffix("foo"));
        }
        Segment::GlobStar => panic!("expected a concrete segment"),
    }
}

#[test]
fn globstar_alone_and_repeated() {
    assert_eq!(query_segmentation("/**/"), vec![Segment::GlobStar]);
    assert_eq!(
        query_segmentation("**/**"),
        vec![Segment::GlobStar, Segment::GlobStar]
    );
    // three stars are plain text
    assert_eq!(query_segmentation("***"), vec![Segment::substr("***")]);
}
