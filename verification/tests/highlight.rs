use cardinal_search::highlight::{compare_text, literal_chunks, HighlightCollector, TextOrder};

fn words_of(values: &[&str]) -> Vec<String> {
    let mut collector = HighlightCollector::default();
    for value in values {
        collector.collect_text(value);
    }
    collector.into_terms()
}

#[test]
fn literal_chunks_of_plain_word() {
    assert_eq!(literal_chunks("  report  "), vec!["report"]);
}

#[test]
fn literal_chunks_cut_at_wildcards() {
    assert_eq!(literal_chunks("*test?file*.txt"), vec!["test", "file", ".txt"]);
    assert_eq!(literal_chunks("he*lo"), vec!["he", "lo"]);
    assert_eq!(literal_chunks("* test *"), vec!["test"]);
}

#[test]
fn literal_chunks_of_wildcards_only_is_empty() {
    assert!(literal_chunks("***???***").is_empty());
    assert!(literal_chunks("*").is_empty());
    assert!(literal_chunks("   ").is_empty());
    assert!(literal_chunks("").is_empty());
}

#[test]
fn compare_text_orders_like_str() {
    assert_eq!(compare_text("aaa", "bbb"), TextOrder::Less);
    assert_eq!(compare_text("abc", "abc"), TextOrder::Equal);
    assert_eq!(compare_text("abcd", "abc"), TextOrder::Greater);
    assert_eq!(compare_text("", "a"), TextOrder::Less);
    assert_eq!(compare_text("z", "é"), TextOrder::Less);
}

#[test]
fn collect_text_lowercases_and_dedups() {
    assert_eq!(words_of(&["Test", "TEST", "test", "TeSt"]), vec!["test"]);
    assert_eq!(words_of(&["RePoRt"]), vec!["report"]);
}

#[test]
fn collect_text_keeps_sorted_order() {
    assert_eq!(words_of(&["zebra", "apple", "monkey", "banana"]), vec!["apple", "banana", "monkey", "zebra"]);
    assert_eq!(words_of(&["hello", "世界", "test"]), vec!["hello", "test", "世界"]);
}

#[test]
fn collect_text_wildcards() {
    assert_eq!(words_of(&["*.txt"]), vec![".txt"]);
    assert_eq!(words_of(&["file?.txt"]), vec![".txt", "file"]);
    assert_eq!(words_of(&["*hello*world*"]), vec!["hello", "world"]);
    assert_eq!(words_of(&["test_*_file"]), vec!["_file", "test_"]);
    assert_eq!(words_of(&["file.*"]), vec!["file."]);
    assert!(words_of(&["*"]).is_empty());
    assert!(words_of(&["?"]).is_empty());
    assert!(words_of(&["   "]).is_empty());
}

#[test]
fn collect_text_takes_last_path_segment() {
    assert_eq!(words_of(&["src/*/test.rs"]), vec!["test.rs"]);
    assert_eq!(words_of(&["src/main.rs"]), vec!["main.rs"]);
    assert!(words_of(&["src/**"]).is_empty());
}

#[test]
fn collect_text_falls_back_to_whole_value() {
    // the last segment is a bare wildcard: the whole value's runs count
    assert_eq!(words_of(&["docs/*"]), vec!["docs/"]);
}

#[test]
fn collect_text_unicode() {
    assert_eq!(words_of(&["test🔥file"]), vec!["test🔥file"]);
    assert_eq!(words_of(&["*你好*"]), vec!["你好"]);
    assert_eq!(words_of(&["ПРИВЕТ"]), vec!["привет"]);
}
