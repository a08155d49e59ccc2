use cardinal_search::cache_line::CacheLine;
use cardinal_search::name_pool::NamePool;

#[test]
fn test_new() {
    let mut pool = NamePool::<1024>::new();
    assert_eq!(pool.num_lines(), 1);
    assert_eq!(pool.len(), 1);
}

#[test]
fn test_push_basic() {
    let mut pool = NamePool::<1024>::new();
    let (line_num, offset) = pool.push("hello");
    assert!(line_num < pool.num_lines());
    let s = pool.get(line_num, offset);
    assert_eq!(s, "hello");
}

#[test]
fn test_push_multiple() {
    let mut pool = NamePool::<1024>::new();
    let (line_num1, offset1) = pool.push("foo");
    let (line_num2, offset2) = pool.push("bar");
    let (line_num3, offset3) = pool.push("baz");
    assert!(line_num1 < pool.num_lines());
    assert!(line_num2 < pool.num_lines());
    assert!(line_num3 < pool.num_lines());
    let s1 = pool.get(line_num1, offset1);
    let s2 = pool.get(line_num2, offset2);
    let s3 = pool.get(line_num3, offset3);
    assert_eq!(s1, "foo");
    assert_eq!(s2, "bar");
    assert_eq!(s3, "baz");
}

#[test]
fn test_push_empty_string() {
    let mut pool = NamePool::<1024>::new();
    let (line_num, offset) = pool.push("");
    assert!(line_num < pool.num_lines());
    let s = pool.get(line_num, offset);
    assert_eq!(s, "");
}

#[test]
fn test_push_unicode() {
    let mut pool = NamePool::<1024>::new();
    let (line_num, offset) = pool.push("こんにちは");
    assert!(line_num < pool.num_lines());
    let s = pool.get(line_num, offset);
    assert_eq!(s, "こんにちは");
}

#[test]
fn test_search_substr() {
    let mut pool = NamePool::<1024>::new();
    pool.push("hello");
    pool.push("world");
    pool.push("hello world");
    pool.push("hello world hello");

    let substr = "hello";
    let result = pool.search_substr(substr);
    assert_eq!(result.len(), 3);
    assert!(result.contains(&"hello"));
    assert!(result.contains(&"hello world"));
    assert!(result.contains(&"hello world hello"));
}

#[test]
fn test_search_subslice() {
    let mut pool = NamePool::<1024>::new();
    pool.push("hello");
    pool.push("world");
    pool.push("hello world");
    pool.push("hello world hello");

    let subslice = b"world";
    let result = pool.search_subslice(subslice);
    assert_eq!(result.len(), 3);
    assert!(result.contains(&"world"));
    assert!(result.contains(&"hello world"));
    assert!(result.contains(&"hello world hello"));
}

#[test]
fn test_search_suffix() {
    let mut pool = NamePool::<1024>::new();
    pool.push("hello");
    pool.push("world");
    pool.push("hello world");
    pool.push("hello world hello");

    let suffix = b"world\0";
    let result = pool.search_suffix(suffix);
    assert_eq!(result.len(), 2);
    assert!(result.contains(&"world"));
    assert!(result.contains(&"hello world"));
}

#[test]
fn test_search_prefix() {
    let mut pool = NamePool::<1024>::new();
    pool.push("hello");
    pool.push("world");
    pool.push("hello world");
    pool.push("hello world hello");

    let prefix = b"\0hello";
    let result = pool.search_prefix(prefix);
    assert_eq!(result.len(), 3);
    assert!(result.contains(&"hello"));
    assert!(result.contains(&"hello world"));
    assert!(result.contains(&"hello world hello"));
}

#[test]
fn test_search_exact() {
    let mut pool = NamePool::<1024>::new();
    pool.push("hello");
    pool.push("world");
    pool.push("hello world");

    let exact = b"\0hello\0";
    let result = pool.search_exact(exact);
    assert_eq!(result.len(), 1);
    assert_eq!(result[0], "hello");

    let exact = b"\0world\0";
    let result = pool.search_exact(exact);
    assert_eq!(result.len(), 1);
    assert_eq!(result[0], "world");
}

#[test]
fn test_search_nonexistent() {
    let mut pool = NamePool::<1024>::new();
    pool.push("hello");
    pool.push("world");

    let substr = "nonexistent";
    let result = pool.search_substr(substr);
    assert!(result.is_empty());

    let subslice = b"nonexistent";
    let result = pool.search_subslice(subslice);
    assert!(result.is_empty());
}

#[test]
fn test_search_partial_match() {
    let mut pool = NamePool::<1024>::new();
    pool.push("hello");
    pool.push("world");
    pool.push("hell");

    let substr = "hell";
    let result = pool.search_substr(substr);
    assert_eq!(result.len(), 2);
    assert!(result.contains(&"hello"));
    assert!(result.contains(&"hell"));
}

#[test]
fn test_search_unicode() {
    let mut pool = NamePool::<1024>::new();
    pool.push("こんにちは");
    pool.push("世界");
    pool.push("こんにちは世界");

    let substr = "世界";
    let result = pool.search_substr(substr);
    assert_eq!(result.len(), 2);
    assert!(result.contains(&"世界"));
    assert!(result.contains(&"こんにちは世界"));
}

#[test]
fn test_search_prefix_nonexistent() {
    let mut pool = NamePool::<1024>::new();
    pool.push("hello");
    pool.push("world");

    let prefix = b"\0nonexistent";
    let result = pool.search_prefix(prefix);
    assert!(result.is_empty());
}

#[test]
fn test_search_exact_nonexistent() {
    let mut pool = NamePool::<1024>::new();
    pool.push("hello");
    pool.push("world");

    let exact = b"\0nonexistent\0";
    let result = pool.search_exact(exact);
    assert!(result.is_empty());
}

#[test]
fn test_cacheline_push() {
    const CAPACITY: usize = 4 * 1024 * 1024;
    let mut cl = CacheLine::<CAPACITY>::new();
    assert_eq!(cl.len(), 1);
    let p1 = cl.push("aaa").unwrap();
    assert_eq!(cl.len(), 5);
    assert_eq!(cl.get(p1).1, "aaa");
    let p2 = cl.push("bbb").unwrap();
    assert_eq!(cl.len(), 9);
    assert_eq!(cl.get(p2).1, "bbb");
}

#[test]
fn test_cacheline_max() {
    let mut cl = CacheLine::<9>::new();
    assert_eq!(cl.len(), 1);
    let p1 = cl.push("aaa").unwrap();
    assert_eq!(cl.len(), 5);
    assert_eq!(cl.get(p1).1, "aaa");
    let p2 = cl.push("bbb").unwrap();
    assert_eq!(cl.len(), 9);
    assert_eq!(cl.get(p2).1, "bbb");
    assert!(cl.push("").is_none());
    assert!(cl.push("c").is_none());
    assert!(cl.push("cc").is_none());
}

#[test]
fn test_cacheline_full() {
    let mut cl = CacheLine::<4000>::new();
    let mut last_ptr = None;
    for i in 0.. {
        let name = format!("name{}", i);
        if let Some(p) = cl.push(&name) {
            last_ptr = Some((p, name));
        } else {
            break;
        }
    }
    assert!(last_ptr.is_some());
    let (p, name) = last_ptr.unwrap();
    assert_eq!(cl.get(p).1, name);
    assert!(cl.push(&(name + "!")).is_none());
}

#[test]
fn names_stay_where_they_were_put() {
    let mut pool = NamePool::<16>::new();
    let a = pool.push("alpha");
    let b = pool.push("beta");
    let c = pool.push("gamma");
    let d = pool.push("delta");
    // a 16-byte line holds "\0alpha\0beta\0" and no more
    assert_eq!(a, (0, 1));
    assert_eq!(b, (0, 7));
    assert_eq!(c, (1, 1));
    assert_eq!(d, (1, 7));
    assert_eq!(pool.num_lines(), 2);
    assert_eq!(pool.get(a.0, a.1), "alpha");
    assert_eq!(pool.get(b.0, b.1), "beta");
    assert_eq!(pool.get(c.0, c.1), "gamma");
    assert_eq!(pool.get(d.0, d.1), "delta");
    assert_eq!(pool.len(), 12 + 13);
}

#[test]
fn search_spans_lines_in_order() {
    let mut pool = NamePool::<16>::new();
    pool.push("alpha");
    pool.push("beta");
    pool.push("alphabet");
    assert_eq!(pool.search_substr("alpha"), vec!["alpha", "alphabet"]);
    assert_eq!(pool.search_exact(b"\0beta\0"), vec!["beta"]);
    assert_eq!(pool.search_prefix(b"\0alp"), vec!["alpha", "alphabet"]);
    assert_eq!(pool.search_suffix(b"bet\0"), vec!["alphabet"]);
}

#[test]
fn repeated_occurrence_reports_a_name_once() {
    let mut pool = NamePool::<64>::new();
    pool.push("aXaXa");
    pool.push("b");
    assert_eq!(pool.search_substr("a"), vec!["aXaXa"]);
    assert_eq!(pool.search_subslice(b"X"), vec!["aXaXa"]);
}

#[test]
fn cacheline_get_between_names() {
    let mut cl = CacheLine::<32>::new();
    let p = cl.push("abc").unwrap();
    let q = cl.push("de").unwrap();
    assert_eq!(cl.get(p), (4, "abc"));
    assert_eq!(cl.get(p + 2), (4, "abc"));
    assert_eq!(cl.get(q), (7, "de"));
    // the zero guard itself reads as the empty name before it
    assert_eq!(cl.get(0), (0, ""));
    // past the used part the zeros read as empty names
    assert_eq!(cl.get(20), (20, ""));
    assert_eq!(cl.get(32), (32, ""));
}

#[test]
fn cacheline_zero_capacity_holds_nothing() {
    let mut cl = CacheLine::<0>::new();
    assert_eq!(cl.len(), 1);
    assert!(cl.push("").is_none());
}
