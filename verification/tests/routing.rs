use rusticore::match_route;

fn pairs(v: &[(&[u8], &[u8])]) -> Vec<(Vec<u8>, Vec<u8>)> {
    v.iter().map(|(k, val)| (k.to_vec(), val.to_vec())).collect()
}

#[test]
/// A placeholder binds its name to the path segment in its place, and the
/// query string is parsed into its pairs.
fn match_placeholder_and_query() {
    let m = match_route(b"/users/{id}", b"/users/42?key=value");
    assert!(m.matched);
    assert_eq!(m.path_params, pairs(&[(b"id", b"42")]));
    assert_eq!(m.query_params, pairs(&[(b"key", b"value")]));
}

#[test]
/// A segment-count mismatch is no match.
fn match_segment_count_mismatch() {
    let m = match_route(b"/a/b", b"/a/b/c");
    assert!(!m.matched);
    assert!(m.path_params.is_empty());
    assert!(m.query_params.is_empty());
}

#[test]
/// Literal segments must match exactly, case-sensitively.
fn match_literal_segments() {
    assert!(match_route(b"/a/b", b"/a/b").matched);
    assert!(!match_route(b"/a/b", b"/a/B").matched);
    assert!(!match_route(b"/a/b", b"/a/c").matched);
}

#[test]
/// One trailing slash is trimmed from both the template and the path.
fn match_trailing_slash() {
    assert!(match_route(b"/a/b/", b"/a/b").matched);
    assert!(match_route(b"/a/b", b"/a/b/").matched);
}

#[test]
/// Several placeholders bind in segment order.
fn match_multiple_placeholders() {
    let m = match_route(b"/{a}/x/{b}", b"/1/x/2");
    assert!(m.matched);
    assert_eq!(m.path_params, pairs(&[(b"a", b"1"), (b"b", b"2")]));
}

#[test]
/// A query pair without exactly one `=` is ignored.
fn query_pairs_need_one_equals() {
    let m = match_route(b"/p", b"/p?a=1&junk&b=2=3&c=4");
    assert!(m.matched);
    assert_eq!(m.query_params, pairs(&[(b"a", b"1"), (b"c", b"4")]));
}

#[test]
/// The query string plays no part in matching, and an absent query string
/// yields no pairs.
fn query_string_is_separate() {
    let m = match_route(b"/p", b"/p");
    assert!(m.matched);
    assert!(m.query_params.is_empty());
    let m = match_route(b"/p/{x}", b"/p/7?");
    assert!(m.matched);
    assert_eq!(m.path_params, pairs(&[(b"x", b"7")]));
    assert!(m.query_params.is_empty());
}
