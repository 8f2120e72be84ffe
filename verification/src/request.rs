//! The HTTP/1.1 request parser.
//!
//! A request arrives as raw bytes read from a connection into a pooled
//! buffer. Parsing records the method, path, version and header fields as
//! spans into that buffer — offsets and lengths, never copies — and the
//! offset at which the body begins. The functions here work on the delivered
//! bytes alone; reading from the socket is the embedding program's job.
//!
//! What counts as delivered: the stream is read until the terminating blank
//! line `\r\n\r\n` is seen. A stream that ends before the terminator fails
//! with `ConnectionClosed`; one whose header bytes pass the cap before the
//! terminator fails with `HeadersTooLarge`.

use vstd::prelude::*;

use crate::error::ServerError;
use crate::scan::{find_byte, find_byte_in, lemma_find_byte};
use vstd::string::StringSliceAdditionalSpecFns;

verus! {

/// The cap on accumulated header bytes: a header block whose bytes exceed
/// this before the terminating blank line is rejected.
pub const MAX_HEADER_BYTES: usize = 4096;

/// The eight recognized request methods.
#[derive(Clone, Copy, Debug, PartialEq, Eq, Structural)]
pub enum Method {
    Get,
    Post,
    Put,
    Patch,
    Delete,
    Head,
    Options,
    Trace,
}

/// The byte spelling of a method token.
pub open spec fn method_token(m: Method) -> Seq<u8> {
    match m {
        Method::Get => seq![71u8, 69u8, 84u8],
        Method::Post => seq![80u8, 79u8, 83u8, 84u8],
        Method::Put => seq![80u8, 85u8, 84u8],
        Method::Patch => seq![80u8, 65u8, 84u8, 67u8, 72u8],
        Method::Delete => seq![68u8, 69u8, 76u8, 69u8, 84u8, 69u8],
        Method::Head => seq![72u8, 69u8, 65u8, 68u8],
        Method::Options => seq![79u8, 80u8, 84u8, 73u8, 79u8, 78u8, 83u8],
        Method::Trace => seq![84u8, 82u8, 65u8, 67u8, 69u8],
    }
}

/// The method a token spells, if it spells one.
pub open spec fn spec_method_of(tok: Seq<u8>) -> Option<Method> {
    if tok == method_token(Method::Get) {
        Some(Method::Get)
    } else if tok == method_token(Method::Post) {
        Some(Method::Post)
    } else if tok == method_token(Method::Put) {
        Some(Method::Put)
    } else if tok == method_token(Method::Patch) {
        Some(Method::Patch)
    } else if tok == method_token(Method::Delete) {
        Some(Method::Delete)
    } else if tok == method_token(Method::Head) {
        Some(Method::Head)
    } else if tok == method_token(Method::Options) {
        Some(Method::Options)
    } else if tok == method_token(Method::Trace) {
        Some(Method::Trace)
    } else {
        None
    }
}

/// Whether the four bytes at `i` are the header terminator `\r\n\r\n`.
pub open spec fn is_terminator_at(s: Seq<u8>, i: int) -> bool {
    &&& 0 <= i
    &&& i + 4 <= s.len()
    &&& s[i] == 13
    &&& s[i + 1] == 10
    &&& s[i + 2] == 13
    &&& s[i + 3] == 10
}

/// The least `i >= from` at which the terminator stands, or `s.len()` if it
/// stands nowhere. A found position satisfies `i + 4 <= s.len()`, so the
/// sentinel is unambiguous.
pub open spec fn find_terminator_from(s: Seq<u8>, from: int) -> int
    recommends
        0 <= from,
    decreases s.len() - from,
{
    if from < 0 || from + 4 > s.len() {
        s.len() as int
    } else if is_terminator_at(s, from) {
        from
    } else {
        find_terminator_from(s, from + 1)
    }
}

/// What `find_terminator_from` returns: the first terminator position at or
/// after `from`, or the sentinel when there is none.
pub proof fn lemma_find_terminator(s: Seq<u8>, from: int)
    requires
        0 <= from,
    ensures
        from <= find_terminator_from(s, from) || find_terminator_from(s, from) == s.len(),
        find_terminator_from(s, from) + 4 <= s.len() ==> is_terminator_at(
            s,
            find_terminator_from(s, from),
        ),
        find_terminator_from(s, from) + 4 > s.len() ==> find_terminator_from(s, from)
            == s.len(),
        forall|j: int|
            from <= j < find_terminator_from(s, from) ==> !is_terminator_at(s, j),
    decreases s.len() - from,
{
    if from + 4 <= s.len() && !is_terminator_at(s, from) {
        lemma_find_terminator(s, from + 1);
    }
}

/// A parsed request as mathematics: the resolved tokens, header pairs and
/// body bytes.
#[verifier::ext_equal]
pub ghost struct RequestView {
    pub method: Method,
    pub path: Seq<u8>,
    pub version: Seq<u8>,
    pub headers: Seq<(Seq<u8>, Seq<u8>)>,
    pub body: Seq<u8>,
}

/// Scans header lines from `cursor` up to `end` (one past the terminator).
/// Returns the header pairs in order and the offset at which the body
/// begins — one past the blank line's `\n`. A line with a colon yields a
/// pair: the name before the colon, the value after the colon and one
/// space, up to the line's `\r`. A line without a colon is skipped.
pub open spec fn spec_header_lines(s: Seq<u8>, cursor: int, end: int) -> (Seq<
    (Seq<u8>, Seq<u8>),
>, int)
    recommends
        0 <= cursor,
        end <= s.len(),
    decreases end - cursor,
{
    if cursor < 0 || cursor >= end {
        (Seq::empty(), end)
    } else {
        let nl = find_byte(s, 10, cursor, end);
        if nl < cursor || nl >= end {
            (Seq::empty(), end)
        } else {
            let ce = if nl > cursor && s[nl - 1] == 13 {
                nl - 1
            } else {
                nl
            };
            if ce == cursor {
                // blank line: headers end here, the body follows
                (Seq::empty(), nl + 1)
            } else {
                let rest = spec_header_lines(s, nl + 1, end);
                let colon = find_byte(s, 58, cursor, ce);
                if colon >= ce {
                    rest
                } else {
                    let key = s.subrange(cursor, colon);
                    let vend = find_byte(s, 13, cursor, nl);
                    let value = if colon + 2 <= vend {
                        s.subrange(colon + 2, vend)
                    } else {
                        Seq::empty()
                    };
                    (seq![(key, value)] + rest.0, rest.1)
                }
            }
        }
    }
}

/// Parses the head of a delivered byte sequence whose first terminator
/// stands at `p`: the request line, then the header lines, then the body.
pub open spec fn spec_parse_head(s: Seq<u8>, p: int) -> Result<RequestView, ServerError> {
    let end = p + 4;
    let nl = find_byte(s, 10, 0, end);
    let ce = if nl > 0 && s[nl - 1] == 13 {
        nl - 1
    } else {
        nl
    };
    let sp1 = find_byte(s, 32, 0, ce);
    if sp1 >= ce {
        Err(ServerError::MalformedRequestLine)
    } else {
        let sp2 = find_byte(s, 32, sp1 + 1, ce);
        if sp2 >= ce {
            Err(ServerError::MalformedRequestLine)
        } else {
            let sp3 = find_byte(s, 32, sp2 + 1, ce);
            match spec_method_of(s.subrange(0, sp1)) {
                Some(m) => {
                    let hl = spec_header_lines(s, nl + 1, end);
                    Ok(
                        RequestView {
                            method: m,
                            path: s.subrange(sp1 + 1, sp2),
                            version: s.subrange(sp2 + 1, sp3),
                            headers: hl.0,
                            body: s.subrange(hl.1, s.len() as int),
                        },
                    )
                },
                None => Err(ServerError::InvalidMethod),
            }
        }
    }
}

/// What parsing a delivered byte sequence yields. The sequence is all the
/// bytes the stream handed over, read line by line until the terminating
/// blank line: no terminator means the peer closed first — or, past the
/// cap, that the headers grew too large; a terminator too far in means the
/// headers passed the cap before their blank line.
pub open spec fn spec_parse(s: Seq<u8>) -> Result<RequestView, ServerError> {
    let p = find_terminator_from(s, 0);
    if p + 4 > s.len() {
        if s.len() > MAX_HEADER_BYTES {
            Err(ServerError::HeadersTooLarge)
        } else {
            Err(ServerError::ConnectionClosed)
        }
    } else if p + 2 > MAX_HEADER_BYTES {
        Err(ServerError::HeadersTooLarge)
    } else {
        spec_parse_head(s, p)
    }
}

/// Whether the bytes read so far end with the header terminator, the way
/// the read loop checks for completion: each read ends at a newline, so
/// the first terminator in the stream is seen as a suffix the moment its
/// final newline arrives.
pub open spec fn ends_with_terminator(s: Seq<u8>) -> bool {
    s.len() >= 4 && is_terminator_at(s, s.len() - 4)
}

/// What a read loop does next.
#[derive(Clone, Copy, Debug, PartialEq, Eq, Structural)]
pub enum ReadProgress {
    /// The header block is complete: parse it.
    Complete,
    /// The header block is not complete yet: read more.
    NeedMore,
    /// The cap was passed before the header block completed: fail with
    /// `HeadersTooLarge`.
    TooLarge,
}

/// Decides what a read loop does after one read: the header block is
/// complete exactly when the bytes end with the terminator; an incomplete
/// block past the cap is too large; anything else needs more bytes. The
/// completion check comes first, so a block that completes in the read
/// that passes the cap still parses.
pub fn header_progress(buffer: &[u8], total_read: usize) -> (r: ReadProgress)
    ensures
        (r == ReadProgress::Complete) == ends_with_terminator(buffer@),
        (r == ReadProgress::TooLarge) == (!ends_with_terminator(buffer@) && total_read
            > MAX_HEADER_BYTES),
        (r == ReadProgress::NeedMore) == (!ends_with_terminator(buffer@) && total_read
            <= MAX_HEADER_BYTES),
{
    let n = buffer.len();
    if n >= 4 && byte_at(buffer, n - 4) == 13 && byte_at(buffer, n - 3) == 10 && byte_at(
        buffer,
        n - 2,
    ) == 13 && byte_at(buffer, n - 1) == 10 {
        ReadProgress::Complete
    } else if total_read > MAX_HEADER_BYTES {
        ReadProgress::TooLarge
    } else {
        ReadProgress::NeedMore
    }
}

/// A well-formed GET request assembled from a path and a host:
/// `GET <path> HTTP/1.1\r\nHost: <host>\r\n\r\n`.
pub open spec fn well_formed_get(path: Seq<u8>, host: Seq<u8>) -> Seq<u8> {
    seq![71u8, 69u8, 84u8, 32u8] + path + seq![
        32u8,
        72u8,
        84u8,
        84u8,
        80u8,
        47u8,
        49u8,
        46u8,
        49u8,
        13u8,
        10u8,
        72u8,
        111u8,
        115u8,
        116u8,
        58u8,
        32u8,
    ] + host + seq![13u8, 10u8, 13u8, 10u8]
}

/// The spelling of the version token `HTTP/1.1`.
pub open spec fn http11() -> Seq<u8> {
    seq![72u8, 84u8, 84u8, 80u8, 47u8, 49u8, 46u8, 49u8]
}

/// The spelling of the header name `Host`.
pub open spec fn host_name() -> Seq<u8> {
    seq![72u8, 111u8, 115u8, 116u8]
}

/// Any well-formed request `GET <path> HTTP/1.1\r\nHost: <host>\r\n\r\n`
/// that fits the header cap parses to method GET, that path, version
/// `HTTP/1.1`, the one `Host` header carrying the host, and an empty body.
/// The path must hold no space, carriage return or newline, and the host no
/// carriage return or newline, else the bytes would not spell this request.
#[verifier::rlimit(100)]
#[verifier::spinoff_prover]
pub proof fn lemma_well_formed_get_parses(path: Seq<u8>, host: Seq<u8>)
    requires
        forall|i: int| 0 <= i < path.len() ==> path[i] != 32 && path[i] != 13 && path[i] != 10,
        forall|i: int| 0 <= i < host.len() ==> host[i] != 13 && host[i] != 10,
        path.len() + host.len() + 23 <= MAX_HEADER_BYTES,
    ensures
        spec_parse(well_formed_get(path, host)) == Ok::<RequestView, ServerError>(
            RequestView {
                method: Method::Get,
                path: path,
                version: http11(),
                headers: seq![(host_name(), host)],
                body: Seq::<u8>::empty(),
            },
        ),
{
    let s = well_formed_get(path, host);
    let n = s.len() as int;
    let b = 4 + path.len() as int;  // the space before the version
    let a = 13 + path.len() as int;  // the '\r' ending the request line
    assert(n == path.len() + host.len() + 25);
    // where each kind of byte stands
    assert(s[0] == 71 && s[1] == 69 && s[2] == 84 && s[3] == 32);
    assert(s[b] == 32 && s[b + 1] == 72 && s[b + 2] == 84 && s[b + 3] == 84 && s[b + 4] == 80
        && s[b + 5] == 47 && s[b + 6] == 49 && s[b + 7] == 46 && s[b + 8] == 49);
    assert(s[a] == 13 && s[a + 1] == 10);
    assert(s[a + 2] == 72 && s[a + 3] == 111 && s[a + 4] == 115 && s[a + 5] == 116);
    assert(s[a + 6] == 58 && s[a + 7] == 32);
    assert(s[n - 4] == 13 && s[n - 3] == 10 && s[n - 2] == 13 && s[n - 1] == 10);
    assert(forall|j: int| 4 <= j < 4 + path.len() ==> s[j] == path[j - 4]);
    assert(forall|j: int| a + 8 <= j < n - 4 ==> s[j] == host[j - a - 8]);
    assert forall|j: int|
        0 <= j < n && (s[j] == 13 || s[j] == 10 || s[j] == 32) implies (s[j] == 13 ==> j == a
        || j == n - 4 || j == n - 2) && (s[j] == 10 ==> j == a + 1 || j == n - 3 || j == n - 1)
        && (s[j] == 32 && j < a ==> j == 3 || j == b) by {
        if j < 4 {
            assert(j == 0 || j == 1 || j == 2 || j == 3);
        } else if j < b {
            assert(s[j] == path[j - 4]);
            assert(path[j - 4] != 32 && path[j - 4] != 13 && path[j - 4] != 10);
        } else if j < a + 2 {
            assert(j == b || j == b + 1 || j == b + 2 || j == b + 3 || j == b + 4 || j == b + 5
                || j == b + 6 || j == b + 7 || j == b + 8 || j == a || j == a + 1);
        } else if j < a + 8 {
            assert(j == a + 2 || j == a + 3 || j == a + 4 || j == a + 5 || j == a + 6 || j == a
                + 7);
        } else if j < n - 4 {
            assert(s[j] == host[j - a - 8]);
            assert(host[j - a - 8] != 13 && host[j - a - 8] != 10);
        } else {
            assert(j == n - 4 || j == n - 3 || j == n - 2 || j == n - 1);
        }
    }
    assert(forall|j: int|
        0 <= j < n && s[j] == 13 ==> j == a || j == n - 4 || j == n - 2);
    assert(forall|j: int|
        0 <= j < n && s[j] == 10 ==> j == a + 1 || j == n - 3 || j == n - 1);
    assert(forall|j: int| 0 <= j < n && s[j] == 32 && j < a ==> j == 3 || j == b);
    // the first terminator stands four bytes from the end
    let p = find_terminator_from(s, 0);
    lemma_find_terminator(s, 0);
    assert(is_terminator_at(s, n - 4));
    assert(forall|j: int| 0 <= j < n - 4 ==> !is_terminator_at(s, j));
    assert(p == n - 4);
    assert(p + 2 <= MAX_HEADER_BYTES);
    // the request line runs to the newline after the version
    let end = p + 4;
    lemma_find_byte(s, 10, 0, end);
    let nl = find_byte(s, 10, 0, end);
    assert(nl == a + 1);
    let ce = a;
    lemma_find_byte(s, 32, 0, ce);
    let sp1 = find_byte(s, 32, 0, ce);
    assert(sp1 == 3);
    lemma_find_byte(s, 32, 4, ce);
    let sp2 = find_byte(s, 32, 4, ce);
    assert(sp2 == b);
    lemma_find_byte(s, 32, sp2 + 1, ce);
    let sp3 = find_byte(s, 32, sp2 + 1, ce);
    assert(sp3 == ce);
    assert(s.subrange(0, 3) =~= method_token(Method::Get));
    assert(spec_method_of(s.subrange(0, sp1)) == Some(Method::Get));
    assert(s.subrange(sp1 + 1, sp2) =~= path);
    assert(s.subrange(sp2 + 1, sp3) =~= http11());
    // one header line, then the blank line
    let hl = spec_header_lines(s, a + 2, end);
    lemma_find_byte(s, 10, a + 2, end);
    let nl2 = find_byte(s, 10, a + 2, end);
    assert(nl2 == n - 3);
    lemma_find_byte(s, 58, a + 2, n - 4);
    let colon = find_byte(s, 58, a + 2, n - 4);
    assert(colon == a + 6);
    lemma_find_byte(s, 13, a + 2, nl2);
    let vend = find_byte(s, 13, a + 2, nl2);
    assert(vend == n - 4);
    assert(s.subrange(a + 2, a + 6) =~= host_name());
    assert(s.subrange(a + 8, n - 4) =~= host);
    let rest = spec_header_lines(s, n - 2, end);
    lemma_find_byte(s, 10, n - 2, end);
    assert(find_byte(s, 10, n - 2, end) == n - 1);
    assert(rest == (Seq::<(Seq<u8>, Seq<u8>)>::empty(), n));
    assert(hl.0 =~= seq![(host_name(), host)]);
    assert(hl.1 == n);
    assert(s.subrange(n, n) =~= Seq::<u8>::empty());
    assert(spec_parse(s) == spec_parse_head(s, p));
    assert(spec_parse_head(s, p) == Ok::<RequestView, ServerError>(
        RequestView {
            method: Method::Get,
            path: path,
            version: http11(),
            headers: seq![(host_name(), host)],
            body: Seq::<u8>::empty(),
        },
    ));
}

/// A header block whose accumulated bytes pass the cap before the
/// terminating blank line is rejected as too large: either the terminator
/// never arrives and more than the cap was read, or it stands so far in
/// that the bytes before its blank line already passed the cap.
pub proof fn lemma_oversize_headers_rejected(s: Seq<u8>)
    requires
        ({
            let p = find_terminator_from(s, 0);
            (p + 4 > s.len() && s.len() > MAX_HEADER_BYTES) || (p + 4 <= s.len() && p + 2
                > MAX_HEADER_BYTES)
        }),
    ensures
        spec_parse(s) == Err::<RequestView, ServerError>(ServerError::HeadersTooLarge),
{
}

/// A stream that closes with zero bytes delivered fails with
/// `ConnectionClosed`.
pub proof fn lemma_empty_stream_rejected(s: Seq<u8>)
    requires
        s.len() == 0,
    ensures
        spec_parse(s) == Err::<RequestView, ServerError>(ServerError::ConnectionClosed),
{
}

/// The least position of the header terminator in `v`, or `v.len()` if the
/// terminator does not occur.
fn find_terminator(v: &[u8]) -> (r: usize)
    ensures
        r == find_terminator_from(v@, 0),
        r <= v@.len(),
        r + 4 <= v@.len() ==> is_terminator_at(v@, r as int),
        r + 4 > v@.len() ==> r == v@.len(),
{
    proof {
        lemma_find_terminator(v@, 0);
    }
    let n = v.len();
    if n < 4 {
        return n;
    }
    let mut i: usize = 0;
    while i <= n - 4
        invariant
            n == v@.len(),
            4 <= n,
            i <= n - 3,
            find_terminator_from(v@, 0) == find_terminator_from(v@, i as int),
        decreases n - i,
    {
        if *vstd::slice::slice_index_get(v, i) == 13 && *vstd::slice::slice_index_get(v, i + 1)
            == 10 && *vstd::slice::slice_index_get(v, i + 2) == 13
            && *vstd::slice::slice_index_get(v, i + 3) == 10 {
            return i;
        }
        i = i + 1;
    }
    n
}

/// The method the bytes in `[start, end)` of `v` spell, if they spell one.
fn method_of_bytes(v: &[u8], start: usize, end: usize) -> (r: Option<Method>)
    requires
        start <= end,
        end <= v@.len(),
    ensures
        r == spec_method_of(v@.subrange(start as int, end as int)),
{
    let ghost tok = v@.subrange(start as int, end as int);
    let len = end - start;
    let r = if len == 3 && byte_at(v, start) == 71 && byte_at(v, start + 1) == 69 && byte_at(
        v,
        start + 2,
    ) == 84 {
        Some(Method::Get)
    } else if len == 4 && byte_at(v, start) == 80 && byte_at(v, start + 1) == 79 && byte_at(
        v,
        start + 2,
    ) == 83 && byte_at(v, start + 3) == 84 {
        Some(Method::Post)
    } else if len == 3 && byte_at(v, start) == 80 && byte_at(v, start + 1) == 85 && byte_at(
        v,
        start + 2,
    ) == 84 {
        Some(Method::Put)
    } else if len == 5 && byte_at(v, start) == 80 && byte_at(v, start + 1) == 65 && byte_at(
        v,
        start + 2,
    ) == 84 && byte_at(v, start + 3) == 67 && byte_at(v, start + 4) == 72 {
        Some(Method::Patch)
    } else if len == 6 && byte_at(v, start) == 68 && byte_at(v, start + 1) == 69 && byte_at(
        v,
        start + 2,
    ) == 76 && byte_at(v, start + 3) == 69 && byte_at(v, start + 4) == 84 && byte_at(
        v,
        start + 5,
    ) == 69 {
        Some(Method::Delete)
    } else if len == 4 && byte_at(v, start) == 72 && byte_at(v, start + 1) == 69 && byte_at(
        v,
        start + 2,
    ) == 65 && byte_at(v, start + 3) == 68 {
        Some(Method::Head)
    } else if len == 7 && byte_at(v, start) == 79 && byte_at(v, start + 1) == 80 && byte_at(
        v,
        start + 2,
    ) == 84 && byte_at(v, start + 3) == 73 && byte_at(v, start + 4) == 79 && byte_at(
        v,
        start + 5,
    ) == 78 && byte_at(v, start + 6) == 83 {
        Some(Method::Options)
    } else if len == 5 && byte_at(v, start) == 84 && byte_at(v, start + 1) == 82 && byte_at(
        v,
        start + 2,
    ) == 65 && byte_at(v, start + 3) == 67 && byte_at(v, start + 4) == 69 {
        Some(Method::Trace)
    } else {
        None
    };
    proof {
        match r {
            Some(m) => {
                assert(tok =~= method_token(m));
            },
            None => {
                assert(forall|m: Method| tok != method_token(m)) by {
                    assert(tok.len() == len);
                }
            },
        }
    }
    r
}

/// The byte of `v` at `i`.
#[inline]
fn byte_at(v: &[u8], i: usize) -> (b: u8)
    requires
        i < v@.len(),
    ensures
        b == v@[i as int],
{
    *vstd::slice::slice_index_get(v, i)
}

/// A reference into a specific buffer's bytes: an offset and a length.
/// A span is meaningless apart from the buffer it was made for.
#[derive(Clone, Copy, Debug)]
struct Span {
    start: usize,
    length: usize,
}

/// The bytes a span refers to.
spec fn span_bytes(s: Seq<u8>, sp: Span) -> Seq<u8> {
    s.subrange(sp.start as int, sp.start + sp.length)
}

/// Whether a span lies within a buffer of the given contents.
spec fn span_in(s: Seq<u8>, sp: Span) -> bool {
    sp.start + sp.length <= s.len()
}

/// A byte with an ASCII capital letter folded to its small letter.
pub open spec fn ascii_lower(b: u8) -> u8 {
    if 65 <= b <= 90 {
        (b + 32) as u8
    } else {
        b
    }
}

/// Whether two byte sequences are equal up to ASCII case.
pub open spec fn eq_ignore_case(a: Seq<u8>, b: Seq<u8>) -> bool {
    a.len() == b.len() && forall|i: int| 0 <= i < a.len() ==> ascii_lower(a[i]) == ascii_lower(b[i])
}

/// The value of the first header whose name equals `key` up to ASCII case,
/// if any header's name does.
pub open spec fn spec_get_header(headers: Seq<(Seq<u8>, Seq<u8>)>, key: Seq<u8>) -> Option<
    Seq<u8>,
>
    decreases headers.len(),
{
    if headers.len() == 0 {
        None
    } else if eq_ignore_case(headers[0].0, key) {
        Some(headers[0].1)
    } else {
        spec_get_header(headers.drop_first(), key)
    }
}

/// Whether the bytes of `a` and `b` are equal up to ASCII case.
fn eq_ignore_ascii_bytes(a: &[u8], b: &[u8]) -> (r: bool)
    ensures
        r == eq_ignore_case(a@, b@),
{
    if a.len() != b.len() {
        return false;
    }
    let n = a.len();
    let mut i: usize = 0;
    while i < n
        invariant
            n == a@.len() == b@.len(),
            i <= n,
            forall|j: int| 0 <= j < i ==> ascii_lower(a@[j]) == ascii_lower(b@[j]),
        decreases n - i,
    {
        let x = byte_at(a, i);
        let y = byte_at(b, i);
        let xl = if 65 <= x && x <= 90 {
            x + 32
        } else {
            x
        };
        let yl = if 65 <= y && y <= 90 {
            y + 32
        } else {
            y
        };
        if xl != yl {
            return false;
        }
        i = i + 1;
    }
    true
}

/// The bytes each pair of spans refers to, in order.
spec fn spans_resolved(s: Seq<u8>, hs: Seq<(Span, Span)>) -> Seq<(Seq<u8>, Seq<u8>)> {
    Seq::new(hs.len(), |i: int| (span_bytes(s, hs[i].0), span_bytes(s, hs[i].1)))
}

/// Scans header lines from `start` up to the blank line, recording a pair of
/// spans per header field, and returns them with the body's start offset.
/// `end` is one past the terminator, which must stand at `end - 4`.
fn scan_headers(v: &[u8], start: usize, end: usize) -> (r: (Vec<(Span, Span)>, usize))
    requires
        4 <= end <= v@.len(),
        is_terminator_at(v@, end - 4),
        1 <= start <= end - 2,
    ensures
        spans_resolved(v@, r.0@) == spec_header_lines(v@, start as int, end as int).0,
        r.1 == spec_header_lines(v@, start as int, end as int).1,
        start < r.1 <= end,
        forall|i: int|
            0 <= i < r.0@.len() ==> span_in(v@, (#[trigger] r.0@[i]).0) && span_in(
                v@,
                r.0@[i].1,
            ),
{
    let ghost s = v@;
    let ghost p = end - 4;
    let ghost all = spec_header_lines(s, start as int, end as int);
    let mut cursor = start;
    let mut header_spans: Vec<(Span, Span)> = Vec::new();
    loop
        invariant
            s == v@,
            4 <= end <= s.len(),
            p == end - 4,
            is_terminator_at(s, p),
            1 <= start <= cursor <= end - 2,
            all == spec_header_lines(s, start as int, end as int),
            all.1 == spec_header_lines(s, cursor as int, end as int).1,
            all.0 == spans_resolved(s, header_spans@) + spec_header_lines(
                s,
                cursor as int,
                end as int,
            ).0,
            forall|i: int|
                0 <= i < header_spans@.len() ==> span_in(
                    s,
                    (#[trigger] header_spans@[i]).0,
                ) && span_in(s, header_spans@[i].1),
        decreases end - cursor,
    {
        let nl2 = find_byte_in(v, 10, cursor, end);
        proof {
            if nl2 > p + 1 {
                if cursor <= p + 1 {
                    assert(s[p + 1] == 10);
                    assert(false);
                }
            }
            assert(nl2 <= p + 3);
            assert(nl2 < end);
        }
        let ce2 = if nl2 > cursor && *vstd::slice::slice_index_get(v, nl2 - 1) == 13 {
            nl2 - 1
        } else {
            nl2
        };
        if ce2 == cursor {
            // the blank line: the body begins just past its newline
            proof {
                assert(all.0 =~= spans_resolved(s, header_spans@));
            }
            return (header_spans, nl2 + 1);
        }
        proof {
            // a line at the terminator's second half is always blank, so a
            // non-blank line leaves room for the next one
            assert(cursor <= p + 1);
        }
        let colon = find_byte_in(v, 58, cursor, ce2);
        let ghost step = spec_header_lines(s, cursor as int, end as int);
        let ghost rest = spec_header_lines(s, (nl2 + 1) as int, end as int);
        if colon < ce2 {
            let vend = find_byte_in(v, 13, cursor, nl2);
            let key = Span { start: cursor, length: colon - cursor };
            let value = if colon + 2 <= vend {
                Span { start: colon + 2, length: vend - (colon + 2) }
            } else {
                Span { start: 0, length: 0 }
            };
            proof {
                assert(span_bytes(s, key) =~= s.subrange(cursor as int, colon as int));
                if colon + 2 <= vend {
                    assert(span_bytes(s, value) =~= s.subrange((colon + 2) as int, vend as int));
                } else {
                    assert(span_bytes(s, value) =~= Seq::<u8>::empty());
                }
                assert(step.0 =~= seq![(span_bytes(s, key), span_bytes(s, value))] + rest.0);
            }
            header_spans.push((key, value));
        } else {
            proof {
                assert(step.0 =~= rest.0);
            }
        }
        cursor = nl2 + 1;
        proof {
            assert(all.0 =~= spans_resolved(s, header_spans@) + spec_header_lines(
                s,
                cursor as int,
                end as int,
            ).0);
        }
    }
}

/// A parse failure: the error, together with the buffer handed back so it
/// can return to its pool.
#[derive(Debug)]
pub struct ParseFailure {
    /// Why the parse failed.
    pub error: ServerError,
    /// The buffer that held the delivered bytes, returned intact.
    pub buffer: Vec<u8>,
}

/// A parsed request: one owned buffer of delivered bytes plus spans for the
/// method, path, version and header fields, and the offset where the body
/// begins. Bundling the buffer with its spans keeps every span valid for
/// exactly as long as it can be resolved.
#[derive(Debug)]
pub struct Request {
    /// The raw delivered bytes.
    buffer: Vec<u8>,
    /// The recognized method.
    method: Method,
    /// Where the method token stands in the buffer.
    method_span: Span,
    /// Where the path token stands in the buffer.
    path_span: Span,
    /// Where the version token stands in the buffer.
    version_span: Span,
    /// Where each header's name and value stand in the buffer, in order.
    header_spans: Vec<(Span, Span)>,
    /// The offset at which the body begins.
    cursor: usize,
}

impl Request {
    #[verifier::type_invariant]
    spec fn wf(&self) -> bool {
        &&& span_in(self.buffer@, self.method_span)
        &&& span_bytes(self.buffer@, self.method_span) == method_token(self.method)
        &&& span_in(self.buffer@, self.path_span)
        &&& span_in(self.buffer@, self.version_span)
        &&& forall|i: int|
            0 <= i < self.header_spans@.len() ==> span_in(
                self.buffer@,
                (#[trigger] self.header_spans@[i]).0,
            ) && span_in(self.buffer@, self.header_spans@[i].1)
        &&& self.cursor <= self.buffer@.len()
    }

    /// The raw bytes the request was parsed from.
    pub closed spec fn raw(&self) -> Seq<u8> {
        self.buffer@
    }
}

impl View for Request {
    type V = RequestView;

    closed spec fn view(&self) -> RequestView {
        RequestView {
            method: self.method,
            path: span_bytes(self.buffer@, self.path_span),
            version: span_bytes(self.buffer@, self.version_span),
            headers: Seq::new(
                self.header_spans@.len(),
                |i: int|
                    (
                        span_bytes(self.buffer@, self.header_spans@[i].0),
                        span_bytes(self.buffer@, self.header_spans@[i].1),
                    ),
            ),
            body: self.buffer@.subrange(self.cursor as int, self.buffer@.len() as int),
        }
    }
}

impl Request {
    /// Parses the bytes a connection delivered. On success the request owns
    /// the buffer; on failure the buffer comes back intact beside the error,
    /// so it can return to its pool either way.
    pub fn parse(buffer: Vec<u8>) -> (r: Result<Request, ParseFailure>)
        ensures
            match r {
                Ok(req) => spec_parse(buffer@) == Ok::<RequestView, ServerError>(req@)
                    && req.raw() == buffer@,
                Err(f) => spec_parse(buffer@) == Err::<RequestView, ServerError>(f.error)
                    && f.buffer@ == buffer@,
            },
    {
        let ghost s = buffer@;
        let n = buffer.len();
        let p = find_terminator(buffer.as_slice());
        if n < 4 || p > n - 4 {
            let error = if n > MAX_HEADER_BYTES {
                ServerError::HeadersTooLarge
            } else {
                ServerError::ConnectionClosed
            };
            return Err(ParseFailure { error, buffer });
        }
        if p + 2 > MAX_HEADER_BYTES {
            return Err(ParseFailure { error: ServerError::HeadersTooLarge, buffer });
        }
        let end = p + 4;
        // The request line runs to the first newline; the terminator
        // guarantees there is one within the head.
        let nl = find_byte_in(buffer.as_slice(), 10, 0, end);
        proof {
            assert(s[p + 1] == 10);
            assert(nl <= p + 1);
        }
        let ce = if nl > 0 && *vstd::slice::slice_index_get(buffer.as_slice(), nl - 1) == 13 {
            nl - 1
        } else {
            nl
        };
        let sp1 = find_byte_in(buffer.as_slice(), 32, 0, ce);
        if sp1 >= ce {
            return Err(ParseFailure { error: ServerError::MalformedRequestLine, buffer });
        }
        let sp2 = find_byte_in(buffer.as_slice(), 32, sp1 + 1, ce);
        if sp2 >= ce {
            return Err(ParseFailure { error: ServerError::MalformedRequestLine, buffer });
        }
        let sp3 = find_byte_in(buffer.as_slice(), 32, sp2 + 1, ce);
        let method = match method_of_bytes(buffer.as_slice(), 0, sp1) {
            Some(m) => m,
            None => {
                return Err(ParseFailure { error: ServerError::InvalidMethod, buffer });
            },
        };
        // Header lines follow until the blank line.
        let (header_spans, body_start) = scan_headers(buffer.as_slice(), nl + 1, end);
        let req = Request {
            buffer,
            method,
            method_span: Span { start: 0, length: sp1 },
            path_span: Span { start: sp1 + 1, length: sp2 - (sp1 + 1) },
            version_span: Span { start: sp2 + 1, length: sp3 - (sp2 + 1) },
            header_spans,
            cursor: body_start,
        };
        proof {
            let v = spec_parse_head(s, p as int);
            assert(span_bytes(s, req.path_span) =~= s.subrange(sp1 + 1 as int, sp2 as int));
            assert(span_bytes(s, req.version_span) =~= s.subrange(sp2 + 1 as int, sp3 as int));
            assert(req@ =~= v->Ok_0);
        }
        Ok(req)
    }

    /// Parses the bytes a connection delivered; the entry point callers use.
    pub fn new(buffer: Vec<u8>) -> (r: Result<Request, ParseFailure>)
        ensures
            match r {
                Ok(req) => spec_parse(buffer@) == Ok::<RequestView, ServerError>(req@)
                    && req.raw() == buffer@,
                Err(f) => spec_parse(buffer@) == Err::<RequestView, ServerError>(f.error)
                    && f.buffer@ == buffer@,
            },
    {
        Request::parse(buffer)
    }

    /// The request's path token.
    pub fn path(&self) -> (r: &[u8])
        ensures
            r@ == self@.path,
    {
        proof {
            use_type_invariant(self);
        }
        let total = self.buffer.len();
        assert(self.path_span.start + self.path_span.length <= total);
        vstd::slice::slice_subrange(
            self.buffer.as_slice(),
            self.path_span.start,
            self.path_span.start + self.path_span.length,
        )
    }

    /// The request's method.
    pub fn method(&self) -> (r: Method)
        ensures
            r == self@.method,
    {
        self.method
    }

    /// The request's method token, as the bytes that spell it.
    pub fn method_bytes(&self) -> (r: &[u8])
        ensures
            r@ == method_token(self@.method),
    {
        proof {
            use_type_invariant(self);
        }
        let total = self.buffer.len();
        assert(self.method_span.start + self.method_span.length <= total);
        vstd::slice::slice_subrange(
            self.buffer.as_slice(),
            self.method_span.start,
            self.method_span.start + self.method_span.length,
        )
    }

    /// The request's version token.
    pub fn http_version(&self) -> (r: &[u8])
        ensures
            r@ == self@.version,
    {
        proof {
            use_type_invariant(self);
        }
        let total = self.buffer.len();
        assert(self.version_span.start + self.version_span.length <= total);
        vstd::slice::slice_subrange(
            self.buffer.as_slice(),
            self.version_span.start,
            self.version_span.start + self.version_span.length,
        )
    }

    /// The body: every delivered byte past the blank line.
    pub fn body(&self) -> (r: &[u8])
        ensures
            r@ == self@.body,
    {
        proof {
            use_type_invariant(self);
        }
        vstd::slice::slice_subrange(self.buffer.as_slice(), self.cursor, self.buffer.len())
    }

    /// The value of the first header whose name matches `key`, compared
    /// case-insensitively, or `None` if no header's name does.
    pub fn get_header(&self, key: &str) -> (r: Option<&[u8]>)
        ensures
            match r {
                Some(value) => spec_get_header(self@.headers, key.spec_bytes()) == Some(
                    value@,
                ),
                None => spec_get_header(self@.headers, key.spec_bytes()) is None,
            },
    {
        proof {
            use_type_invariant(self);
        }
        let key_bytes = key.as_bytes();
        let n = self.header_spans.len();
        let total = self.buffer.len();
        proof {
            assert(self@.headers.skip(0) =~= self@.headers);
        }
        let mut i: usize = 0;
        while i < n
            invariant
                self.wf(),
                n == self.header_spans@.len(),
                total == self.buffer@.len(),
                i <= n,
                spec_get_header(self@.headers, key_bytes@) == spec_get_header(
                    self@.headers.skip(i as int),
                    key_bytes@,
                ),
                key_bytes@ == key.spec_bytes(),
            decreases n - i,
        {
            let (ks, vs) = self.header_spans[i];
            assert(ks.start + ks.length <= total && vs.start + vs.length <= total);
            let name = vstd::slice::slice_subrange(
                self.buffer.as_slice(),
                ks.start,
                ks.start + ks.length,
            );
            proof {
                assert(self@.headers[i as int].0 == name@);
                assert(self@.headers.skip(i as int)[0] == self@.headers[i as int]);
            }
            if eq_ignore_ascii_bytes(name, key_bytes) {
                let value = vstd::slice::slice_subrange(
                    self.buffer.as_slice(),
                    vs.start,
                    vs.start + vs.length,
                );
                proof {
                    assert(self@.headers[i as int].1 == value@);
                }
                return Some(value);
            }
            proof {
                assert(self@.headers.skip(i as int).drop_first() =~= self@.headers.skip(
                    i as int + 1,
                ));
            }
            i = i + 1;
        }
        proof {
            assert(self@.headers.skip(n as int) =~= Seq::<(Seq<u8>, Seq<u8>)>::empty());
        }
        None
    }

    /// Gives the buffer back, ending the request; what a connection calls
    /// when the response is done, so the buffer can return to its pool.
    pub fn into_buffer(self) -> (r: Vec<u8>)
        ensures
            r@ == self.raw(),
    {
        let Request { buffer, .. } = self;
        buffer
    }
}

} // verus!
