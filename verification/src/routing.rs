//! The router: matching a request path against registered path templates.
//!
//! A template is split into `/`-separated segments; a segment wrapped in
//! braces is a placeholder that matches any one path segment and binds its
//! inner name to that segment's value. Every other segment must match
//! exactly, and the segment counts must agree. The path may carry a query
//! string after a `?`, parsed as `&`-separated `key=value` pairs; a pair
//! without exactly one `=` is ignored.

use vstd::prelude::*;
use vstd::string::{StrSliceExecFns, StringSliceAdditionalSpecFns};

use crate::request::Request;
use crate::response::{header_views, Response};
use crate::scan::{bytes_eq, find_byte, find_byte_in, lemma_find_byte_unique};

verus! {

/// The pieces of `s` between occurrences of `sep`: splitting an empty
/// sequence yields one empty piece, and every separator begins a new piece.
pub open spec fn spec_split(s: Seq<u8>, sep: u8) -> Seq<Seq<u8>>
    decreases s.len(),
{
    let k = find_byte(s, sep, 0, s.len() as int);
    if k == s.len() {
        seq![s]
    } else if 0 <= k < s.len() {
        seq![s.subrange(0, k)] + spec_split(s.subrange(k + 1, s.len() as int), sep)
    } else {
        seq![s]
    }
}

/// `s` without one trailing slash, if it ends with one.
pub open spec fn spec_trim_slash(s: Seq<u8>) -> Seq<u8> {
    if s.len() > 0 && s[s.len() - 1] == 47 {
        s.subrange(0, s.len() - 1)
    } else {
        s
    }
}

/// The part of a path before its first `?`.
pub open spec fn spec_path_part(s: Seq<u8>) -> Seq<u8> {
    s.subrange(0, find_byte(s, 63, 0, s.len() as int))
}

/// The query string after a path's first `?`: empty when there is none.
pub open spec fn spec_query_part(s: Seq<u8>) -> Seq<u8> {
    let k = find_byte(s, 63, 0, s.len() as int);
    if k < s.len() {
        s.subrange(k + 1, s.len() as int)
    } else {
        Seq::empty()
    }
}

/// Whether a template segment is a placeholder: wrapped in braces.
pub open spec fn is_placeholder(seg: Seq<u8>) -> bool {
    seg.len() >= 2 && seg[0] == 123 && seg[seg.len() - 1] == 125
}

/// The name inside a placeholder's braces.
pub open spec fn placeholder_name(seg: Seq<u8>) -> Seq<u8> {
    seg.subrange(1, seg.len() - 1)
}

/// Whether one template segment accepts one path segment: a placeholder
/// accepts anything, any other segment only its exact spelling.
pub open spec fn seg_matches(pat: Seq<u8>, got: Seq<u8>) -> bool {
    is_placeholder(pat) || pat == got
}

/// The segments of a template or path-part: split on `/` after trimming
/// one trailing slash.
pub open spec fn spec_segments(s: Seq<u8>) -> Seq<Seq<u8>> {
    spec_split(spec_trim_slash(s), 47)
}

/// Whether a template matches a path: equal segment counts, each template
/// segment accepting the path segment in its place. The query string plays
/// no part in matching.
pub open spec fn spec_route_matches(pattern: Seq<u8>, path: Seq<u8>) -> bool {
    let ps = spec_segments(pattern);
    let gs = spec_segments(spec_path_part(path));
    ps.len() == gs.len() && forall|i: int|
        0 <= i < ps.len() ==> #[trigger] seg_matches(ps[i], gs[i])
}

/// The bindings a match produces: each placeholder's inner name paired with
/// the path segment standing in its place, in segment order.
pub open spec fn spec_bindings(ps: Seq<Seq<u8>>, gs: Seq<Seq<u8>>) -> Seq<(Seq<u8>, Seq<u8>)>
    decreases ps.len(),
{
    if ps.len() == 0 || gs.len() == 0 {
        Seq::empty()
    } else {
        let head = if is_placeholder(ps[0]) {
            seq![(placeholder_name(ps[0]), gs[0])]
        } else {
            Seq::<(Seq<u8>, Seq<u8>)>::empty()
        };
        head + spec_bindings(ps.drop_first(), gs.drop_first())
    }
}

/// The key and value of one query pair, if it holds exactly one `=`.
pub open spec fn spec_query_pair(piece: Seq<u8>) -> Seq<(Seq<u8>, Seq<u8>)> {
    let e = find_byte(piece, 61, 0, piece.len() as int);
    if e == piece.len() {
        Seq::empty()
    } else if find_byte(piece, 61, e + 1, piece.len() as int) != piece.len() {
        Seq::empty()
    } else {
        seq![(piece.subrange(0, e), piece.subrange(e + 1, piece.len() as int))]
    }
}

/// Every `key=value` pair of a query string, in order; pieces without
/// exactly one `=` contribute nothing. An empty query string has no pairs.
pub open spec fn spec_query_pairs(q: Seq<u8>) -> Seq<(Seq<u8>, Seq<u8>)>
    decreases q.len(),
{
    if q.len() == 0 {
        Seq::empty()
    } else {
        let k = find_byte(q, 38, 0, q.len() as int);
        if k == q.len() {
            spec_query_pair(q)
        } else if 0 <= k < q.len() {
            spec_query_pair(q.subrange(0, k)) + spec_query_pairs(
                q.subrange(k + 1, q.len() as int),
            )
        } else {
            Seq::empty()
        }
    }
}

/// The bytes each vector in `vs` holds, in order.
pub open spec fn vecs_resolved(vs: Seq<Vec<u8>>) -> Seq<Seq<u8>> {
    Seq::new(vs.len(), |i: int| vs[i]@)
}

/// The bytes each pair of vectors in `vs` holds, in order.
pub open spec fn pairs_resolved(vs: Seq<(Vec<u8>, Vec<u8>)>) -> Seq<(Seq<u8>, Seq<u8>)> {
    Seq::new(vs.len(), |i: int| (vs[i].0@, vs[i].1@))
}

/// Splits `v` into its pieces between occurrences of `sep`, as owned
/// vectors.
fn split_bytes(v: &[u8], sep: u8) -> (r: Vec<Vec<u8>>)
    ensures
        vecs_resolved(r@) == spec_split(v@, sep),
{
    let n = v.len();
    let mut out: Vec<Vec<u8>> = Vec::new();
    let mut start: usize = 0;
    proof {
        assert(v@.subrange(0, n as int) =~= v@);
        assert(vecs_resolved(out@) + spec_split(v@, sep) =~= spec_split(v@, sep));
    }
    loop
        invariant
            n == v@.len(),
            start <= n,
            spec_split(v@, sep) == vecs_resolved(out@) + spec_split(
                v@.subrange(start as int, n as int),
                sep,
            ),
        decreases n - start,
    {
        let k = find_byte_in(v, sep, start, n);
        let ghost t = v@.subrange(start as int, n as int);
        proof {
            lemma_find_byte_unique(t, sep, 0, t.len() as int, k - start);
        }
        let piece = vstd::slice::slice_to_vec(vstd::slice::slice_subrange(v, start, k));
        let ghost out0 = out@;
        proof {
            assert(piece@ =~= t.subrange(0, (k - start) as int));
        }
        out.push(piece);
        proof {
            assert(vecs_resolved(out@) =~= vecs_resolved(out0) + seq![piece@]);
        }
        if k == n {
            proof {
                assert(piece@ =~= t);
                assert(spec_split(t, sep) == seq![t]);
                assert(vecs_resolved(out0) + seq![piece@] =~= vecs_resolved(out0) + spec_split(
                    t,
                    sep,
                ));
            }
            return out;
        }
        proof {
            let rest = spec_split(v@.subrange((k + 1) as int, n as int), sep);
            assert(t.subrange((k - start + 1) as int, t.len() as int) =~= v@.subrange(
                (k + 1) as int,
                n as int,
            ));
            assert(spec_split(t, sep) == seq![piece@] + rest);
            assert((vecs_resolved(out0) + seq![piece@]) + rest =~= vecs_resolved(out0) + (seq![
                piece@,
            ] + rest));
        }
        start = k + 1;
    }
}

/// `v` without one trailing slash, if it ends with one.
fn trim_slash(v: &[u8]) -> (r: &[u8])
    ensures
        r@ == spec_trim_slash(v@),
{
    let n = v.len();
    if n > 0 && *vstd::slice::slice_index_get(v, n - 1) == 47 {
        vstd::slice::slice_subrange(v, 0, n - 1)
    } else {
        vstd::slice::slice_subrange(v, 0, n)
    }
}

/// The key and value of one query piece, pushed if it holds exactly one
/// `=`, ignored otherwise.
fn push_query_pair(out: &mut Vec<(Vec<u8>, Vec<u8>)>, piece: &[u8])
    ensures
        pairs_resolved(final(out)@) == pairs_resolved(old(out)@) + spec_query_pair(piece@),
{
    let n = piece.len();
    let e = find_byte_in(piece, 61, 0, n);
    if e == n {
        proof {
            assert(pairs_resolved(out@) =~= pairs_resolved(out@) + spec_query_pair(piece@));
        }
        return ;
    }
    let e2 = find_byte_in(piece, 61, e + 1, n);
    if e2 != n {
        proof {
            assert(pairs_resolved(out@) =~= pairs_resolved(out@) + spec_query_pair(piece@));
        }
        return ;
    }
    let key = vstd::slice::slice_to_vec(vstd::slice::slice_subrange(piece, 0, e));
    let value = vstd::slice::slice_to_vec(vstd::slice::slice_subrange(piece, e + 1, n));
    let ghost out0 = out@;
    out.push((key, value));
    proof {
        assert(pairs_resolved(out@) =~= pairs_resolved(out0) + spec_query_pair(piece@));
    }
}

/// Every `key=value` pair of a query string, in order, as owned vectors.
fn parse_query(q: &[u8]) -> (r: Vec<(Vec<u8>, Vec<u8>)>)
    ensures
        pairs_resolved(r@) == spec_query_pairs(q@),
{
    let n = q.len();
    let mut out: Vec<(Vec<u8>, Vec<u8>)> = Vec::new();
    if n == 0 {
        proof {
            assert(pairs_resolved(out@) =~= spec_query_pairs(q@));
        }
        return out;
    }
    let mut start: usize = 0;
    proof {
        assert(q@.subrange(0, n as int) =~= q@);
        assert(pairs_resolved(out@) + spec_query_pairs(q@) =~= spec_query_pairs(q@));
    }
    loop
        invariant
            n == q@.len(),
            start <= n,
            spec_query_pairs(q@) == pairs_resolved(out@) + spec_query_pairs(
                q@.subrange(start as int, n as int),
            ),
        decreases n - start,
    {
        let k = find_byte_in(q, 38, start, n);
        let ghost t = q@.subrange(start as int, n as int);
        proof {
            lemma_find_byte_unique(t, 38, 0, t.len() as int, k - start);
        }
        let piece = vstd::slice::slice_subrange(q, start, k);
        let ghost out0 = out@;
        proof {
            assert(piece@ =~= t.subrange(0, (k - start) as int));
        }
        push_query_pair(&mut out, piece);
        if k == n {
            proof {
                if t.len() == 0 {
                    assert(piece@ =~= t);
                    assert(spec_query_pair(t) =~= Seq::<(Seq<u8>, Seq<u8>)>::empty());
                    assert(spec_query_pairs(t) == Seq::<(Seq<u8>, Seq<u8>)>::empty());
                } else {
                    assert(piece@ =~= t);
                    assert(spec_query_pairs(t) == spec_query_pair(t));
                }
                assert(pairs_resolved(out@) =~= pairs_resolved(out0) + spec_query_pair(t));
                assert(pairs_resolved(out@) =~= spec_query_pairs(q@));
            }
            return out;
        }
        proof {
            let rest = spec_query_pairs(q@.subrange((k + 1) as int, n as int));
            assert(t.len() > 0);
            assert(t.subrange((k - start + 1) as int, t.len() as int) =~= q@.subrange(
                (k + 1) as int,
                n as int,
            ));
            assert(spec_query_pairs(t) == spec_query_pair(piece@) + rest);
            assert((pairs_resolved(out0) + spec_query_pair(piece@)) + rest =~= pairs_resolved(
                out0,
            ) + (spec_query_pair(piece@) + rest));
        }
        start = k + 1;
    }
}

/// The outcome of matching one template against one path: whether it
/// matched, the query pairs, and the placeholder bindings.
#[derive(Debug)]
pub struct RouteMatch {
    /// Whether the template matched the path.
    pub matched: bool,
    /// The query string's `key=value` pairs, in order.
    pub query_params: Vec<(Vec<u8>, Vec<u8>)>,
    /// Each placeholder's name bound to the path segment in its place.
    pub path_params: Vec<(Vec<u8>, Vec<u8>)>,
}

/// Matches a path — query string and all — against a path template.
/// Exactly when the template accepts the path's segments, the result
/// carries every placeholder binding and every query pair; a miss carries
/// neither.
pub fn match_route(pattern: &[u8], path: &[u8]) -> (r: RouteMatch)
    ensures
        r.matched == spec_route_matches(pattern@, path@),
        r.matched ==> pairs_resolved(r.path_params@) == spec_bindings(
            spec_segments(pattern@),
            spec_segments(spec_path_part(path@)),
        ),
        r.matched ==> pairs_resolved(r.query_params@) == spec_query_pairs(
            spec_query_part(path@),
        ),
        !r.matched ==> r.path_params@.len() == 0 && r.query_params@.len() == 0,
{
    let n = path.len();
    let qpos = find_byte_in(path, 63, 0, n);
    let path_part = vstd::slice::slice_subrange(path, 0, qpos);
    let pat_trim = trim_slash(pattern);
    let got_trim = trim_slash(path_part);
    let psegs = split_bytes(pat_trim, 47);
    let gsegs = split_bytes(got_trim, 47);
    let ghost ps = spec_segments(pattern@);
    let ghost gs = spec_segments(spec_path_part(path@));
    proof {
        assert(vecs_resolved(psegs@) == ps);
        assert(vecs_resolved(gsegs@) == gs);
    }
    if psegs.len() != gsegs.len() {
        return RouteMatch { matched: false, query_params: Vec::new(), path_params: Vec::new() };
    }
    let m = psegs.len();
    let mut path_params: Vec<(Vec<u8>, Vec<u8>)> = Vec::new();
    proof {
        assert(ps.skip(0) =~= ps);
        assert(gs.skip(0) =~= gs);
        assert(pairs_resolved(path_params@) + spec_bindings(ps, gs) =~= spec_bindings(ps, gs));
    }
    let mut i: usize = 0;
    while i < m
        invariant
            m == psegs@.len() == gsegs@.len(),
            i <= m,
            ps == vecs_resolved(psegs@),
            gs == vecs_resolved(gsegs@),
            ps == spec_segments(pattern@),
            gs == spec_segments(spec_path_part(path@)),
            ps.len() == gs.len() == m,
            forall|j: int| 0 <= j < i ==> seg_matches(ps[j], gs[j]),
            spec_bindings(ps, gs) == pairs_resolved(path_params@) + spec_bindings(
                ps.skip(i as int),
                gs.skip(i as int),
            ),
        decreases m - i,
    {
        proof {
            assert(ps.skip(i as int)[0] == ps[i as int]);
            assert(gs.skip(i as int)[0] == gs[i as int]);
            assert(ps.skip(i as int).drop_first() =~= ps.skip(i as int + 1));
            assert(gs.skip(i as int).drop_first() =~= gs.skip(i as int + 1));
        }
        let pseg = &psegs[i];
        let plen = pseg.len();
        let is_ph = plen >= 2 && pseg[0] == 123 && pseg[plen - 1] == 125;
        if is_ph {
            let name = vstd::slice::slice_to_vec(
                vstd::slice::slice_subrange(pseg.as_slice(), 1, plen - 1),
            );
            let value = vstd::slice::slice_to_vec(gsegs[i].as_slice());
            let ghost pp0 = path_params@;
            proof {
                assert(name@ =~= placeholder_name(ps[i as int]));
            }
            path_params.push((name, value));
            proof {
                assert(pairs_resolved(path_params@) =~= pairs_resolved(pp0) + seq![
                    (placeholder_name(ps[i as int]), gs[i as int]),
                ]);
                assert((pairs_resolved(pp0) + seq![
                    (placeholder_name(ps[i as int]), gs[i as int]),
                ]) + spec_bindings(ps.skip(i as int + 1), gs.skip(i as int + 1))
                    =~= pairs_resolved(pp0) + (seq![
                    (placeholder_name(ps[i as int]), gs[i as int]),
                ] + spec_bindings(ps.skip(i as int + 1), gs.skip(i as int + 1))));
            }
        } else {
            if !bytes_eq(pseg.as_slice(), gsegs[i].as_slice()) {
                proof {
                    assert(!is_placeholder(ps[i as int]));
                    assert(!seg_matches(ps[i as int], gs[i as int]));
                    assert(!spec_route_matches(pattern@, path@)) by {
                        if spec_route_matches(pattern@, path@) {
                            assert(seg_matches(
                                spec_segments(pattern@)[i as int],
                                spec_segments(spec_path_part(path@))[i as int],
                            ));
                            assert(seg_matches(ps[i as int], gs[i as int]));
                        }
                    }
                }
                return RouteMatch {
                    matched: false,
                    query_params: Vec::new(),
                    path_params: Vec::new(),
                };
            }
            proof {
                assert(seq![(placeholder_name(ps[i as int]), gs[i as int])].len() == 1);
                assert(spec_bindings(ps.skip(i as int), gs.skip(i as int)) == spec_bindings(
                    ps.skip(i as int + 1),
                    gs.skip(i as int + 1),
                ));
            }
        }
        i = i + 1;
    }
    proof {
        assert(ps.skip(m as int) =~= Seq::<Seq<u8>>::empty());
        assert(spec_bindings(ps.skip(m as int), gs.skip(m as int)).len() == 0);
        assert(pairs_resolved(path_params@) + spec_bindings(
            ps.skip(m as int),
            gs.skip(m as int),
        ) =~= pairs_resolved(path_params@));
        assert(spec_route_matches(pattern@, path@));
    }
    let query_params = if qpos < n {
        parse_query(vstd::slice::slice_subrange(path, qpos + 1, n))
    } else {
        proof {
            assert(spec_query_part(path@) =~= Seq::<u8>::empty());
            assert(spec_query_pairs(spec_query_part(path@)).len() == 0);
            assert(pairs_resolved(Seq::<(Vec<u8>, Vec<u8>)>::empty()) =~= spec_query_pairs(
                spec_query_part(path@),
            ));
        }
        Vec::new()
    };
    RouteMatch { matched: true, query_params, path_params }
}

/// What a registered route can do once its template matches: handle the
/// request and write into the response. A server's route table holds one
/// implementing type; a program with several behaviors gives that type a
/// way to tell them apart.
pub trait Handler: Sized {
    /// Handles a matched request, writing into the response.
    fn handle(&self, req: &mut Request, res: &mut Response);
}

/// One registered route: a method, a path template, and the handler to
/// invoke when both match a request.
#[derive(Debug, Clone)]
pub struct Route<H> {
    /// The method this route answers, as bytes (`GET`, `POST`, ...).
    pub method: Vec<u8>,
    /// The path template this route answers.
    pub path: Vec<u8>,
    /// The handler invoked when the route matches.
    pub handler: H,
}

impl<H> Route<H> {
    /// A route from a method, a path template and a handler.
    pub fn new(method: &str, path: &str, handler: H) -> (r: Route<H>)
        ensures
            r.method@ == method.spec_bytes(),
            r.path@ == path.spec_bytes(),
    {
        Route { method: method.as_bytes_vec(), path: path.as_bytes_vec(), handler }
    }
}

impl<H: Handler> Route<H> {
    /// Invokes the route's handler on a request and response.
    pub fn handle(&self, req: &mut Request, res: &mut Response) {
        self.handler.handle(req, res)
    }
}

/// The handler behind the default route: answers with the index page as
/// plain text.
pub fn index(req: &mut Request, res: &mut Response)
    ensures
        *final(req) == *old(req),
        final(res).status_code == 200,
        final(res).http_version == old(res).http_version,
        header_views(final(res).headers@) == header_views(old(res).headers@).push(
            ("Content-Type".spec_bytes(), "text/plain; charset=utf-8".spec_bytes()),
        ),
        final(res).wire matches Some(w) && w@ == crate::response::spec_response_bytes(
            old(res).http_version.spec_bytes(),
            200,
            header_views(final(res).headers@),
            "Welcome to the index page!".spec_bytes(),
        ),
{
    res.text("Welcome to the index page!", 200)
}

/// The handler type of the default route table: every route it serves
/// answers with the index page.
#[derive(Clone, Copy, Debug)]
pub struct IndexHandler;

impl Default for IndexHandler {
    /// The one value of the type.
    fn default() -> (r: IndexHandler)
        ensures
            r == IndexHandler,
    {
        IndexHandler
    }
}

impl Handler for IndexHandler {
    fn handle(&self, req: &mut Request, res: &mut Response) {
        index(req, res)
    }
}

/// The method and template of each route, as bytes, in registration order.
pub open spec fn route_views<H>(rs: Seq<Route<H>>) -> Seq<(Seq<u8>, Seq<u8>)> {
    Seq::new(rs.len(), |i: int| (rs[i].method@, rs[i].path@))
}

/// Whether one registered route answers a request: its method equals the
/// request's and its template matches the request's path.
pub open spec fn spec_entry_matches(
    entry: (Seq<u8>, Seq<u8>),
    method: Seq<u8>,
    path: Seq<u8>,
) -> bool {
    entry.0 == method && spec_route_matches(entry.1, path)
}

/// The index of the first route that answers the request, in registration
/// order, or `None` when none does.
pub open spec fn spec_find_route(
    entries: Seq<(Seq<u8>, Seq<u8>)>,
    method: Seq<u8>,
    path: Seq<u8>,
) -> Option<int>
    decreases entries.len(),
{
    if entries.len() == 0 {
        None
    } else if spec_entry_matches(entries[0], method, path) {
        Some(0)
    } else {
        match spec_find_route(entries.drop_first(), method, path) {
            Some(i) => Some(i + 1),
            None => None,
        }
    }
}

/// What `spec_find_route` returns, read off a prefix: if no route before
/// `k` answers, and `k` answers (or `k` is the table's end), then `k` (or
/// nothing) is the resolution.
pub proof fn lemma_find_route_characterization(
    entries: Seq<(Seq<u8>, Seq<u8>)>,
    method: Seq<u8>,
    path: Seq<u8>,
    k: int,
)
    requires
        0 <= k <= entries.len(),
        forall|j: int| 0 <= j < k ==> !spec_entry_matches(entries[j], method, path),
        k < entries.len() ==> spec_entry_matches(entries[k], method, path),
    ensures
        k < entries.len() ==> spec_find_route(entries, method, path) == Some(k),
        k == entries.len() ==> spec_find_route(entries, method, path) is None,
    decreases entries.len(),
{
    if entries.len() > 0 && !spec_entry_matches(entries[0], method, path) {
        assert(k > 0);
        let tail = entries.drop_first();
        assert(forall|j: int|
            0 <= j < k - 1 ==> tail[j] == entries[j + 1] && !spec_entry_matches(
                tail[j],
                method,
                path,
            ));
        lemma_find_route_characterization(tail, method, path, k - 1);
    }
}

/// First-match-wins: whenever some route at index `i` answers a request,
/// the table resolves to a route no later than `i`, and that route
/// answers. With two overlapping routes both answering, the one
/// registered first is therefore the one invoked.
pub proof fn lemma_first_match_wins(
    entries: Seq<(Seq<u8>, Seq<u8>)>,
    method: Seq<u8>,
    path: Seq<u8>,
    i: int,
)
    requires
        0 <= i < entries.len(),
        spec_entry_matches(entries[i], method, path),
    ensures
        spec_find_route(entries, method, path) matches Some(k) && 0 <= k <= i
            && spec_entry_matches(entries[k], method, path),
    decreases entries.len(),
{
    if !spec_entry_matches(entries[0], method, path) {
        let tail = entries.drop_first();
        assert(tail[i - 1] == entries[i]);
        lemma_first_match_wins(tail, method, path, i - 1);
        let k2 = spec_find_route(tail, method, path)->Some_0;
        assert(tail[k2] == entries[k2 + 1]);
    }
}

} // verus!
