//! Routing by method and path, with `:name` path parameters and a safety
//! filter on request paths.

use vstd::prelude::*;
use crate::http_types::Method;
use crate::utf8::{chars_of, string_from_chars};
use crate::text::copy_range;

verus! {

/// `char::is_control`: the general category Cc (U+0000–U+001F, U+007F–U+009F).
pub open spec fn is_control(c: char) -> bool {
    let v = c as u32;
    v <= 0x1f || (0x7f <= v && v <= 0x9f)
}

/// A request path that routing accepts: it starts with `/`, is at most 2048
/// bytes long, and holds no `..`, no backslash and no control character
/// (NUL, tab and line breaks included).
pub open spec fn safe_path(s: Seq<char>) -> bool {
    &&& !(exists|i: int| 0 <= i < s.len() - 1 && #[trigger] s[i] == '.' && s[i + 1] == '.')
    &&& forall|i: int|
        0 <= i < s.len() ==> (#[trigger] s[i]) != '\\' && !is_control(s[i])
    &&& s.len() > 0 && s[0] == '/'
    &&& encode_len_ok(s)
}

/// At most 2048 bytes of UTF-8.
pub open spec fn encode_len_ok(s: Seq<char>) -> bool {
    vstd::utf8::encode_utf8(s).len() <= 2048
}

/// The segments of a path between `/` separators (`str::split('/')`).
pub open spec fn segments(s: Seq<char>) -> Seq<Seq<char>>
    decreases s.len(),
{
    if s.len() == 0 {
        seq![Seq::<char>::empty()]
    } else {
        let init = segments(s.drop_last());
        if s.last() == '/' {
            init.push(Seq::<char>::empty())
        } else {
            init.update(init.len() - 1, init.last().push(s.last()))
        }
    }
}

pub proof fn lemma_segments_nonempty(s: Seq<char>)
    ensures
        segments(s).len() >= 1,
    decreases s.len(),
{
    if s.len() > 0 {
        lemma_segments_nonempty(s.drop_last());
    }
}

/// A pattern segment `:name` captures a non-empty request segment; any other
/// pattern segment must equal the request segment.
pub open spec fn segment_matches(pat: Seq<char>, seg: Seq<char>) -> bool {
    if pat.len() > 0 && pat[0] == ':' {
        seg.len() > 0
    } else {
        pat == seg
    }
}

/// The parameters captured by matching pattern segments `ps` against request
/// segments `rs` (same length), in order.
pub open spec fn captures(ps: Seq<Seq<char>>, rs: Seq<Seq<char>>) -> Seq<(Seq<char>, Seq<char>)>
    decreases ps.len(),
{
    if ps.len() == 0 || rs.len() == 0 {
        Seq::empty()
    } else {
        let init = captures(ps.drop_last(), rs.drop_last());
        if ps.last().len() > 0 && ps.last()[0] == ':' {
            init.push((ps.last().subrange(1, ps.last().len() as int), rs.last()))
        } else {
            init
        }
    }
}

/// Whether a route pattern matches a request path: the same number of
/// segments, each matching.
pub open spec fn pattern_matches(pattern: Seq<char>, path: Seq<char>) -> bool {
    let ps = segments(pattern);
    let rs = segments(path);
    ps.len() == rs.len() && forall|i: int| 0 <= i < ps.len() ==> segment_matches(#[trigger] ps[i], rs[i])
}

/// A route: method, path pattern, handler.
#[derive(Clone)]
pub struct Route<H> {
    method: Method,
    path: String,
    handler: H,
}

/// Routes requests to handlers by method and path. The first matching route
/// wins.
pub struct Router<H> {
    routes: Vec<Route<H>>,
}

impl<H: Clone> Clone for Router<H> {
    /// The same routes, in the same order, each with a clone of its handler.
    fn clone(&self) -> (r: Router<H>)
        ensures
            r.routes() == self.routes(),
            forall|i: int|
                0 <= i < self.routes().len() ==> cloned(self.handler_at(i), #[trigger] r.handler_at(i)),
    {
        let mut routes: Vec<Route<H>> = Vec::new();
        let mut i: usize = 0;
        while i < self.routes.len()
            invariant
                i <= self.routes@.len(),
                routes@.len() == i,
                forall|k: int|
                    0 <= k < i ==> (#[trigger] routes@[k]).method@ == self.routes@[k].method@
                        && routes@[k].path@ == self.routes@[k].path@ && cloned(
                        self.routes@[k].handler,
                        routes@[k].handler,
                    ),
            decreases self.routes@.len() - i,
        {
            let route = &self.routes[i];
            routes.push(
                Route {
                    method: route.method.clone(),
                    path: route.path.clone(),
                    handler: route.handler.clone(),
                },
            );
            i = i + 1;
        }
        let r = Router { routes };
        assert(r.routes() =~= self.routes());
        r
    }
}

/// Splits `s` at every `/`.
fn split_segments(s: &[char]) -> (r: Vec<Vec<char>>)
    ensures
        r@.map_values(|p: Vec<char>| p@) == segments(s@),
{
    let mut pieces: Vec<Vec<char>> = Vec::new();
    let mut cur: Vec<char> = Vec::new();
    let mut i: usize = 0;
    while i < s.len()
        invariant
            i <= s@.len(),
            pieces@.map_values(|p: Vec<char>| p@).push(cur@) == segments(s@.subrange(0, i as int)),
        decreases s@.len() - i,
    {
        let ghost prefix = s@.subrange(0, i as int);
        let ghost next = s@.subrange(0, i + 1);
        assert(next.drop_last() =~= prefix);
        proof {
            lemma_segments_nonempty(prefix);
        }
        if s[i] == '/' {
            let done = cur;
            pieces.push(done);
            cur = Vec::new();
            assert(pieces@.map_values(|p: Vec<char>| p@).push(cur@) =~= segments(next));
        } else {
            let ghost before = pieces@.map_values(|p: Vec<char>| p@).push(cur@);
            cur.push(s[i]);
            assert(pieces@.map_values(|p: Vec<char>| p@).push(cur@) =~= before.update(
                before.len() - 1,
                before.last().push(s@[i as int]),
            ));
        }
        i = i + 1;
    }
    assert(s@.subrange(0, s@.len() as int) =~= s@);
    pieces.push(cur);
    pieces
}

/// Whether two character sequences are equal.
fn same_chars(a: &[char], b: &[char]) -> (r: bool)
    ensures
        r == (a@ == b@),
{
    crate::text::chars_equal(a, b)
}

/// Matches a pattern against a path; on a match, the captured parameters.
pub fn match_pattern(pattern: &str, path: &str) -> (r: Option<Vec<(String, String)>>)
    ensures
        match r {
            Some(ps) => pattern_matches(pattern@, path@) && ps@.map_values(
                |p: (String, String)| (p.0@, p.1@),
            ) == captures(segments(pattern@), segments(path@)),
            None => !pattern_matches(pattern@, path@),
        },
{
    let pc = chars_of(pattern);
    let rc = chars_of(path);
    let ps = split_segments(pc.as_slice());
    let rs = split_segments(rc.as_slice());
    let ghost psv = ps@.map_values(|p: Vec<char>| p@);
    let ghost rsv = rs@.map_values(|p: Vec<char>| p@);
    if ps.len() != rs.len() {
        return None;
    }
    let mut params: Vec<(String, String)> = Vec::new();
    let mut i: usize = 0;
    while i < ps.len()
        invariant
            i <= ps@.len(),
            ps@.len() == rs@.len(),
            psv == ps@.map_values(|p: Vec<char>| p@),
            rsv == rs@.map_values(|p: Vec<char>| p@),
            psv == segments(pattern@),
            rsv == segments(path@),
            forall|k: int| 0 <= k < i ==> segment_matches(#[trigger] psv[k], rsv[k]),
            params@.map_values(|p: (String, String)| (p.0@, p.1@)) == captures(
                psv.subrange(0, i as int),
                rsv.subrange(0, i as int),
            ),
        decreases ps@.len() - i,
    {
        let pseg = &ps[i];
        let rseg = &rs[i];
        assert(pseg@ == psv[i as int] && rseg@ == rsv[i as int]);
        let ghost before = params@.map_values(|p: (String, String)| (p.0@, p.1@));
        assert(psv.subrange(0, i + 1).drop_last() =~= psv.subrange(0, i as int));
        assert(rsv.subrange(0, i + 1).drop_last() =~= rsv.subrange(0, i as int));
        if pseg.len() > 0 && pseg[0] == ':' {
            if rseg.len() == 0 {
                return None;
            }
            let name = copy_range(pseg.as_slice(), 1, pseg.len());
            let ns = string_from_chars(name.as_slice());
            let vs = string_from_chars(rseg.as_slice());
            params.push((ns, vs));
            assert(params@.map_values(|p: (String, String)| (p.0@, p.1@)) =~= before.push(
                (pseg@.subrange(1, pseg@.len() as int), rseg@),
            ));
        } else {
            if !same_chars(pseg.as_slice(), rseg.as_slice()) {
                return None;
            }
            assert(params@.map_values(|p: (String, String)| (p.0@, p.1@)) =~= before);
        }
        i = i + 1;
    }
    assert(psv.subrange(0, i as int) =~= psv);
    assert(rsv.subrange(0, i as int) =~= rsv);
    Some(params)
}

/// Whether `path` is acceptable for routing (see [`safe_path`]).
pub fn check_safe_path(path: &str) -> (r: bool)
    ensures
        r == safe_path(path@),
{
    let cs = chars_of(path);
    let byte_len = path.as_bytes().len();
    let mut i: usize = 0;
    while i < cs.len()
        invariant
            i <= cs@.len(),
            cs@ == path@,
            forall|k: int| 0 <= k < i ==> !(#[trigger] cs@[k] == '.' && k + 1 < cs@.len() && cs@[k + 1] == '.'),
            forall|k: int|
                0 <= k < i ==> (#[trigger] cs@[k]) != '\\' && !is_control(cs@[k]),
        decreases cs@.len() - i,
    {
        let c = cs[i];
        if c == '.' && i + 1 < cs.len() && cs[i + 1] == '.' {
            return false;
        }
        let v = c as u32;
        let control = v <= 0x1f || (0x7f <= v && v <= 0x9f);
        if c == '\\' || control {
            return false;
        }
        i = i + 1;
    }
    assert(!(exists|k: int| 0 <= k < cs@.len() - 1 && #[trigger] cs@[k] == '.' && cs@[k + 1] == '.'));
    if cs.len() == 0 || cs[0] != '/' {
        return false;
    }
    assert(byte_len == vstd::utf8::encode_utf8(path@).len());
    byte_len <= 2048
}

impl<H> Router<H> {
    /// The routes as (method, path pattern) pairs, in order.
    pub closed spec fn routes(&self) -> Seq<(Seq<char>, Seq<char>)> {
        self.routes@.map_values(|r: Route<H>| (r.method@, r.path@))
    }

    /// The handler of route `i`.
    pub closed spec fn handler_at(&self, i: int) -> H {
        self.routes@[i].handler
    }

    /// A router with no routes.
    pub fn new() -> (r: Router<H>)
        ensures
            r.routes() == Seq::<(Seq<char>, Seq<char>)>::empty(),
    {
        let r = Router { routes: Vec::new() };
        assert(r.routes() =~= Seq::<(Seq<char>, Seq<char>)>::empty());
        r
    }

    /// Number of routes.
    pub fn len(&self) -> (r: usize)
        ensures
            r == self.routes().len(),
    {
        self.routes.len()
    }

    /// Adds a route for `method` and the path pattern `path`.
    pub fn add_route(self, method: Method, path: &str, handler: H) -> (r: Router<H>)
        ensures
            r.routes() == self.routes().push((method@, path@)),
            r.handler_at(self.routes().len() as int) == handler,
            forall|i: int| 0 <= i < self.routes().len() ==> r.handler_at(i) == self.handler_at(i),
    {
        let mut routes = self.routes;
        let ghost before = routes@;
        routes.push(Route { method, path: path.to_owned(), handler });
        let r = Router { routes };
        assert(r.routes() =~= self.routes().push((method@, path@)));
        r
    }

    /// Adds a `GET` route.
    pub fn get(self, path: &str, handler: H) -> (r: Router<H>)
        ensures
            r.routes() == self.routes().push(("GET"@, path@)),
            r.handler_at(self.routes().len() as int) == handler,
            forall|i: int| 0 <= i < self.routes().len() ==> r.handler_at(i) == self.handler_at(i),
    {
        self.add_route(Method::get(), path, handler)
    }

    /// Adds a `POST` route.
    pub fn post(self, path: &str, handler: H) -> (r: Router<H>)
        ensures
            r.routes() == self.routes().push(("POST"@, path@)),
            r.handler_at(self.routes().len() as int) == handler,
            forall|i: int| 0 <= i < self.routes().len() ==> r.handler_at(i) == self.handler_at(i),
    {
        self.add_route(Method::post(), path, handler)
    }

    /// Adds a `PUT` route.
    pub fn put(self, path: &str, handler: H) -> (r: Router<H>)
        ensures
            r.routes() == self.routes().push(("PUT"@, path@)),
            r.handler_at(self.routes().len() as int) == handler,
            forall|i: int| 0 <= i < self.routes().len() ==> r.handler_at(i) == self.handler_at(i),
    {
        self.add_route(Method::put(), path, handler)
    }

    /// Adds a `DELETE` route.
    pub fn delete(self, path: &str, handler: H) -> (r: Router<H>)
        ensures
            r.routes() == self.routes().push(("DELETE"@, path@)),
            r.handler_at(self.routes().len() as int) == handler,
            forall|i: int| 0 <= i < self.routes().len() ==> r.handler_at(i) == self.handler_at(i),
    {
        self.add_route(Method::delete(), path, handler)
    }

    /// Whether a request path is acceptable for routing (see [`safe_path`]).
    pub fn is_safe_path(&self, path: &str) -> (r: bool)
        ensures
            r == safe_path(path@),
    {
        check_safe_path(path)
    }

    /// The first route whose method equals `method` and whose pattern matches
    /// `path`, given that `path` is safe; with the captured parameters.
    pub fn find_handler_and_params(&self, method: &Method, path: &str) -> (r: Option<
        (&H, Vec<(String, String)>),
    >)
        ensures
            match r {
                Some((h, ps)) => exists|i: int|
                    0 <= i < self.routes().len() && route_selected(self.routes(), i, method@, path@)
                        && *h == self.handler_at(i) && ps@.map_values(
                        |p: (String, String)| (p.0@, p.1@),
                    ) == captures(segments(self.routes()[i].1), segments(path@)),
                None => forall|i: int|
                    0 <= i < self.routes().len() ==> !route_accepts(self.routes()[i], method@, path@),
            },
    {
        if !check_safe_path(path) {
            return None;
        }
        let mut i: usize = 0;
        while i < self.routes.len()
            invariant
                i <= self.routes@.len(),
                safe_path(path@),
                forall|k: int| 0 <= k < i ==> !route_accepts(#[trigger] self.routes()[k], method@, path@),
            decreases self.routes@.len() - i,
        {
            let route = &self.routes[i];
            assert(self.routes()[i as int] == (route.method@, route.path@));
            if route.method.same_as(method) {
                match match_pattern(route.path.as_str(), path) {
                    Some(params) => {
                        assert(route_selected(self.routes(), i as int, method@, path@));
                        assert(route.handler == self.handler_at(i as int));
                        assert(params@.map_values(|p: (String, String)| (p.0@, p.1@)) == captures(
                            segments(self.routes()[i as int].1),
                            segments(path@),
                        ));
                        return Some((&route.handler, params));
                    },
                    None => {},
                }
            }
            i = i + 1;
        }
        None
    }

    /// The handler of the first route that accepts `method` and `path`.
    pub fn find_route(&self, method: &Method, path: &str) -> (r: Option<&H>)
        ensures
            match r {
                Some(h) => exists|i: int|
                    0 <= i < self.routes().len() && route_selected(self.routes(), i, method@, path@)
                        && *h == self.handler_at(i),
                None => forall|i: int|
                    0 <= i < self.routes().len() ==> !route_accepts(self.routes()[i], method@, path@),
            },
    {
        match self.find_handler_and_params(method, path) {
            Some((h, _)) => Some(h),
            None => None,
        }
    }
}

/// A path matches itself taken as a pattern.
pub proof fn lemma_pattern_matches_itself(path: Seq<char>)
    ensures
        pattern_matches(path, path),
{
    let ps = segments(path);
    assert forall|i: int| 0 <= i < ps.len() implies segment_matches(#[trigger] ps[i], ps[i]) by {}
}

/// A registered route serves its own path: after a route for `method` and the
/// safe path `path` is added to routes of which none accepts that request,
/// the request is routed to the new route.
pub proof fn law_added_route_serves_its_path(
    routes: Seq<(Seq<char>, Seq<char>)>,
    method: Seq<char>,
    path: Seq<char>,
)
    requires
        safe_path(path),
        forall|i: int| 0 <= i < routes.len() ==> !route_accepts(#[trigger] routes[i], method, path),
    ensures
        route_selected(routes.push((method, path)), routes.len() as int, method, path),
{
    lemma_pattern_matches_itself(path);
    let r = routes.push((method, path));
    assert forall|k: int| 0 <= k < routes.len() implies !route_accepts(#[trigger] r[k], method, path) by {
        assert(r[k] == routes[k]);
    }
}

/// Adding a route never changes where a request is routed when an earlier
/// route already accepts it: the first accepting route wins.
pub proof fn law_earlier_route_wins(
    routes: Seq<(Seq<char>, Seq<char>)>,
    route: (Seq<char>, Seq<char>),
    i: int,
    method: Seq<char>,
    path: Seq<char>,
)
    requires
        0 <= i < routes.len(),
        route_selected(routes, i, method, path),
    ensures
        route_selected(routes.push(route), i, method, path),
{
    let r = routes.push(route);
    assert(r[i] == routes[i]);
    assert forall|k: int| 0 <= k < i implies !route_accepts(#[trigger] r[k], method, path) by {
        assert(r[k] == routes[k]);
    }
}

/// Unsafe paths are never dispatched: no route accepts a path that the safety
/// filter rejects.
pub proof fn law_unsafe_path_never_routed(route: (Seq<char>, Seq<char>), method: Seq<char>, path: Seq<char>)
    requires
        !safe_path(path),
    ensures
        !route_accepts(route, method, path),
{
}

/// A route accepts a request when the methods are equal, the path is safe,
/// and the pattern matches.
pub open spec fn route_accepts(route: (Seq<char>, Seq<char>), method: Seq<char>, path: Seq<char>) -> bool {
    route.0 == method && safe_path(path) && pattern_matches(route.1, path)
}

/// Route `i` is the first one that accepts the request.
pub open spec fn route_selected(
    routes: Seq<(Seq<char>, Seq<char>)>,
    i: int,
    method: Seq<char>,
    path: Seq<char>,
) -> bool {
    &&& route_accepts(routes[i], method, path)
    &&& forall|k: int| 0 <= k < i ==> !route_accepts(#[trigger] routes[k], method, path)
}

/// Segments joined back with `/` between them.
pub open spec fn join_segments(ss: Seq<Seq<char>>) -> Seq<char>
    decreases ss.len(),
{
    if ss.len() <= 1 {
        if ss.len() == 0 {
            Seq::empty()
        } else {
            ss[0]
        }
    } else {
        join_segments(ss.drop_last()) + seq!['/'] + ss.last()
    }
}

/// Splitting at `/` and joining again gives the text back.
pub proof fn lemma_join_segments(s: Seq<char>)
    ensures
        join_segments(segments(s)) == s,
    decreases s.len(),
{
    if s.len() > 0 {
        let t = s.drop_last();
        lemma_join_segments(t);
        lemma_segments_nonempty(t);
        let init = segments(t);
        if s.last() == '/' {
            assert(init.push(Seq::<char>::empty()).drop_last() =~= init);
            assert(join_segments(init) + seq!['/'] + Seq::<char>::empty() =~= s);
        } else {
            let u = init.update(init.len() - 1, init.last().push(s.last()));
            if init.len() == 1 {
                assert(u[0] =~= s);
            } else {
                assert(u.drop_last() =~= init.drop_last());
                let a = join_segments(init.drop_last());
                assert(join_segments(init) == a + seq!['/'] + init.last());
                assert(s =~= t.push(s.last()));
                assert(a + seq!['/'] + init.last().push(s.last()) =~= (a + seq!['/'] + init.last()).push(s.last()));
            }
        }
    }
}

/// The segments of a text without `:` hold no `:`.
pub proof fn lemma_segments_without(s: Seq<char>, c: char)
    requires
        forall|j: int| 0 <= j < s.len() ==> s[j] != c,
    ensures
        forall|i: int, j: int|
            0 <= i < segments(s).len() && 0 <= j < segments(s)[i].len() ==> #[trigger] segments(s)[i][j] != c,
    decreases s.len(),
{
    if s.len() > 0 {
        let t = s.drop_last();
        lemma_segments_without(t, c);
        lemma_segments_nonempty(t);
        let init = segments(t);
        if s.last() != '/' {
            let u = init.update(init.len() - 1, init.last().push(s.last()));
            assert forall|i: int, j: int| 0 <= i < u.len() && 0 <= j < u[i].len() implies #[trigger] u[i][j] != c by {
                if i < init.len() - 1 {
                    assert(u[i] == init[i]);
                } else if j < init.last().len() {
                    assert(u[i][j] == init[init.len() - 1][j]);
                }
            }
        } else {
            let u = init.push(Seq::<char>::empty());
            assert forall|i: int, j: int| 0 <= i < u.len() && 0 <= j < u[i].len() implies #[trigger] u[i][j] != c by {
                assert(u[i] == init[i]);
            }
        }
    }
}

/// A route pattern without `:` parameters is matched by exactly one path:
/// itself. A literal segment never matches a longer, shorter or otherwise
/// different request segment.
pub proof fn law_literal_pattern_matches_only_itself(pattern: Seq<char>, path: Seq<char>)
    requires
        forall|j: int| 0 <= j < pattern.len() ==> pattern[j] != ':',
    ensures
        pattern_matches(pattern, path) <==> pattern == path,
{
    lemma_pattern_matches_itself(pattern);
    if pattern_matches(pattern, path) {
        let ps = segments(pattern);
        let rs = segments(path);
        lemma_segments_without(pattern, ':');
        assert forall|i: int| 0 <= i < ps.len() implies ps[i] == rs[i] by {
            assert(segment_matches(ps[i], rs[i]));
            if ps[i].len() > 0 {
                assert(ps[i][0] != ':');
            }
        }
        assert(ps =~= rs);
        lemma_join_segments(pattern);
        lemma_join_segments(path);
    }
}

} // verus!
