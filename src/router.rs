//! A method/path router: routes are tried in the order they were registered,
//! and the first whose method and pattern fit the request wins. The matcher
//! is written here rather than taken from route_recognizer, which ranks the
//! routes that fit by how many static segments they have, not by the order
//! of registration.

use vstd::prelude::*;
use vstd::string::StrSliceExecFns;
use vstd::string::StringExecFns;

verus! {

/// The closed set of request handlers a route can lead to.
#[derive(Clone, Copy, Debug, PartialEq, Eq, Structural)]
pub enum Handler {
    Resolve,
    Landing,
    NotFound,
}

/// One registered route: method, pattern split into segments, handler.
pub struct Route {
    pub method: String,
    pub segments: Vec<String>,
    pub handler: Handler,
}

/// The routes in registration order.
pub struct Router {
    routes: Vec<Route>,
}

/// What routing a request yields: the handler and the parameters its pattern
/// bound, as (name, value) pairs in pattern order.
pub struct RouteMatch {
    pub handler: Handler,
    pub params: Vec<(String, String)>,
}

/// A route as a value: method, pattern segments, handler.
pub type RouteSpec = (Seq<char>, Seq<Seq<char>>, Handler);

/// The characters of each string.
pub open spec fn strings_view(v: Seq<String>) -> Seq<Seq<char>> {
    v.map_values(|s: String| s@)
}

/// The pairs of strings as pairs of character sequences.
pub open spec fn pairs_view(v: Seq<(String, String)>) -> Seq<(Seq<char>, Seq<char>)> {
    v.map_values(|p: (String, String)| (p.0@, p.1@))
}

/// `p` cut at every '/': one more segment than there are slashes.
pub open spec fn split_path(p: Seq<char>) -> Seq<Seq<char>>
    decreases p.len(),
{
    if p.len() == 0 {
        seq![Seq::empty()]
    } else {
        let prev = split_path(p.drop_last());
        if p.last() == '/' {
            prev.push(Seq::empty())
        } else {
            prev.update(prev.len() - 1, prev.last().push(p.last()))
        }
    }
}

/// A pattern segment of the form `:name` binds a parameter.
pub open spec fn is_param(seg: Seq<char>) -> bool {
    seg.len() > 1 && seg[0] == ':'
}

/// A parameter segment fits any non-empty path segment; a literal one only
/// itself.
pub open spec fn segment_fits(pat: Seq<char>, seg: Seq<char>) -> bool {
    if is_param(pat) {
        seg.len() > 0
    } else {
        pat == seg
    }
}

/// The pattern fits the path, segment by segment.
pub open spec fn pattern_fits(pat: Seq<Seq<char>>, path: Seq<Seq<char>>) -> bool {
    pat.len() == path.len() && forall|i: int| 0 <= i < pat.len() ==> segment_fits(pat[i], path[i])
}

/// The parameters bound by the first `n` segments of the pattern.
pub open spec fn bindings(pat: Seq<Seq<char>>, path: Seq<Seq<char>>, n: int) -> Seq<(Seq<char>, Seq<char>)>
    decreases n,
{
    if n <= 0 {
        Seq::empty()
    } else if is_param(pat[n - 1]) {
        bindings(pat, path, n - 1).push((pat[n - 1].drop_first(), path[n - 1]))
    } else {
        bindings(pat, path, n - 1)
    }
}

/// The first route, from index `k` on, whose method is `method` and whose
/// pattern fits `path`.
pub open spec fn first_fit(routes: Seq<RouteSpec>, method: Seq<char>, path: Seq<Seq<char>>, k: int) -> Option<int>
    decreases routes.len() - k,
{
    if k < 0 || k >= routes.len() {
        None
    } else if routes[k].0 == method && pattern_fits(routes[k].1, path) {
        Some(k)
    } else {
        first_fit(routes, method, path, k + 1)
    }
}

proof fn lemma_split_nonempty(p: Seq<char>)
    ensures
        split_path(p).len() >= 1,
    decreases p.len(),
{
    if p.len() > 0 {
        lemma_split_nonempty(p.drop_last());
    }
}

/// Cuts `p` at every '/'.
pub fn split_segments(p: &str) -> (r: Vec<String>)
    ensures
        strings_view(r@) == split_path(p@),
{
    let n = p.unicode_len();
    let mut segs: Vec<String> = Vec::new();
    let mut cur = String::new();
    let mut i: usize = 0;
    while i < n
        invariant
            n == p@.len(),
            i <= n,
            strings_view(segs@).push(cur@) == split_path(p@.take(i as int)),
        decreases n - i,
    {
        let c = p.get_char(i);
        proof {
            assert(p@.take(i as int + 1).drop_last() =~= p@.take(i as int));
            lemma_split_nonempty(p@.take(i as int));
        }
        let ghost prev = split_path(p@.take(i as int));
        if c == '/' {
            let ghost old_segs = segs@;
            segs.push(cur);
            cur = String::new();
            assert(strings_view(segs@) =~= strings_view(old_segs).push(prev.last()));
            assert(strings_view(segs@).push(cur@) =~= prev.push(Seq::empty()));
        } else {
            let one = p.substring_char(i, i + 1);
            assert(one@ =~= seq![c]);
            let ghost old_cur = cur@;
            assert(prev.last() == old_cur);
            cur.append(one);
            assert(cur@ =~= old_cur.push(c));
            assert(strings_view(segs@).push(cur@) =~= prev.update(prev.len() - 1, prev.last().push(c)));
        }
        i = i + 1;
    }
    assert(p@.take(n as int) =~= p@);
    segs.push(cur);
    segs
}

/// Whether a pattern segment binds a parameter.
fn param_segment(seg: &String) -> (r: bool)
    ensures
        r == is_param(seg@),
{
    seg.unicode_len() > 1 && seg.as_str().get_char(0) == ':'
}

/// The parameters the pattern binds on the path, if the pattern fits.
pub fn fit_pattern(pat: &Vec<String>, path: &Vec<String>) -> (r: Option<Vec<(String, String)>>)
    ensures
        match r {
            Some(ps) => pattern_fits(strings_view(pat@), strings_view(path@))
                && pairs_view(ps@) == bindings(strings_view(pat@), strings_view(path@), pat@.len() as int),
            None => !pattern_fits(strings_view(pat@), strings_view(path@)),
        },
{
    if pat.len() != path.len() {
        return None;
    }
    let ghost pv = strings_view(pat@);
    let ghost sv = strings_view(path@);
    let mut params: Vec<(String, String)> = Vec::new();
    let mut i: usize = 0;
    while i < pat.len()
        invariant
            pat@.len() == path@.len(),
            i <= pat@.len(),
            pv == strings_view(pat@),
            sv == strings_view(path@),
            forall|j: int| 0 <= j < i ==> segment_fits(pv[j], sv[j]),
            pairs_view(params@) == bindings(pv, sv, i as int),
        decreases pat.len() - i,
    {
        let p = &pat[i];
        let s = &path[i];
        if param_segment(p) {
            if s.unicode_len() == 0 {
                assert(!segment_fits(pv[i as int], sv[i as int]));
                return None;
            }
            let name = p.as_str().substring_char(1, p.unicode_len()).to_owned();
            assert(name@ =~= pv[i as int].drop_first());
            let ghost before = params@;
            params.push((name, s.clone()));
            assert(pairs_view(params@) =~= pairs_view(before).push((pv[i as int].drop_first(), sv[i as int])));
        } else if *p != *s {
            assert(!segment_fits(pv[i as int], sv[i as int]));
            return None;
        }
        i = i + 1;
    }
    Some(params)
}

impl Router {
    /// The routes in registration order.
    pub closed spec fn routes(&self) -> Seq<RouteSpec> {
        self.routes@.map_values(|r: Route| (r.method@, strings_view(r.segments@), r.handler))
    }

    /// The handler that routing `path` under `method` leads to.
    pub open spec fn route_spec(&self, path: Seq<char>, method: Seq<char>) -> Handler {
        match first_fit(self.routes(), method, split_path(path), 0) {
            Some(k) => self.routes()[k].2,
            None => Handler::NotFound,
        }
    }

    /// A router with no routes.
    pub fn new() -> (r: Router)
        ensures
            r.routes() == Seq::<RouteSpec>::empty(),
    {
        let r = Router { routes: Vec::new() };
        assert(r.routes() =~= Seq::<RouteSpec>::empty());
        r
    }

    /// Registers `handler` for `method` on `pattern`, after every route
    /// registered so far. Of two routes that fit the same request the one
    /// registered first wins.
    pub fn add(&mut self, method: &str, pattern: &str, handler: Handler)
        ensures
            final(self).routes() == old(self).routes().push((method@, split_path(pattern@), handler)),
    {
        let segments = split_segments(pattern);
        let route = Route { method: method.to_owned(), segments, handler };
        let ghost before = self.routes();
        self.routes.push(route);
        assert(self.routes() =~= before.push((method@, split_path(pattern@), handler)));
    }

    /// Registers `handler` for GET requests on `pattern`.
    pub fn get(&mut self, pattern: &str, handler: Handler)
        ensures
            final(self).routes() == old(self).routes().push(("GET"@, split_path(pattern@), handler)),
    {
        self.add("GET", pattern, handler)
    }

    /// Registers `handler` for POST requests on `pattern`.
    pub fn post(&mut self, pattern: &str, handler: Handler)
        ensures
            final(self).routes() == old(self).routes().push(("POST"@, split_path(pattern@), handler)),
    {
        self.add("POST", pattern, handler)
    }

    /// The handler of the first route, in registration order, whose method
    /// is `method` and whose pattern fits `path`, with the parameters it
    /// binds; the not-found handler and no parameters when none fits.
    pub fn route(&self, path: &str, method: &str) -> (r: RouteMatch)
        ensures
            match first_fit(self.routes(), method@, split_path(path@), 0) {
                Some(k) => r.handler == self.routes()[k].2 && pairs_view(r.params@) == bindings(
                    self.routes()[k].1,
                    split_path(path@),
                    self.routes()[k].1.len() as int,
                ),
                None => r.handler == Handler::NotFound && r.params@.len() == 0,
            },
            r.handler == self.route_spec(path@, method@),
    {
        let segs = split_segments(path);
        let wanted = String::from_str(method);
        let mut k: usize = 0;
        while k < self.routes.len()
            invariant
                k <= self.routes@.len(),
                wanted@ == method@,
                strings_view(segs@) == split_path(path@),
                first_fit(self.routes(), method@, split_path(path@), 0)
                    == first_fit(self.routes(), method@, split_path(path@), k as int),
            decreases self.routes.len() - k,
        {
            let route = &self.routes[k];
            assert(self.routes()[k as int] == (route.method@, strings_view(route.segments@), route.handler));
            if route.method == wanted {
                match fit_pattern(&route.segments, &segs) {
                    Some(params) => {
                        return RouteMatch { handler: route.handler, params };
                    },
                    None => {},
                }
            }
            k = k + 1;
        }
        RouteMatch { handler: Handler::NotFound, params: Vec::new() }
    }
}

} // verus!
