//! The route table and the router that selects a route for a request.
use vstd::prelude::*;
use crate::engine::{regex_captures, regex_compiles, regex_matches, set_compiles, texts_view, RegexGroup};
use crate::fragment::Fragment;
use crate::method::{same_method, Method};
use crate::pattern::{template_pattern, template_slots, unknown_tag, template_pieces, Pattern, PatternError};

verus! {

/// Whether a route's method filter lets a request of `method` through; no
/// filter lets every method through.
pub open spec fn method_allows(filter: Option<Method>, method: Method) -> bool {
    match filter {
        None => true,
        Some(m) => same_method(m, method),
    }
}

/// A route: a template, its compiled pattern, an optional method filter and
/// the endpoint it leads to.
#[derive(Debug)]
pub struct Route<E> {
    path: String,
    pattern: Pattern,
    method: Option<Method>,
    endpoint: E,
}

impl<E> Route<E> {
    /// The template the route was registered with.
    pub closed spec fn template(&self) -> Seq<char> {
        self.path@
    }

    /// The source of the route's anchored expression.
    pub closed spec fn source(&self) -> Seq<char> {
        self.pattern.source()
    }

    /// The names of the route's capture slots.
    pub closed spec fn slots(&self) -> Seq<Option<Seq<char>>> {
        self.pattern.slots()
    }

    /// The method the route is limited to, if any.
    pub closed spec fn method_filter(&self) -> Option<Method> {
        self.method
    }

    /// The endpoint the route leads to.
    pub closed spec fn endpoint_of(&self) -> E {
        self.endpoint
    }

    /// The template the route was registered with.
    pub fn path(&self) -> (r: &str)
        ensures
            r@ == self.template(),
    {
        self.path.as_str()
    }

    /// The compiled pattern.
    pub fn pattern(&self) -> (r: &Pattern)
        ensures
            r.source() == self.source(),
            r.slots() == self.slots(),
    {
        &self.pattern
    }

    /// The method the route is limited to, if any.
    pub fn method(&self) -> (r: Option<&Method>)
        ensures
            match r {
                Some(m) => self.method_filter() == Some(*m),
                None => self.method_filter() is None,
            },
    {
        match &self.method {
            Some(m) => Some(m),
            None => None,
        }
    }

    /// The endpoint the route leads to.
    pub fn endpoint(&self) -> (r: &E)
        ensures
            *r == self.endpoint_of(),
    {
        &self.endpoint
    }

    /// Whether the route's method filter lets `method` through.
    pub fn matches(&self, method: &Method) -> (r: bool)
        ensures
            r == method_allows(self.method_filter(), *method),
    {
        match &self.method {
            None => true,
            Some(m) => m.same_as(method),
        }
    }
}

/// Whether a route accepts a request for `path` with `method`.
pub open spec fn route_accepts<E>(route: Route<E>, path: Seq<char>, method: Method) -> bool {
    regex_matches(route.source(), path) && method_allows(route.method_filter(), method)
}

/// The index of the last of the first `n` routes that accepts the request.
pub open spec fn last_accepting<E>(routes: Seq<Route<E>>, n: int, path: Seq<char>, method: Method) -> Option<int>
    decreases n,
{
    if n <= 0 {
        None
    } else if route_accepts(routes[n - 1], path, method) {
        Some(n - 1)
    } else {
        last_accepting(routes, n - 1, path, method)
    }
}

/// The sources of the expressions of a list of routes.
pub open spec fn route_sources<E>(routes: Seq<Route<E>>) -> Seq<Seq<char>> {
    routes.map_values(|r: Route<E>| r.source())
}

/// What handles a request: the route at an index, the fallback endpoint, or
/// the built-in endpoint that answers with a server error.
#[derive(Clone, Copy, Debug, PartialEq, Eq, Structural)]
pub enum Target {
    Route(usize),
    Fallback,
    Default,
}

/// An HTTP router.
///
/// This holds routes in the order they were registered, the middleware that
/// every request passes through, and an optional fallback endpoint. When a
/// request matches several routes on path and method, the route registered
/// last is chosen, so a specific route registered after a general one
/// overrides it.
///
/// The routes' expressions are compiled into one set by [`Router::prepare`];
/// routes registered after the last call of it are not seen by lookups.
pub struct Router<E, M> {
    regex: RegexGroup,
    routes: Vec<Route<E>>,
    middleware: Vec<M>,
    fallback: Option<E>,
}

impl<E, M> Router<E, M> {
    /// The set compiled by the last `prepare` holds the expressions of the
    /// routes that existed then, which are the first routes of the table.
    pub closed spec fn wf(&self) -> bool {
        &&& self.regex.sources().len() <= self.routes.len()
        &&& forall|i: int|
            0 <= i < self.regex.sources().len() ==> self.regex.sources()[i]
                == self.routes@[i].source()
    }

    /// The routes, in registration order.
    pub closed spec fn table(&self) -> Seq<Route<E>> {
        self.routes@
    }

    /// How many of the first routes the last `prepare` compiled.
    pub closed spec fn prepared(&self) -> int {
        self.regex.sources().len() as int
    }

    /// The middleware, in the order it runs.
    pub closed spec fn middleware(&self) -> Seq<M> {
        self.middleware@
    }

    /// The fallback endpoint, if one is set.
    pub closed spec fn fallback_of(&self) -> Option<E> {
        self.fallback
    }

    /// The route that a lookup selects: the last prepared route that
    /// accepts the request.
    pub open spec fn selected(&self, path: Seq<char>, method: Method) -> Option<int> {
        last_accepting(self.table(), self.prepared(), path, method)
    }

    /// A router with no routes, no middleware and no fallback.
    pub fn new() -> (r: Self)
        ensures
            r.wf(),
            r.table().len() == 0,
            r.prepared() == 0,
            r.middleware().len() == 0,
            r.fallback_of() is None,
    {
        Router { regex: RegexGroup::empty(), routes: Vec::new(), middleware: Vec::new(), fallback: None }
    }

    /// Registers a route for `template`, limited to `method` when one is
    /// given. Fails, leaving the router as it was, when the template does
    /// not compile.
    pub fn register(&mut self, template: &str, method: Option<Method>, endpoint: E) -> (r: Result<(), PatternError>)
        requires
            old(self).wf(),
        ensures
            final(self).wf(),
            match r {
                Ok(()) => {
                    &&& unknown_tag(template_pieces(template@)) is None
                    &&& final(self).table().len() == old(self).table().len() + 1
                    &&& final(self).table().take(old(self).table().len() as int) == old(self).table()
                    &&& final(self).table().last().template() == template@
                    &&& final(self).table().last().source() == template_pattern(template@)
                    &&& final(self).table().last().slots() == template_slots(template@)
                    &&& final(self).table().last().method_filter() == method
                    &&& final(self).table().last().endpoint_of() == endpoint
                },
                Err(PatternError::UnknownType(t)) => unknown_tag(template_pieces(template@)) == Some(t@),
                Err(PatternError::Rejected(_)) => unknown_tag(template_pieces(template@)) is None
                    && !regex_compiles(template_pattern(template@)),
            },
            r is Err ==> final(self).table() == old(self).table(),
            final(self).prepared() == old(self).prepared(),
            final(self).middleware() == old(self).middleware(),
            final(self).fallback_of() == old(self).fallback_of(),
    {
        let pattern = match Pattern::new(template) {
            Ok(p) => p,
            Err(e) => {
                return Err(e);
            },
        };
        self.push_route(Route { path: String::from_str(template), pattern, method, endpoint });
        Ok(())
    }

    /// Appends a route to the table.
    fn push_route(&mut self, route: Route<E>)
        requires
            old(self).wf(),
        ensures
            final(self).wf(),
            final(self).table() == old(self).table().push(route),
            final(self).prepared() == old(self).prepared(),
            final(self).middleware() == old(self).middleware(),
            final(self).fallback_of() == old(self).fallback_of(),
    {
        self.routes.push(route);
        assert(forall|i: int| 0 <= i < old(self).routes@.len() ==> self.routes@[i] == old(self).routes@[i]);
    }

    /// Compiles the expressions of all routes into one set, so that lookups
    /// see every route registered so far. Must run after the routes are
    /// registered and again after they change. When the expression engine
    /// refuses the set, the router stays as it was.
    pub fn prepare(&mut self) -> (r: Result<(), regex::Error>)
        requires
            old(self).wf(),
        ensures
            final(self).wf(),
            final(self).table() == old(self).table(),
            final(self).middleware() == old(self).middleware(),
            final(self).fallback_of() == old(self).fallback_of(),
            r is Ok <==> set_compiles(route_sources(old(self).table())),
            r is Ok ==> final(self).prepared() == old(self).table().len(),
            r is Err ==> final(self).prepared() == old(self).prepared(),
    {
        let mut patterns: Vec<String> = Vec::new();
        let mut i: usize = 0;
        while i < self.routes.len()
            invariant
                i <= self.routes.len(),
                patterns.len() == i,
                forall|k: int| 0 <= k < i ==> patterns@[k]@ == self.routes@[k].source(),
            decreases self.routes.len() - i,
        {
            let source = self.routes[i].pattern.regex().as_str();
            patterns.push(String::from_str(source));
            i = i + 1;
        }
        assert(texts_view(patterns@) =~= route_sources(self.routes@));
        match RegexGroup::new(patterns) {
            Ok(set) => {
                self.regex = set;
                Ok(())
            },
            Err(e) => Err(e),
        }
    }

    /// The routes, in registration order.
    pub fn routes(&self) -> (r: &Vec<Route<E>>)
        ensures
            r@ == self.table(),
    {
        &self.routes
    }

    /// Appends middleware; middleware runs in the order it was appended.
    pub fn with(&mut self, middleware: M) -> (r: &mut Self)
        requires
            old(self).wf(),
        ensures
            r.wf(),
            r.middleware() == old(self).middleware().push(middleware),
            r.table() == old(self).table(),
            r.prepared() == old(self).prepared(),
            r.fallback_of() == old(self).fallback_of(),
            *final(self) == *final(r),
    {
        self.middleware.push(middleware);
        self
    }

    /// Sets the endpoint that handles requests no route accepts.
    pub fn fallback(&mut self, endpoint: E) -> (r: &mut Self)
        requires
            old(self).wf(),
        ensures
            r.wf(),
            r.fallback_of() == Some(endpoint),
            r.middleware() == old(self).middleware(),
            r.table() == old(self).table(),
            r.prepared() == old(self).prepared(),
            *final(self) == *final(r),
    {
        self.fallback = Some(endpoint);
        self
    }

    /// The middleware, in the order it runs.
    pub fn middleware_list(&self) -> (r: &Vec<M>)
        ensures
            r@ == self.middleware(),
    {
        &self.middleware
    }

    /// The fallback endpoint, if one is set.
    pub fn fallback_endpoint(&self) -> (r: Option<&E>)
        ensures
            match r {
                Some(e) => self.fallback_of() == Some(*e),
                None => self.fallback_of() is None,
            },
    {
        match &self.fallback {
            Some(e) => Some(e),
            None => None,
        }
    }

    /// The index of the route selected for a request: among the prepared
    /// routes whose expression matches `path` and whose method filter lets
    /// `method` through, the one registered last.
    pub fn lookup_index(&self, path: &str, method: &Method) -> (r: Option<usize>)
        requires
            self.wf(),
        ensures
            match self.selected(path@, *method) {
                Some(i) => r == Some(i as usize),
                None => r is None,
            },
    {
        let hits = self.regex.matches(path);
        let ghost n = self.prepared();
        let mut k = hits.len();
        proof {
            lemma_last_accepting_skip(self.table(), n, n, path@, *method);
            assert forall|j: int| 0 <= j < n implies (regex_matches(self.table()[j].source(), path@)
                <==> hits@.contains(j as usize)) by {
                assert(self.regex.sources()[j] == self.routes@[j].source());
            }
        }
        while k > 0
            invariant
                k <= hits.len(),
                self.wf(),
                n == self.prepared(),
                n <= self.table().len(),
                forall|a: int, b: int| 0 <= a < b < hits.len() ==> hits[a] < hits[b],
                forall|a: int| 0 <= a < hits.len() ==> hits[a] < n,
                forall|j: int|
                    0 <= j < n ==> (regex_matches(self.table()[j].source(), path@) <==> hits@.contains(
                        j as usize,
                    )),
                last_accepting(self.table(), n, path@, *method) == last_accepting(
                    self.table(),
                    if k < hits.len() {
                        hits[k as int] as int
                    } else {
                        n
                    },
                    path@,
                    *method,
                ),
            decreases k,
        {
            let ghost limit = if k < hits.len() {
                hits[k as int] as int
            } else {
                n
            };
            k = k - 1;
            let i = hits[k];
            proof {
                assert(hits@.contains(i));
                assert(regex_matches(self.table()[i as int].source(), path@));
                assert forall|j: int| i < j < limit implies !route_accepts(self.table()[j], path@, *method) by {
                    if hits@.contains(j as usize) {
                        let a = choose|a: int| 0 <= a < hits.len() && hits[a] == j as usize;
                        if a <= k {
                            assert(hits[a] <= hits[k as int]);
                        } else if a < k + 1 {
                        } else if k + 1 < hits.len() {
                            assert(hits[a] >= hits[k + 1]);
                        }
                    }
                }
                lemma_last_accepting_skip(self.table(), i as int + 1, limit, path@, *method);
            }
            if self.routes[i].matches(method) {
                return Some(i);
            }
        }
        proof {
            let limit = if 0 < hits.len() {
                hits[0] as int
            } else {
                n
            };
            assert forall|j: int| 0 <= j < limit implies !route_accepts(self.table()[j], path@, *method) by {
                if hits@.contains(j as usize) {
                    let a = choose|a: int| 0 <= a < hits.len() && hits[a] == j as usize;
                    if a > 0 {
                        assert(hits[a] > hits[0]);
                    }
                }
            }
            lemma_last_accepting_skip(self.table(), 0, limit, path@, *method);
        }
        None
    }

    /// The route selected for a request, as [`Router::lookup_index`] finds it.
    pub fn lookup(&self, path: &str, method: &Method) -> (r: Option<&Route<E>>)
        requires
            self.wf(),
        ensures
            match self.selected(path@, *method) {
                Some(i) => r is Some && *r->Some_0 == self.table()[i],
                None => r is None,
            },
    {
        proof {
            lemma_last_accepting_range(self.table(), self.prepared(), path@, *method);
        }
        match self.lookup_index(path, method) {
            Some(i) => Some(&self.routes[i]),
            None => None,
        }
    }

    /// The selected route of a request together with the fragments its
    /// expression captured from the path; `None` when no route is selected.
    pub fn resolve(&self, path: &str, method: &Method) -> (r: Option<(usize, Fragment)>)
        requires
            self.wf(),
        ensures
            match self.selected(path@, *method) {
                Some(i) => r matches Some((k, f)) && k == i && regex_captures(
                    self.table()[i].source(),
                    path@,
                ) == Some(f.groups()) && f.names() == self.table()[i].slots(),
                None => r is None,
            },
    {
        proof {
            lemma_selected_accepts(*self, path@, *method);
        }
        match self.lookup_index(path, method) {
            Some(i) => match Fragment::new(path, &self.routes[i]) {
                Some(f) => Some((i, f)),
                None => None,
            },
            None => None,
        }
    }

    /// What handles a request: the selected route, else the fallback
    /// endpoint, else the built-in endpoint that answers with a server error.
    pub fn target(&self, path: &str, method: &Method) -> (r: Target)
        requires
            self.wf(),
        ensures
            r == choose_target(self.selected(path@, *method), self.fallback_of() is Some),
    {
        let found = self.lookup_index(path, method);
        let has_fallback = match &self.fallback {
            Some(_) => true,
            None => false,
        };
        match found {
            Some(i) => Target::Route(i),
            None => if has_fallback {
                Target::Fallback
            } else {
                Target::Default
            },
        }
    }
}

impl<E, M> Default for Router<E, M> {
    /// A router with no routes, no middleware and no fallback.
    fn default() -> (r: Self)
        ensures
            r.wf(),
            r.table().len() == 0,
            r.prepared() == 0,
            r.middleware().len() == 0,
            r.fallback_of() is None,
    {
        Router::new()
    }
}

/// A router with no routes, no middleware and no fallback.
pub fn http<E, M>() -> (r: Router<E, M>)
    ensures
        r.wf(),
        r.table().len() == 0,
        r.prepared() == 0,
        r.middleware().len() == 0,
        r.fallback_of() is None,
{
    Router::new()
}

/// The handler of a request given the selected route and whether a fallback
/// endpoint is set.
pub open spec fn choose_target(selected: Option<int>, has_fallback: bool) -> Target {
    match selected {
        Some(i) => Target::Route(i as usize),
        None => if has_fallback {
            Target::Fallback
        } else {
            Target::Default
        },
    }
}

/// The route found among the first `n` is one of them.
proof fn lemma_last_accepting_range<E>(routes: Seq<Route<E>>, n: int, path: Seq<char>, method: Method)
    ensures
        last_accepting(routes, n, path, method) matches Some(i) ==> 0 <= i < n,
    decreases n,
{
    if n > 0 {
        lemma_last_accepting_range(routes, n - 1, path, method);
    }
}

/// Routes that do not accept a request can be passed over when looking for
/// the last one that does.
proof fn lemma_last_accepting_skip<E>(routes: Seq<Route<E>>, lo: int, hi: int, path: Seq<char>, method: Method)
    requires
        0 <= lo <= hi <= routes.len(),
        forall|j: int| lo <= j < hi ==> !route_accepts(#[trigger] routes[j], path, method),
    ensures
        last_accepting(routes, hi, path, method) == last_accepting(routes, lo, path, method),
    decreases hi - lo,
{
    if hi > lo {
        lemma_last_accepting_skip(routes, lo, hi - 1, path, method);
    }
}


} // verus!

verus! {

/// The route a lookup selects accepts the request: its expression matches
/// the path and its method filter lets the method through. So a route
/// limited to one method is never selected for a request of another method.
pub proof fn lemma_selected_accepts<E, M>(router: Router<E, M>, path: Seq<char>, method: Method)
    ensures
        router.selected(path, method) matches Some(i) ==> {
            &&& 0 <= i < router.prepared()
            &&& regex_matches(router.table()[i].source(), path)
            &&& method_allows(router.table()[i].method_filter(), method)
        },
{
    lemma_selected_accepts_below(router.table(), router.prepared(), path, method);
}

proof fn lemma_selected_accepts_below<E>(routes: Seq<Route<E>>, n: int, path: Seq<char>, method: Method)
    ensures
        last_accepting(routes, n, path, method) matches Some(i) ==> 0 <= i < n && route_accepts(
            routes[i],
            path,
            method,
        ),
    decreases n,
{
    if n > 0 {
        lemma_selected_accepts_below(routes, n - 1, path, method);
    }
}

/// The route registered last wins: when two prepared routes `i < j` both
/// accept a request, the lookup selects `j` or a route registered after it,
/// never `i`.
pub proof fn lemma_last_registered_wins<E, M>(
    router: Router<E, M>,
    path: Seq<char>,
    method: Method,
    i: int,
    j: int,
)
    requires
        0 <= i < j < router.prepared(),
        route_accepts(router.table()[i], path, method),
        route_accepts(router.table()[j], path, method),
    ensures
        router.selected(path, method) matches Some(k) && j <= k,
{
    lemma_found_at_or_after(router.table(), router.prepared(), path, method, j);
}

proof fn lemma_found_at_or_after<E>(routes: Seq<Route<E>>, n: int, path: Seq<char>, method: Method, j: int)
    requires
        0 <= j < n,
        route_accepts(routes[j], path, method),
    ensures
        last_accepting(routes, n, path, method) matches Some(k) && j <= k,
    decreases n,
{
    if n - 1 > j && !route_accepts(routes[n - 1], path, method) {
        lemma_found_at_or_after(routes, n - 1, path, method, j);
    }
}

/// A path that no prepared route's expression matches selects no route,
/// whatever the method.
pub proof fn lemma_unmatched_path<E, M>(router: Router<E, M>, path: Seq<char>, method: Method)
    requires
        forall|i: int| 0 <= i < router.prepared() ==> !regex_matches(#[trigger] router.table()[i].source(), path),
    ensures
        router.selected(path, method) is None,
{
    lemma_selected_accepts(router, path, method);
}

/// Preparing twice with the same routes changes no lookup. `first` is what
/// a successful `prepare` made of `start`, and `second` what a further
/// `prepare` made of `first`, whether that one succeeded or not: both select
/// the same route for every request.
pub proof fn lemma_prepare_idempotent<E, M>(
    start: Router<E, M>,
    first: Router<E, M>,
    second: Router<E, M>,
    path: Seq<char>,
    method: Method,
)
    requires
        first.table() == start.table(),
        first.prepared() == start.table().len(),
        second.table() == first.table(),
        second.prepared() == first.table().len() || second.prepared() == first.prepared(),
    ensures
        second.selected(path, method) == first.selected(path, method),
{
}

} // verus!
