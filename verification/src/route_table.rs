//! The route table: the declared routes of an application, compiled into a
//! router, with one more pattern that hands a path over to remote calls.

use crate::request_parts::Verb;
use crate::router::{
    parse_pattern, parsed_pattern, pattern_matches, pattern_view, route_choice, router_add,
    router_best_match, router_new, router_routes, wf_pattern, RouterSegment, Seg,
};
use crate::text::{lemma_split_at_first, pieces, split_once_at};
use routefinder::Router;
use vstd::prelude::*;
use vstd::string::StringExecFns;

verus! {

/// One segment of a declared route.
#[derive(Clone, Debug, PartialEq, Eq)]
pub enum PathSegment {
    /// Text that the path must hold verbatim.
    Literal(String),
    /// A named parameter, which takes exactly one segment of the path.
    Param(String),
    /// A named parameter that the declaration marks as optional.
    OptionalParam(String),
    /// A named splat, which takes all that is left of the path.
    Splat(String),
}

/// How a page is rendered into its response.
#[derive(Clone, Copy, Debug, PartialEq, Eq, Structural)]
pub enum SsrMode {
    OutOfOrder,
    Async,
    InOrder,
    PartiallyBlocked,
}

/// How a route asks to be generated ahead of its requests.
#[derive(Clone, Copy, Debug, PartialEq, Eq, Structural)]
pub enum StaticMode {
    Upfront,
    Incremental,
}

/// A declared route: its path, how it is rendered, and the verbs it takes.
#[derive(Clone, Debug, PartialEq, Eq)]
pub struct RouteDescriptor {
    pub segments: Vec<PathSegment>,
    pub mode: SsrMode,
    pub methods: Vec<Verb>,
    pub static_mode: Option<StaticMode>,
}

/// Why a route table cannot be built.
#[derive(Clone, Copy, Debug, PartialEq, Eq, Structural)]
pub enum RouteConfigError {
    /// The route at `index` asks for generation ahead of its requests.
    UnsupportedStatic { index: usize },
    /// The route at `index` holds a splat that is not its last segment.
    MisplacedSplat { index: usize },
    /// The route at `index` has the path of an earlier route.
    DuplicatePath { index: usize },
    /// The prefix for remote calls does not give a usable pattern.
    InvalidPrefix,
    /// The pattern for remote calls is that of a route in the table.
    DuplicatePrefix,
}

/// What a path leads to.
#[derive(Debug)]
pub enum RouteMatch<'a> {
    /// The page of a declared route.
    Route(&'a RouteDescriptor),
    /// A remote call.
    ServerFn,
    /// Nothing.
    NoMatch,
}

/// What a path leads to, as the contracts see it.
pub enum Outcome {
    /// The declared route at this place of the table.
    Route(int),
    /// A remote call.
    Boundary,
    /// Nothing.
    NoMatch,
}

/// The component of a pattern that a declared segment compiles to.
pub open spec fn part(s: PathSegment) -> Seg {
    match s {
        PathSegment::Literal(t) => Seg::Exact(t@),
        PathSegment::Param(n) => Seg::Param(n@),
        PathSegment::OptionalParam(n) => Seg::Param(n@),
        PathSegment::Splat(_) => Seg::Wildcard,
    }
}

/// The pattern that a declared path compiles to: its segments in order, with
/// one `/` between each two of them.
pub open spec fn compiled(segments: Seq<PathSegment>) -> Seq<Seg>
    decreases segments.len(),
{
    if segments.len() == 0 {
        Seq::empty()
    } else if segments.len() == 1 {
        seq![part(segments[0])]
    } else {
        compiled(segments.drop_last()).push(Seg::Slash).push(part(segments.last()))
    }
}

/// No splat stands before the last segment.
pub open spec fn splat_terminal(segments: Seq<PathSegment>) -> bool {
    forall|i: int| 0 <= i < segments.len() && #[trigger] segments[i] is Splat ==> i
        == segments.len() - 1
}

/// The route at `i` has the path of an earlier route.
pub open spec fn duplicates_earlier(descriptors: Seq<RouteDescriptor>, i: int) -> bool {
    exists|j: int|
        0 <= j < i && #[trigger] compiled(descriptors[j].segments@) == compiled(
            descriptors[i].segments@,
        )
}

/// What is wrong with the route at `i`, if anything.
pub open spec fn descriptor_fault(descriptors: Seq<RouteDescriptor>, i: int) -> Option<
    RouteConfigError,
> {
    if descriptors[i].static_mode is Some {
        Some(RouteConfigError::UnsupportedStatic { index: i as usize })
    } else if !splat_terminal(descriptors[i].segments@) {
        Some(RouteConfigError::MisplacedSplat { index: i as usize })
    } else if duplicates_earlier(descriptors, i) {
        Some(RouteConfigError::DuplicatePath { index: i as usize })
    } else {
        None
    }
}

/// What is wrong with the first faulty route among the first `n`.
pub open spec fn first_fault(descriptors: Seq<RouteDescriptor>, n: int) -> Option<
    RouteConfigError,
>
    decreases n,
{
    if n <= 0 {
        None
    } else {
        match first_fault(descriptors, n - 1) {
            Some(e) => Some(e),
            None => descriptor_fault(descriptors, n - 1),
        }
    }
}

/// Once a route is found faulty, the routes after it do not change what is
/// reported.
pub proof fn lemma_fault_persists(descriptors: Seq<RouteDescriptor>, i: int, n: int)
    requires
        0 <= i < n,
        first_fault(descriptors, i) is None,
    ensures
        descriptor_fault(descriptors, i) is Some ==> first_fault(descriptors, n)
            == descriptor_fault(descriptors, i),
        descriptor_fault(descriptors, i) is None ==> first_fault(descriptors, i + 1) is None,
    decreases n - i,
{
    if n > i + 1 {
        lemma_fault_persists(descriptors, i, n - 1);
    }
}

/// The routes of a table that holds these pages and nothing else.
pub open spec fn page_routes(descriptors: Seq<RouteDescriptor>) -> Seq<(Seq<Seg>, Option<usize>)> {
    Seq::new(
        descriptors.len(),
        |i: int| (compiled(descriptors[i].segments@), Some(i as usize)),
    )
}

/// What the preferred route among `routes` leads to.
pub open spec fn outcome_of(routes: Seq<(Seq<Seg>, Option<usize>)>, path: Seq<char>) -> Outcome {
    match route_choice(routes, path) {
        Some(i) => target_outcome(routes[i].1),
        None => Outcome::NoMatch,
    }
}

/// What the target of a route leads to.
pub open spec fn target_outcome(target: Option<usize>) -> Outcome {
    match target {
        Some(k) => Outcome::Route(k as int),
        None => Outcome::Boundary,
    }
}

/// The shape of a compiled pattern: the segments stand at the even places
/// and a `/` at each odd place.
pub proof fn lemma_compiled_shape(segments: Seq<PathSegment>)
    ensures
        compiled(segments).len() == if segments.len() == 0 {
            0
        } else {
            2 * segments.len() - 1
        },
        forall|i: int|
            0 <= i < segments.len() ==> #[trigger] compiled(segments)[2 * i] == part(segments[i]),
        forall|i: int|
            0 <= i < segments.len() - 1 ==> #[trigger] compiled(segments)[2 * i + 1] == Seg::Slash,
    decreases segments.len(),
{
    if segments.len() > 1 {
        let rest = segments.drop_last();
        lemma_compiled_shape(rest);
        let c = compiled(segments);
        assert forall|i: int| 0 <= i < segments.len() implies #[trigger] c[2 * i] == part(
            segments[i],
        ) by {
            if i < segments.len() - 1 {
                assert(c[2 * i] == compiled(rest)[2 * i]);
                assert(rest[i] == segments[i]);
            }
        }
        assert forall|i: int| 0 <= i < segments.len() - 1 implies #[trigger] c[2 * i + 1]
            == Seg::Slash by {
            if i < segments.len() - 2 {
                assert(c[2 * i + 1] == compiled(rest)[2 * i + 1]);
            }
        }
    }
}

/// A compiled pattern is well formed exactly if no splat stands before the
/// last segment.
pub proof fn lemma_compiled_wf(segments: Seq<PathSegment>)
    ensures
        wf_pattern(compiled(segments)) == splat_terminal(segments),
{
    lemma_compiled_shape(segments);
    let c = compiled(segments);
    let n = segments.len() as int;
    if splat_terminal(segments) {
        assert forall|j: int| 0 <= j < c.len() implies match #[trigger] c[j] {
            Seg::Wildcard => j == c.len() - 1,
            Seg::Param(_) => j == c.len() - 1 || c[j + 1] is Slash || c[j + 1] is Dot,
            _ => true,
        } by {
            if j % 2 == 0 {
                let i = j / 2;
                assert(c[2 * i] == part(segments[i]));
                if c[j] is Wildcard {
                    assert(segments[i] is Splat);
                }
                if c[j] is Param && j < c.len() - 1 {
                    assert(c[2 * i + 1] == Seg::Slash);
                }
            } else {
                let i = j / 2;
                assert(c[2 * i + 1] == Seg::Slash);
            }
        }
    } else {
        let i = choose|i: int|
            0 <= i < segments.len() && #[trigger] segments[i] is Splat && i != segments.len() - 1;
        assert(c[2 * i] == part(segments[i]));
        assert(c[2 * i] is Wildcard);
    }
}

/// Tells whether no splat stands before the last segment.
pub fn splat_is_terminal(segments: &Vec<PathSegment>) -> (r: bool)
    ensures
        r == splat_terminal(segments@),
{
    let n: usize = segments.len();
    let mut i: usize = 0;
    while i < n
        invariant
            i <= n,
            n == segments@.len(),
            forall|k: int| 0 <= k < i && #[trigger] segments@[k] is Splat ==> k == n - 1,
        decreases n - i,
    {
        let misplaced = match &segments[i] {
            PathSegment::Splat(_) => i + 1 < n,
            _ => false,
        };
        if misplaced {
            return false;
        }
        i = i + 1;
    }
    true
}

/// Compiles a declared path into the pattern that the router takes.
pub fn compile_segments(segments: &Vec<PathSegment>) -> (r: Vec<RouterSegment>)
    ensures
        pattern_view(r@) == compiled(segments@),
{
    let mut out: Vec<RouterSegment> = Vec::new();
    let n: usize = segments.len();
    let mut i: usize = 0;
    proof {
        assert(pattern_view(out@) =~= compiled(segments@.take(0)));
    }
    while i < n
        invariant
            i <= n,
            n == segments@.len(),
            pattern_view(out@) == compiled(segments@.take(i as int)),
        decreases n - i,
    {
        let ghost before = out@;
        if i > 0 {
            out.push(RouterSegment::Slash);
        }
        let piece = match &segments[i] {
            PathSegment::Literal(t) => RouterSegment::Exact(t.clone()),
            PathSegment::Param(name) => RouterSegment::Param(name.clone()),
            PathSegment::OptionalParam(name) => RouterSegment::Param(name.clone()),
            PathSegment::Splat(_) => RouterSegment::Wildcard,
        };
        assert(piece@ == part(segments@[i as int]));
        out.push(piece);
        proof {
            let s = segments@.take(i as int + 1);
            assert(s.drop_last() =~= segments@.take(i as int));
            assert(s.last() == segments@[i as int]);
            if i == 0 {
                assert(compiled(segments@.take(0)) =~= Seq::<Seg>::empty());
                assert(pattern_view(out@) =~= compiled(s));
            } else {
                assert(pattern_view(out@) =~= pattern_view(before).push(Seg::Slash).push(
                    part(segments@[i as int]),
                ));
            }
        }
        i = i + 1;
    }
    proof {
        assert(segments@.take(n as int) =~= segments@);
    }
    out
}


/// Tells whether two components of a pattern are the same.
pub fn segment_equal(a: &RouterSegment, b: &RouterSegment) -> (r: bool)
    ensures
        r == (a@ == b@),
{
    match (a, b) {
        (RouterSegment::Slash, RouterSegment::Slash) => true,
        (RouterSegment::Dot, RouterSegment::Dot) => true,
        (RouterSegment::Wildcard, RouterSegment::Wildcard) => true,
        (RouterSegment::Exact(t), RouterSegment::Exact(u)) => *t == *u,
        (RouterSegment::Param(t), RouterSegment::Param(u)) => *t == *u,
        _ => false,
    }
}

/// Tells whether two patterns are the same.
pub fn patterns_equal(a: &Vec<RouterSegment>, b: &Vec<RouterSegment>) -> (r: bool)
    ensures
        r == (pattern_view(a@) == pattern_view(b@)),
{
    if a.len() != b.len() {
        proof {
            assert(pattern_view(a@).len() != pattern_view(b@).len());
        }
        return false;
    }
    let n: usize = a.len();
    let mut i: usize = 0;
    while i < n
        invariant
            i <= n,
            n == a@.len(),
            n == b@.len(),
            forall|k: int| 0 <= k < i ==> a@[k]@ == b@[k]@,
        decreases n - i,
    {
        if !segment_equal(&a[i], &b[i]) {
            proof {
                assert(pattern_view(a@)[i as int] != pattern_view(b@)[i as int]);
            }
            return false;
        }
        i = i + 1;
    }
    proof {
        assert(pattern_view(a@) =~= pattern_view(b@));
    }
    true
}

/// Tells whether a pattern is well formed.
pub fn pattern_is_wf(p: &Vec<RouterSegment>) -> (r: bool)
    ensures
        r == wf_pattern(pattern_view(p@)),
{
    let n: usize = p.len();
    let mut i: usize = 0;
    while i < n
        invariant
            i <= n,
            n == p@.len(),
            forall|k: int|
                0 <= k < i ==> match #[trigger] pattern_view(p@)[k] {
                    Seg::Wildcard => k == n - 1,
                    Seg::Param(_) => k == n - 1 || pattern_view(p@)[k + 1] is Slash
                        || pattern_view(p@)[k + 1] is Dot,
                    _ => true,
                },
        decreases n - i,
    {
        let fine = match &p[i] {
            RouterSegment::Wildcard => i + 1 == n,
            RouterSegment::Param(_) => {
                if i + 1 == n {
                    true
                } else {
                    match &p[i + 1] {
                        RouterSegment::Slash => true,
                        RouterSegment::Dot => true,
                        _ => false,
                    }
                }
            },
            _ => true,
        };
        if !fine {
            proof {
                let v = pattern_view(p@);
                assert(v[i as int] == p@[i as int]@);
                if i + 1 < n {
                    assert(v[i as int + 1] == p@[i as int + 1]@);
                }
            }
            return false;
        }
        proof {
            let v = pattern_view(p@);
            assert(v[i as int] == p@[i as int]@);
            if i + 1 < n {
                assert(v[i as int + 1] == p@[i as int + 1]@);
            }
        }
        i = i + 1;
    }
    true
}

/// A copy of a pattern.
pub fn clone_pattern(p: &Vec<RouterSegment>) -> (r: Vec<RouterSegment>)
    ensures
        pattern_view(r@) == pattern_view(p@),
{
    let mut out: Vec<RouterSegment> = Vec::new();
    let n: usize = p.len();
    let mut i: usize = 0;
    while i < n
        invariant
            i <= n,
            n == p@.len(),
            out@.len() == i,
            forall|k: int| 0 <= k < i ==> out@[k]@ == p@[k]@,
        decreases n - i,
    {
        let piece = match &p[i] {
            RouterSegment::Slash => RouterSegment::Slash,
            RouterSegment::Dot => RouterSegment::Dot,
            RouterSegment::Exact(t) => RouterSegment::Exact(t.clone()),
            RouterSegment::Param(name) => RouterSegment::Param(name.clone()),
            RouterSegment::Wildcard => RouterSegment::Wildcard,
        };
        out.push(piece);
        i = i + 1;
    }
    proof {
        assert(pattern_view(out@) =~= pattern_view(p@));
    }
    out
}

/// Some pattern of the list is the pattern `p`.
pub open spec fn holds_pattern(patterns: Seq<Vec<RouterSegment>>, p: Seq<Seg>) -> bool {
    exists|k: int| 0 <= k < patterns.len() && pattern_view(#[trigger] patterns[k]@) == p
}

/// Tells whether a list of patterns holds the pattern `p`.
pub fn find_pattern(patterns: &Vec<Vec<RouterSegment>>, p: &Vec<RouterSegment>) -> (r: bool)
    ensures
        r == holds_pattern(patterns@, pattern_view(p@)),
{
    let n: usize = patterns.len();
    let mut i: usize = 0;
    while i < n
        invariant
            i <= n,
            n == patterns@.len(),
            forall|k: int| 0 <= k < i ==> pattern_view(#[trigger] patterns@[k]@) != pattern_view(p@),
        decreases n - i,
    {
        if patterns_equal(&patterns[i], p) {
            return true;
        }
        i = i + 1;
    }
    false
}

/// The routes of an application, ready to be matched against paths.
pub struct RouteTable {
    router: Router<Option<usize>>,
    descriptors: Vec<RouteDescriptor>,
    patterns: Vec<Vec<RouterSegment>>,
}

impl RouteTable {
    /// A table as `build` makes it and the additions keep it: the router
    /// holds one well-formed pattern for each kept pattern, no pattern
    /// twice, and every target is a page of the table.
    pub closed spec fn wf(&self) -> bool {
        let routes = router_routes(self.router);
        &&& routes.len() == self.patterns@.len()
        &&& forall|k: int|
            0 <= k < routes.len() ==> (#[trigger] routes[k]).0 == pattern_view(self.patterns@[k]@)
        &&& forall|k: int| 0 <= k < routes.len() ==> wf_pattern((#[trigger] routes[k]).0)
        &&& forall|k: int|
            0 <= k < routes.len() ==> match (#[trigger] routes[k]).1 {
                Some(t) => t < self.descriptors@.len(),
                None => true,
            }
        &&& forall|a: int, b: int|
            0 <= a < b < routes.len() ==> (#[trigger] routes[a]).0 != (#[trigger] routes[b]).0
    }

    /// The pages of the table, in the order of their declaration.
    pub closed spec fn descriptors(&self) -> Seq<RouteDescriptor> {
        self.descriptors@
    }

    /// The routes of the table in the order of their addition, each with its
    /// pattern and with the page it leads to (none for remote calls).
    pub closed spec fn routes(&self) -> Seq<(Seq<Seg>, Option<usize>)> {
        router_routes(self.router)
    }

    /// What a path leads to in this table.
    pub open spec fn outcome(&self, path: Seq<char>) -> Outcome {
        outcome_of(self.routes(), path)
    }

    /// Builds the table of the declared routes. A route that asks for
    /// generation ahead of its requests, holds a splat before its last
    /// segment, or has the path of an earlier route is refused: the error
    /// is that of the first such route.
    pub fn build(descriptors: Vec<RouteDescriptor>) -> (r: Result<RouteTable, RouteConfigError>)
        ensures
            match r {
                Ok(table) => {
                    &&& table.wf()
                    &&& first_fault(descriptors@, descriptors@.len() as int) is None
                    &&& table.descriptors() == descriptors@
                    &&& table.routes() == page_routes(descriptors@)
                },
                Err(e) => first_fault(descriptors@, descriptors@.len() as int) == Some(e),
            },
    {
        let mut router = router_new();
        let mut patterns: Vec<Vec<RouterSegment>> = Vec::new();
        let n: usize = descriptors.len();
        let mut i: usize = 0;
        proof {
            assert(router_routes(router) =~= page_routes(descriptors@).take(0));
        }
        while i < n
            invariant
                i <= n,
                n == descriptors@.len(),
                first_fault(descriptors@, i as int) is None,
                router_routes(router) == page_routes(descriptors@).take(i as int),
                patterns@.len() == i,
                forall|k: int|
                    0 <= k < i ==> pattern_view(#[trigger] patterns@[k]@) == compiled(
                        descriptors@[k].segments@,
                    ),
                forall|k: int| 0 <= k < i ==> splat_terminal(#[trigger] descriptors@[k].segments@),
                forall|a: int, b: int|
                    0 <= a < b < i ==> pattern_view(#[trigger] patterns@[a]@) != pattern_view(
                        #[trigger] patterns@[b]@,
                    ),
            decreases n - i,
        {
            proof {
                lemma_fault_persists(descriptors@, i as int, n as int);
            }
            if descriptors[i].static_mode.is_some() {
                return Err(RouteConfigError::UnsupportedStatic { index: i });
            }
            if !splat_is_terminal(&descriptors[i].segments) {
                return Err(RouteConfigError::MisplacedSplat { index: i });
            }
            let pattern = compile_segments(&descriptors[i].segments);
            let twice = find_pattern(&patterns, &pattern);
            proof {
                if twice {
                    let k = choose|k: int|
                        0 <= k < patterns@.len() && pattern_view(#[trigger] patterns@[k]@)
                            == pattern_view(pattern@);
                    assert(compiled(descriptors@[k].segments@) == compiled(
                        descriptors@[i as int].segments@,
                    ));
                } else {
                    assert forall|j: int| 0 <= j < i implies #[trigger] compiled(
                        descriptors@[j].segments@,
                    ) != compiled(descriptors@[i as int].segments@) by {
                        assert(pattern_view(patterns@[j]@) != pattern_view(pattern@));
                    }
                }
            }
            if twice {
                return Err(RouteConfigError::DuplicatePath { index: i });
            }
            let kept = clone_pattern(&pattern);
            router_add(&mut router, pattern, Some(i));
            patterns.push(kept);
            proof {
                assert(router_routes(router) =~= page_routes(descriptors@).take(i as int + 1));
            }
            i = i + 1;
        }
        proof {
            assert(page_routes(descriptors@).take(n as int) =~= page_routes(descriptors@));
            let routes = router_routes(router);
            assert forall|k: int| 0 <= k < routes.len() implies wf_pattern(
                (#[trigger] routes[k]).0,
            ) by {
                lemma_compiled_wf(descriptors@[k].segments@);
            }
            assert forall|k: int| 0 <= k < routes.len() implies (#[trigger] routes[k]).0
                == pattern_view(patterns@[k]@) by {}
            assert forall|a: int, b: int| 0 <= a < b < routes.len() implies (#[trigger] routes[a]).0
                != (#[trigger] routes[b]).0 by {
                assert(pattern_view(patterns@[a]@) != pattern_view(patterns@[b]@));
            }
        }
        Ok(RouteTable { router, descriptors, patterns })
    }

    /// Adds a pattern that hands the paths it matches over to remote calls.
    /// A pattern that is not well formed, or that the table holds already,
    /// is refused and the table is left as it was.
    pub fn add_boundary_pattern(&mut self, pattern: Vec<RouterSegment>) -> (r: Result<
        (),
        RouteConfigError,
    >)
        requires
            old(self).wf(),
        ensures
            final(self).wf(),
            final(self).descriptors() == old(self).descriptors(),
            r == boundary_verdict(old(self).routes(), pattern_view(pattern@)),
            final(self).routes() == match r {
                Ok(_) => old(self).routes().push((pattern_view(pattern@), None)),
                Err(_) => old(self).routes(),
            },
    {
        if !pattern_is_wf(&pattern) {
            return Err(RouteConfigError::InvalidPrefix);
        }
        let twice = find_pattern(&self.patterns, &pattern);
        proof {
            let routes = router_routes(self.router);
            let p = pattern_view(pattern@);
            if twice {
                let k = choose|k: int|
                    0 <= k < self.patterns@.len() && pattern_view(#[trigger] self.patterns@[k]@)
                        == p;
                assert(routes[k].0 == p);
            } else {
                assert forall|k: int| 0 <= k < routes.len() implies (#[trigger] routes[k]).0
                    != p by {
                    assert(pattern_view(self.patterns@[k]@) != p);
                }
            }
        }
        if twice {
            return Err(RouteConfigError::DuplicatePrefix);
        }
        let kept = clone_pattern(&pattern);
        router_add(&mut self.router, pattern, None);
        self.patterns.push(kept);
        proof {
            let routes = router_routes(self.router);
            let before = router_routes(old(self).router);
            assert forall|k: int| 0 <= k < routes.len() implies (#[trigger] routes[k]).0
                == pattern_view(self.patterns@[k]@) by {
                if k < before.len() {
                    assert(routes[k] == before[k]);
                }
            }
            assert forall|k: int| 0 <= k < routes.len() implies wf_pattern(
                (#[trigger] routes[k]).0,
            ) by {
                if k < before.len() {
                    assert(routes[k] == before[k]);
                }
            }
            assert forall|k: int| 0 <= k < routes.len() implies match (#[trigger] routes[k]).1 {
                Some(t) => t < self.descriptors@.len(),
                None => true,
            } by {
                if k < before.len() {
                    assert(routes[k] == before[k]);
                }
            }
            assert forall|a: int, b: int| 0 <= a < b < routes.len() implies (#[trigger] routes[a]).0
                != (#[trigger] routes[b]).0 by {
                assert(routes[a] == before[a]);
                if b < before.len() {
                    assert(routes[b] == before[b]);
                }
            }
        }
        Ok(())
    }

    /// Hands every path under `prefix` over to remote calls: the pattern
    /// written as the prefix followed by `/*` is added to the table. Where
    /// the router refuses that text, or the pattern is not well formed or
    /// is held already, the table is left as it was.
    pub fn add_server_fn_prefix(&mut self, prefix: &str) -> (r: Result<(), RouteConfigError>)
        requires
            old(self).wf(),
        ensures
            final(self).wf(),
            final(self).descriptors() == old(self).descriptors(),
            r == prefix_verdict(old(self).routes(), parsed_pattern(prefix@ + "/*"@)),
            final(self).routes() == match r {
                Ok(_) => old(self).routes().push((parsed_pattern(prefix@ + "/*"@)->0, None)),
                Err(_) => old(self).routes(),
            },
    {
        let mut text = prefix.to_owned();
        text.append("/*");
        match parse_pattern(text.as_str()) {
            Some(pattern) => self.add_boundary_pattern(pattern),
            None => Err(RouteConfigError::InvalidPrefix),
        }
    }

    /// Finds what a path leads to: the page of the route that the router
    /// prefers among those whose pattern matches the path, a remote call
    /// where that route is a boundary, and nothing exactly where no pattern
    /// of the table matches. Where exactly one pattern matches, its route
    /// is the one found.
    pub fn best_match(&self, path: &str) -> (r: RouteMatch<'_>)
        requires
            self.wf(),
        ensures
            match self.outcome(path@) {
                Outcome::Route(k) => {
                    &&& 0 <= k < self.descriptors().len()
                    &&& r matches RouteMatch::Route(d)
                    &&& *d == self.descriptors()[k]
                },
                Outcome::Boundary => r is ServerFn,
                Outcome::NoMatch => r is NoMatch,
            },
            r is NoMatch <==> no_route_matches(self.routes(), path@),
            forall|i: int|
                only_route_matching(self.routes(), path@, i) ==> self.outcome(path@)
                    == target_outcome(#[trigger] self.routes()[i].1),
    {
        let found = router_best_match(&self.router, path);
        proof {
            let routes = router_routes(self.router);
            assert forall|i: int| only_route_matching(routes, path@, i) implies outcome_of(
                routes,
                path@,
            ) == target_outcome(#[trigger] routes[i].1) by {
                match route_choice(routes, path@) {
                    Some(c) => {
                        if c != i {
                            assert(!pattern_matches(routes[c].0, path@));
                        }
                    },
                    None => {
                        assert(!pattern_matches(routes[i].0, path@));
                    },
                }
            }
            if route_choice(routes, path@) is Some {
                let c = route_choice(routes, path@)->0;
                assert(pattern_matches(routes[c].0, path@));
            }
        }
        match found {
            Some(Some(k)) => RouteMatch::Route(&self.descriptors[k]),
            Some(None) => RouteMatch::ServerFn,
            None => RouteMatch::NoMatch,
        }
    }
}

/// Some route holds the pattern `p`.
pub open spec fn routes_hold(routes: Seq<(Seq<Seg>, Option<usize>)>, p: Seq<Seg>) -> bool {
    exists|k: int| 0 <= k < routes.len() && (#[trigger] routes[k]).0 == p
}

/// Whether a pattern can be added as a boundary to these routes.
pub open spec fn boundary_verdict(routes: Seq<(Seq<Seg>, Option<usize>)>, p: Seq<Seg>) -> Result<
    (),
    RouteConfigError,
> {
    if !wf_pattern(p) {
        Err(RouteConfigError::InvalidPrefix)
    } else if routes_hold(routes, p) {
        Err(RouteConfigError::DuplicatePrefix)
    } else {
        Ok(())
    }
}

/// Whether a written prefix pattern, as the router reads it, can be added as
/// a boundary to these routes.
pub open spec fn prefix_verdict(
    routes: Seq<(Seq<Seg>, Option<usize>)>,
    parsed: Option<Seq<Seg>>,
) -> Result<(), RouteConfigError> {
    match parsed {
        Some(p) => boundary_verdict(routes, p),
        None => Err(RouteConfigError::InvalidPrefix),
    }
}

/// No pattern among the routes matches the path.
pub open spec fn no_route_matches(routes: Seq<(Seq<Seg>, Option<usize>)>, path: Seq<char>) -> bool {
    forall|j: int| 0 <= j < routes.len() ==> !pattern_matches((#[trigger] routes[j]).0, path)
}

/// The route at `i` is the only one whose pattern matches the path.
pub open spec fn only_route_matching(
    routes: Seq<(Seq<Seg>, Option<usize>)>,
    path: Seq<char>,
    i: int,
) -> bool {
    &&& 0 <= i < routes.len()
    &&& pattern_matches(routes[i].0, path)
    &&& forall|j: int|
        0 <= j < routes.len() && j != i ==> !pattern_matches((#[trigger] routes[j]).0, path)
}


/// One segment of a declared route, as the contracts see it.
pub enum PathPart {
    Literal(Seq<char>),
    Param(Seq<char>),
    OptionalParam(Seq<char>),
    Splat(Seq<char>),
}

impl View for PathSegment {
    type V = PathPart;

    open spec fn view(&self) -> PathPart {
        match self {
            PathSegment::Literal(t) => PathPart::Literal(t@),
            PathSegment::Param(n) => PathPart::Param(n@),
            PathSegment::OptionalParam(n) => PathPart::OptionalParam(n@),
            PathSegment::Splat(n) => PathPart::Splat(n@),
        }
    }
}

/// A declared route, as the contracts see it.
pub struct DescriptorView {
    pub segments: Seq<PathPart>,
    pub mode: SsrMode,
    pub methods: Seq<Verb>,
    pub static_mode: Option<StaticMode>,
}

impl View for RouteDescriptor {
    type V = DescriptorView;

    open spec fn view(&self) -> DescriptorView {
        DescriptorView {
            segments: self.segments@.map_values(|s: PathSegment| s@),
            mode: self.mode,
            methods: self.methods@,
            static_mode: self.static_mode,
        }
    }
}

/// A segment with the catch-all that applications write as the literal
/// `*any` turned into a splat named `any`; any other segment unchanged.
pub open spec fn splat_for_any(p: PathPart) -> PathPart {
    match p {
        PathPart::Literal(t) => if t == "*any"@ {
            PathPart::Splat("any"@)
        } else {
            p
        },
        _ => p,
    }
}

/// A route with each of its segments passed through `splat_for_any`.
pub open spec fn wildcards_rewritten(d: DescriptorView) -> DescriptorView {
    DescriptorView {
        segments: d.segments.map_values(|p: PathPart| splat_for_any(p)),
        mode: d.mode,
        methods: d.methods,
        static_mode: d.static_mode,
    }
}

/// The route that stands for an application that declares none: the root
/// path, rendered out of order, reached by `GET`.
pub open spec fn root_route() -> DescriptorView {
    DescriptorView {
        segments: Seq::empty(),
        mode: SsrMode::OutOfOrder,
        methods: seq![Verb::Get],
        static_mode: None,
    }
}

/// The routes that a table is built from, given the routes that the
/// application declares.
pub open spec fn route_list(declared: Seq<DescriptorView>) -> Seq<DescriptorView> {
    if declared.len() == 0 {
        seq![root_route()]
    } else {
        declared.map_values(|d: DescriptorView| wildcards_rewritten(d))
    }
}

/// The views of a list of routes.
pub open spec fn descriptor_views(list: Seq<RouteDescriptor>) -> Seq<DescriptorView> {
    list.map_values(|d: RouteDescriptor| d@)
}

/// A copy of a list of verbs.
pub fn clone_verbs(verbs: &Vec<Verb>) -> (r: Vec<Verb>)
    ensures
        r@ == verbs@,
{
    let mut out: Vec<Verb> = Vec::new();
    let n: usize = verbs.len();
    let mut i: usize = 0;
    while i < n
        invariant
            i <= n,
            n == verbs@.len(),
            out@ == verbs@.take(i as int),
        decreases n - i,
    {
        out.push(verbs[i]);
        proof {
            assert(verbs@.take(i as int + 1) =~= verbs@.take(i as int).push(verbs@[i as int]));
        }
        i = i + 1;
    }
    proof {
        assert(verbs@.take(n as int) =~= verbs@);
    }
    out
}

/// Turns the catch-all segment that applications write as the literal
/// `*any` into a splat; the rest of the route is kept.
pub fn leptos_wildcards_to_spin(listing: &RouteDescriptor) -> (r: RouteDescriptor)
    ensures
        r@ == wildcards_rewritten(listing@),
{
    let mut segments: Vec<PathSegment> = Vec::new();
    let n: usize = listing.segments.len();
    let mut i: usize = 0;
    let any_literal = "*any".to_owned();
    while i < n
        invariant
            i <= n,
            n == listing.segments@.len(),
            any_literal@ == "*any"@,
            segments@.len() == i,
            forall|k: int| 0 <= k < i ==> segments@[k]@ == splat_for_any(listing.segments@[k]@),
        decreases n - i,
    {
        let piece = match &listing.segments[i] {
            PathSegment::Literal(t) => {
                if *t == any_literal {
                    PathSegment::Splat("any".to_owned())
                } else {
                    PathSegment::Literal(t.clone())
                }
            },
            PathSegment::Param(name) => PathSegment::Param(name.clone()),
            PathSegment::OptionalParam(name) => PathSegment::OptionalParam(name.clone()),
            PathSegment::Splat(name) => PathSegment::Splat(name.clone()),
        };
        segments.push(piece);
        i = i + 1;
    }
    let r = RouteDescriptor {
        segments,
        mode: listing.mode,
        methods: clone_verbs(&listing.methods),
        static_mode: listing.static_mode,
    };
    proof {
        assert(r@.segments =~= wildcards_rewritten(listing@).segments);
    }
    r
}

/// Prepares the routes that an application declares for the table: each
/// has its catch-all segment turned into a splat, and an application
/// without routes gets the root route.
pub fn generate_route_list(declared: Vec<RouteDescriptor>) -> (r: Vec<RouteDescriptor>)
    ensures
        descriptor_views(r@) == route_list(descriptor_views(declared@)),
{
    let n: usize = declared.len();
    if n == 0 {
        let mut methods: Vec<Verb> = Vec::new();
        methods.push(Verb::Get);
        let root = RouteDescriptor {
            segments: Vec::new(),
            mode: SsrMode::OutOfOrder,
            methods,
            static_mode: None,
        };
        let mut out: Vec<RouteDescriptor> = Vec::new();
        proof {
            assert(root@.segments =~= root_route().segments);
            assert(root@.methods =~= root_route().methods);
        }
        out.push(root);
        proof {
            assert(descriptor_views(out@) =~= route_list(descriptor_views(declared@)));
        }
        return out;
    }
    let mut out: Vec<RouteDescriptor> = Vec::new();
    let mut i: usize = 0;
    while i < n
        invariant
            i <= n,
            n == declared@.len(),
            out@.len() == i,
            forall|k: int| 0 <= k < i ==> out@[k]@ == wildcards_rewritten(declared@[k]@),
        decreases n - i,
    {
        out.push(leptos_wildcards_to_spin(&declared[i]));
        i = i + 1;
    }
    proof {
        assert(descriptor_views(out@) =~= route_list(descriptor_views(declared@)));
    }
    out
}


/// The segment that one piece of a written path stands for: none for an
/// empty piece; a parameter for a piece that starts with `:`, optional
/// where it also ends with `?`; a splat for a piece that starts with `*`;
/// else the piece as a literal.
pub open spec fn piece_part(piece: Seq<char>) -> Option<PathPart> {
    if piece.len() == 0 {
        None
    } else if piece[0] == ':' {
        if piece.len() >= 2 && piece.last() == '?' {
            Some(PathPart::OptionalParam(piece.subrange(1, piece.len() - 1)))
        } else {
            Some(PathPart::Param(piece.subrange(1, piece.len() as int)))
        }
    } else if piece[0] == '*' {
        Some(PathPart::Splat(piece.subrange(1, piece.len() as int)))
    } else {
        Some(PathPart::Literal(piece))
    }
}

/// The segments that a list of pieces stands for, in order.
pub open spec fn parts_of(list: Seq<Seq<char>>) -> Seq<PathPart>
    decreases list.len(),
{
    if list.len() == 0 {
        Seq::empty()
    } else {
        match piece_part(list[0]) {
            Some(p) => seq![p] + parts_of(list.drop_first()),
            None => parts_of(list.drop_first()),
        }
    }
}

/// The segments of a written path: those of its pieces between `/`.
pub open spec fn path_parts(path: Seq<char>) -> Seq<PathPart> {
    parts_of(pieces(path, '/'))
}

/// The views of a list of segments.
pub open spec fn segment_views(list: Seq<PathSegment>) -> Seq<PathPart> {
    list.map_values(|s: PathSegment| s@)
}

/// Reads one piece of a written path.
pub fn parse_piece(piece: &str) -> (r: Option<PathSegment>)
    ensures
        match r {
            Some(s) => piece_part(piece@) == Some(s@),
            None => piece_part(piece@) is None,
        },
{
    if piece.is_empty() {
        return None;
    }
    let n: usize = piece.unicode_len();
    let first = piece.get_char(0);
    if first == ':' {
        if n >= 2 && piece.get_char(n - 1) == '?' {
            Some(PathSegment::OptionalParam(piece.substring_char(1, n - 1).to_owned()))
        } else {
            Some(PathSegment::Param(piece.substring_char(1, n).to_owned()))
        }
    } else if first == '*' {
        Some(PathSegment::Splat(piece.substring_char(1, n).to_owned()))
    } else {
        Some(PathSegment::Literal(piece.to_owned()))
    }
}

/// Reads a written path, such as `/users/:id/*rest`, into its segments.
pub fn parse_route_path(path: &str) -> (r: Vec<PathSegment>)
    ensures
        segment_views(r@) == path_parts(path@),
{
    let mut out: Vec<PathSegment> = Vec::new();
    let mut rest: &str = path;
    let mut open = true;
    proof {
        assert(segment_views(out@) =~= Seq::<PathPart>::empty());
    }
    while open
        invariant
            open ==> path_parts(path@) == segment_views(out@) + path_parts(rest@),
            !open ==> path_parts(path@) == segment_views(out@),
        decreases
                (if open {
                    rest@.len() + 1
                } else {
                    0
                }),
    {
        let ghost before_out = out@;
        let split = split_once_at(rest, '/');
        let piece = match split {
            Some((before, _)) => before,
            None => rest,
        };
        proof {
            match split {
                Some((before, after)) => {
                    lemma_split_at_first(rest@, '/', before@, after@);
                    assert((seq![before@] + pieces(after@, '/')).drop_first() =~= pieces(
                        after@,
                        '/',
                    ));
                },
                None => {
                    lemma_split_at_first(rest@, '/', Seq::empty(), Seq::empty());
                    assert(seq![rest@].drop_first() =~= Seq::<Seq<char>>::empty());
                    assert(parts_of(Seq::<Seq<char>>::empty()) =~= Seq::<PathPart>::empty());
                    assert(path_parts(rest@) =~= match piece_part(rest@) {
                        Some(p) => seq![p],
                        None => Seq::<PathPart>::empty(),
                    });
                },
            }
        }
        match parse_piece(piece) {
            Some(segment) => {
                out.push(segment);
                proof {
                    assert(segment_views(out@) =~= segment_views(before_out) + seq![segment@]);
                }
            },
            None => {},
        }
        match split {
            Some((_, after)) => {
                proof {
                    assert(path_parts(path@) =~= segment_views(out@) + path_parts(after@));
                }
                rest = after;
            },
            None => {
                proof {
                    assert(path_parts(path@) =~= segment_views(out@));
                }
                open = false;
            },
        }
    }
    out
}

} // verus!
