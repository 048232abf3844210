//! The route matcher that the route table is built on.
//!
//! Matching itself is done by `routefinder`. This module declares its router
//! type and states, without proof, what its operations do to the list of the
//! routes that were added.

use routefinder::{RouteSpec, Router, Segment};
use std::str::FromStr;
use vstd::prelude::*;

verus! {

/// One component of a route pattern, as the contracts see it.
pub enum Seg {
    /// One `/` between two components.
    Slash,
    /// One `.` between two components.
    Dot,
    /// Text that a path must hold verbatim.
    Exact(Seq<char>),
    /// A named capture that ends at the next `/` or `.` of the pattern.
    Param(Seq<char>),
    /// A capture of all that is left of the path.
    Wildcard,
}

/// One component of a route pattern.
pub enum RouterSegment {
    Slash,
    Dot,
    Exact(String),
    Param(String),
    Wildcard,
}

impl View for RouterSegment {
    type V = Seg;

    open spec fn view(&self) -> Seg {
        match self {
            RouterSegment::Slash => Seg::Slash,
            RouterSegment::Dot => Seg::Dot,
            RouterSegment::Exact(t) => Seg::Exact(t@),
            RouterSegment::Param(n) => Seg::Param(n@),
            RouterSegment::Wildcard => Seg::Wildcard,
        }
    }
}

/// The pattern that a list of components stands for.
pub open spec fn pattern_view(pattern: Seq<RouterSegment>) -> Seq<Seg> {
    pattern.map_values(|s: RouterSegment| s@)
}

/// A pattern that the matcher can be asked about: a wildcard stands last,
/// and a capture is followed by a `/`, a `.` or nothing.
pub open spec fn wf_pattern(p: Seq<Seg>) -> bool {
    forall|i: int|
        0 <= i < p.len() ==> match #[trigger] p[i] {
            Seg::Wildcard => i == p.len() - 1,
            Seg::Param(_) => i == p.len() - 1 || p[i + 1] is Slash || p[i + 1] is Dot,
            _ => true,
        }
}

#[verifier::external_type_specification]
#[verifier::external_body]
#[verifier::reject_recursive_types(Handler)]
pub struct ExRouter<Handler>(Router<Handler>);

/// The routes that were added to a router, in the order of their addition,
/// each with the target it was given.
pub uninterp spec fn router_routes(router: Router<Option<usize>>) -> Seq<(Seq<Seg>, Option<usize>)>;

/// Whether a pattern matches a path.
pub uninterp spec fn pattern_matches(pattern: Seq<Seg>, path: Seq<char>) -> bool;

/// The place, in the order of addition, of the route that a router with
/// these routes prefers for a path.
pub uninterp spec fn route_choice(routes: Seq<(Seq<Seg>, Option<usize>)>, path: Seq<char>) -> Option<
    int,
>;

/// The pattern that a written route stands for, if it is one.
pub uninterp spec fn parsed_pattern(source: Seq<char>) -> Option<Seq<Seg>>;

/// `Router::new`: a router without routes.
#[verifier::external_body]
pub(crate) fn router_new() -> (router: Router<Option<usize>>)
    ensures
        router_routes(router) == Seq::<(Seq<Seg>, Option<usize>)>::empty(),
{
    Router::new()
}

/// `Router::add` with a list of segments, which cannot fail: the route is
/// added after those that the router holds, and none of them is replaced,
/// since no two route specs compare as equal.
#[verifier::external_body]
pub(crate) fn router_add(
    router: &mut Router<Option<usize>>,
    pattern: Vec<RouterSegment>,
    target: Option<usize>,
)
    ensures
        router_routes(*final(router)) == router_routes(*old(router)).push(
            (pattern_view(pattern@), target),
        ),
{
    let segments: Vec<Segment> = pattern.into_iter().map(|s| match s {
        RouterSegment::Slash => Segment::Slash,
        RouterSegment::Dot => Segment::Dot,
        RouterSegment::Exact(t) => Segment::Exact(t.into()),
        RouterSegment::Param(n) => Segment::Param(n.into()),
        RouterSegment::Wildcard => Segment::Wildcard,
    }).collect();
    let _ = router.add(segments, target);
}

/// `Router::best_match`: the target of the first route, in the router's
/// order of preference, whose pattern matches the path. It is the target of
/// a route that matches, and there is none only if no route matches. The
/// matcher panics on a pattern that is not well formed, so none may be held.
#[verifier::external_body]
pub(crate) fn router_best_match(router: &Router<Option<usize>>, path: &str) -> (r: Option<
    Option<usize>,
>)
    requires
        forall|i: int|
            0 <= i < router_routes(*router).len() ==> wf_pattern(
                (#[trigger] router_routes(*router)[i]).0,
            ),
    ensures
        match route_choice(router_routes(*router), path@) {
            Some(i) => 0 <= i < router_routes(*router).len() && pattern_matches(
                router_routes(*router)[i].0,
                path@,
            ) && r == Some(router_routes(*router)[i].1),
            None => r is None && forall|j: int|
                0 <= j < router_routes(*router).len() ==> !pattern_matches(
                    (#[trigger] router_routes(*router)[j]).0,
                    path@,
                ),
        },
{
    router.best_match(path).map(|m| *m.handler())
}

/// `RouteSpec::from_str`: the segments of a written route, or nothing where
/// the text is refused.
#[verifier::external_body]
pub(crate) fn parse_pattern(source: &str) -> (r: Option<Vec<RouterSegment>>)
    ensures
        match r {
            Some(p) => parsed_pattern(source@) == Some(pattern_view(p@)),
            None => parsed_pattern(source@) is None,
        },
{
    RouteSpec::from_str(source).ok().map(|spec| spec.segments().iter().map(|s| match s {
        Segment::Slash => RouterSegment::Slash,
        Segment::Dot => RouterSegment::Dot,
        Segment::Exact(t) => RouterSegment::Exact(t.to_string()),
        Segment::Param(n) => RouterSegment::Param(n.to_string()),
        Segment::Wildcard => RouterSegment::Wildcard,
    }).collect())
}

} // verus!
