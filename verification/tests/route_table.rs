use leptos_spin::request_parts::Verb;
use leptos_spin::route_table::{
    clone_pattern, clone_verbs, compile_segments, find_pattern, generate_route_list,
    leptos_wildcards_to_spin, parse_piece, parse_route_path, pattern_is_wf, patterns_equal,
    segment_equal, splat_is_terminal,
    PathSegment, RouteConfigError, RouteDescriptor, RouteMatch, RouteTable, SsrMode, StaticMode,
};
use leptos_spin::router::RouterSegment;

fn lit(t: &str) -> PathSegment {
    PathSegment::Literal(t.to_string())
}

fn param(t: &str) -> PathSegment {
    PathSegment::Param(t.to_string())
}

fn splat(t: &str) -> PathSegment {
    PathSegment::Splat(t.to_string())
}

fn route(segments: Vec<PathSegment>, mode: SsrMode) -> RouteDescriptor {
    RouteDescriptor {
        segments,
        mode,
        methods: vec![Verb::Get],
        static_mode: None,
    }
}

fn table(routes: Vec<RouteDescriptor>) -> RouteTable {
    RouteTable::build(routes).expect("the routes should build")
}

fn matched(t: &RouteTable, path: &str) -> Option<RouteDescriptor> {
    match t.best_match(path) {
        RouteMatch::Route(d) => Some(d.clone()),
        _ => None,
    }
}

#[test]
fn path_without_a_route_finds_nothing() {
    let t = table(vec![
        route(vec![lit("a"), lit("b")], SsrMode::OutOfOrder),
        route(vec![lit("c")], SsrMode::Async),
    ]);
    assert!(matches!(t.best_match("/zzz"), RouteMatch::NoMatch));
    assert!(matches!(t.best_match("/a"), RouteMatch::NoMatch));
    assert!(matches!(t.best_match("/a/b/c"), RouteMatch::NoMatch));
    assert!(matches!(t.best_match("/"), RouteMatch::NoMatch));
    assert!(matches!(t.best_match("/ab"), RouteMatch::NoMatch));
}

#[test]
fn exact_literal_path_finds_its_route() {
    let first = route(vec![lit("a"), lit("b")], SsrMode::OutOfOrder);
    let second = route(vec![lit("c")], SsrMode::Async);
    let t = table(vec![first.clone(), second.clone()]);
    assert_eq!(Some(first), matched(&t, "/a/b"));
    assert_eq!(Some(second.clone()), matched(&t, "/c"));
    assert_eq!(Some(second), matched(&t, "/c/"));
}

#[test]
fn literal_wins_over_parameter() {
    let with_param = route(vec![lit("a"), param("x")], SsrMode::OutOfOrder);
    let literal = route(vec![lit("a"), lit("b")], SsrMode::InOrder);
    let t = table(vec![with_param.clone(), literal.clone()]);
    assert_eq!(Some(literal.clone()), matched(&t, "/a/b"));
    assert_eq!(Some(with_param.clone()), matched(&t, "/a/c"));
    let t = table(vec![literal.clone(), with_param.clone()]);
    assert_eq!(Some(literal), matched(&t, "/a/b"));
    assert_eq!(Some(with_param), matched(&t, "/a/c"));
}

#[test]
fn splat_takes_what_a_parameter_cannot() {
    let with_splat = route(vec![lit("a"), splat("rest")], SsrMode::PartiallyBlocked);
    let with_param = route(vec![lit("a"), param("x")], SsrMode::OutOfOrder);
    let t = table(vec![with_splat.clone(), with_param.clone()]);
    assert_eq!(Some(with_splat.clone()), matched(&t, "/a/b/c"));
    assert_eq!(Some(with_param.clone()), matched(&t, "/a/b"));
    assert_eq!(Some(with_splat), matched(&t, "/a"));
}

#[test]
fn equal_patterns_resolve_by_registration_order() {
    let first = route(vec![lit("a"), param("x")], SsrMode::OutOfOrder);
    let second = route(vec![lit("a"), param("y")], SsrMode::Async);
    let t = table(vec![first.clone(), second.clone()]);
    assert_eq!(Some(first.clone()), matched(&t, "/a/b"));
    let t = table(vec![second.clone(), first]);
    assert_eq!(Some(second), matched(&t, "/a/b"));
}

#[test]
fn parameter_takes_exactly_one_segment() {
    let t = table(vec![route(vec![lit("u"), param("id"), lit("edit")], SsrMode::OutOfOrder)]);
    assert!(matched(&t, "/u/7/edit").is_some());
    assert!(matched(&t, "/u/7/8/edit").is_none());
    assert!(matched(&t, "/u/7").is_none());
    assert!(matched(&t, "/u/edit").is_none());
    // An empty segment is a segment: the parameter takes it.
    assert!(matched(&t, "/u//edit").is_some());
}

#[test]
fn root_route_matches_the_root_path() {
    let root = route(vec![], SsrMode::OutOfOrder);
    let t = table(vec![root.clone()]);
    assert_eq!(Some(root.clone()), matched(&t, "/"));
    assert_eq!(Some(root), matched(&t, ""));
    assert!(matched(&t, "/a").is_none());
}

#[test]
fn prefix_hands_paths_over_to_remote_calls() {
    let page = route(vec![lit("about")], SsrMode::OutOfOrder);
    let mut t = table(vec![page.clone()]);
    assert_eq!(Ok(()), t.add_server_fn_prefix("/api"));
    assert!(matches!(t.best_match("/api/save_count"), RouteMatch::ServerFn));
    assert!(matches!(t.best_match("/api/a/b/c"), RouteMatch::ServerFn));
    assert!(matches!(t.best_match("/api"), RouteMatch::ServerFn));
    assert_eq!(Some(page), matched(&t, "/about"));
    assert!(matches!(t.best_match("/apix/y"), RouteMatch::NoMatch));
    assert!(matches!(t.best_match("/other"), RouteMatch::NoMatch));
}

#[test]
fn page_route_wins_over_the_prefix_where_it_is_more_specific() {
    let page = route(vec![lit("api"), lit("docs")], SsrMode::OutOfOrder);
    let mut t = table(vec![page.clone()]);
    assert_eq!(Ok(()), t.add_server_fn_prefix("/api"));
    assert_eq!(Some(page), matched(&t, "/api/docs"));
    assert!(matches!(t.best_match("/api/other"), RouteMatch::ServerFn));
}

#[test]
fn prefix_that_gives_no_usable_pattern_is_refused() {
    let mut t = table(vec![route(vec![lit("a")], SsrMode::OutOfOrder)]);
    assert_eq!(Err(RouteConfigError::InvalidPrefix), t.add_server_fn_prefix("/*"));
    assert_eq!(Err(RouteConfigError::InvalidPrefix), t.add_server_fn_prefix("/*name"));
    assert_eq!(Err(RouteConfigError::InvalidPrefix), t.add_server_fn_prefix("/:"));
    assert!(matches!(t.best_match("/x/y"), RouteMatch::NoMatch));
    assert!(matched(&t, "/a").is_some());
}

#[test]
fn prefix_added_twice_is_refused() {
    let mut t = table(vec![]);
    assert_eq!(Ok(()), t.add_server_fn_prefix("/api"));
    assert_eq!(Err(RouteConfigError::DuplicatePrefix), t.add_server_fn_prefix("/api"));
    assert_eq!(Err(RouteConfigError::DuplicatePrefix), t.add_server_fn_prefix("api/"));
    assert_eq!(Ok(()), t.add_server_fn_prefix("/rpc"));
    assert!(matches!(t.best_match("/rpc/x"), RouteMatch::ServerFn));
}

#[test]
fn prefix_with_the_pattern_of_a_route_is_refused() {
    let mut t = table(vec![route(vec![lit("api"), splat("any")], SsrMode::OutOfOrder)]);
    assert_eq!(Err(RouteConfigError::DuplicatePrefix), t.add_server_fn_prefix("/api"));
    assert!(matched(&t, "/api/x").is_some());
}

#[test]
fn boundary_pattern_is_checked_before_it_is_added() {
    let mut t = table(vec![]);
    let bad = vec![RouterSegment::Wildcard, RouterSegment::Slash, RouterSegment::Exact("x".to_string())];
    assert_eq!(Err(RouteConfigError::InvalidPrefix), t.add_boundary_pattern(bad));
    let bad = vec![RouterSegment::Param("p".to_string()), RouterSegment::Exact("x".to_string())];
    assert_eq!(Err(RouteConfigError::InvalidPrefix), t.add_boundary_pattern(bad));
    let good = vec![
        RouterSegment::Exact("rpc".to_string()),
        RouterSegment::Slash,
        RouterSegment::Wildcard,
    ];
    assert_eq!(Ok(()), t.add_boundary_pattern(good));
    assert!(matches!(t.best_match("/rpc/f"), RouteMatch::ServerFn));
    assert!(matches!(t.best_match("/x"), RouteMatch::NoMatch));
}

#[test]
fn static_route_is_refused() {
    let mut bad = route(vec![lit("b")], SsrMode::OutOfOrder);
    bad.static_mode = Some(StaticMode::Upfront);
    let r = RouteTable::build(vec![route(vec![lit("a")], SsrMode::OutOfOrder), bad]);
    assert_eq!(Some(RouteConfigError::UnsupportedStatic { index: 1 }), r.err());
    let mut bad = route(vec![], SsrMode::Async);
    bad.static_mode = Some(StaticMode::Incremental);
    let r = RouteTable::build(vec![bad]);
    assert_eq!(Some(RouteConfigError::UnsupportedStatic { index: 0 }), r.err());
}

#[test]
fn duplicate_path_is_refused() {
    let r = RouteTable::build(vec![
        route(vec![lit("a"), param("x")], SsrMode::OutOfOrder),
        route(vec![lit("b")], SsrMode::OutOfOrder),
        route(vec![lit("a"), PathSegment::OptionalParam("x".to_string())], SsrMode::Async),
    ]);
    assert_eq!(Some(RouteConfigError::DuplicatePath { index: 2 }), r.err());
    let r = RouteTable::build(vec![route(vec![], SsrMode::OutOfOrder), route(vec![], SsrMode::InOrder)]);
    assert_eq!(Some(RouteConfigError::DuplicatePath { index: 1 }), r.err());
}

#[test]
fn splat_before_the_last_segment_is_refused() {
    let r = RouteTable::build(vec![route(vec![splat("rest"), lit("a")], SsrMode::OutOfOrder)]);
    assert_eq!(Some(RouteConfigError::MisplacedSplat { index: 0 }), r.err());
}

#[test]
fn first_faulty_route_decides_the_error() {
    let mut is_static = route(vec![lit("s")], SsrMode::OutOfOrder);
    is_static.static_mode = Some(StaticMode::Upfront);
    let r = RouteTable::build(vec![
        route(vec![lit("a")], SsrMode::OutOfOrder),
        route(vec![lit("a")], SsrMode::OutOfOrder),
        is_static.clone(),
    ]);
    assert_eq!(Some(RouteConfigError::DuplicatePath { index: 1 }), r.err());
    let mut both = route(vec![splat("x"), lit("a")], SsrMode::OutOfOrder);
    both.static_mode = Some(StaticMode::Upfront);
    let r = RouteTable::build(vec![both]);
    assert_eq!(Some(RouteConfigError::UnsupportedStatic { index: 0 }), r.err());
}

#[test]
fn empty_table_matches_nothing() {
    let t = table(vec![]);
    assert!(matches!(t.best_match("/"), RouteMatch::NoMatch));
    assert!(matches!(t.best_match("/a"), RouteMatch::NoMatch));
}

#[test]
fn compile_puts_a_slash_between_segments() {
    let compiled = compile_segments(&vec![lit("a"), param("x"), splat("rest")]);
    let expected = vec![
        RouterSegment::Exact("a".to_string()),
        RouterSegment::Slash,
        RouterSegment::Param("x".to_string()),
        RouterSegment::Slash,
        RouterSegment::Wildcard,
    ];
    assert!(patterns_equal(&compiled, &expected));
    assert!(compile_segments(&vec![]).is_empty());
    let one = compile_segments(&vec![PathSegment::OptionalParam("o".to_string())]);
    assert!(patterns_equal(&one, &vec![RouterSegment::Param("o".to_string())]));
}

#[test]
fn splat_is_terminal_only_as_last_segment() {
    assert!(splat_is_terminal(&vec![]));
    assert!(splat_is_terminal(&vec![lit("a"), splat("r")]));
    assert!(splat_is_terminal(&vec![splat("r")]));
    assert!(!splat_is_terminal(&vec![splat("r"), lit("a")]));
    assert!(!splat_is_terminal(&vec![splat("r"), splat("s")]));
}

#[test]
fn pattern_helpers_compare_and_check() {
    let e = |t: &str| RouterSegment::Exact(t.to_string());
    let p = |t: &str| RouterSegment::Param(t.to_string());
    assert!(segment_equal(&e("a"), &e("a")));
    assert!(!segment_equal(&e("a"), &e("b")));
    assert!(!segment_equal(&e("a"), &p("a")));
    assert!(segment_equal(&RouterSegment::Slash, &RouterSegment::Slash));
    assert!(!segment_equal(&RouterSegment::Slash, &RouterSegment::Dot));
    assert!(segment_equal(&RouterSegment::Wildcard, &RouterSegment::Wildcard));
    assert!(patterns_equal(&vec![], &vec![]));
    assert!(!patterns_equal(&vec![e("a")], &vec![]));
    assert!(!patterns_equal(&vec![e("a"), RouterSegment::Slash], &vec![e("a"), RouterSegment::Dot]));
    assert!(pattern_is_wf(&vec![]));
    assert!(pattern_is_wf(&vec![p("a"), RouterSegment::Dot, e("b")]));
    assert!(pattern_is_wf(&vec![p("a"), RouterSegment::Slash, RouterSegment::Wildcard]));
    assert!(!pattern_is_wf(&vec![p("a"), e("b")]));
    assert!(!pattern_is_wf(&vec![RouterSegment::Wildcard, RouterSegment::Slash]));
    let list = vec![vec![e("a")], vec![e("b"), RouterSegment::Slash, p("c")]];
    assert!(find_pattern(&list, &vec![e("b"), RouterSegment::Slash, p("c")]));
    assert!(!find_pattern(&list, &vec![e("b"), RouterSegment::Slash, p("d")]));
    assert!(!find_pattern(&Vec::new(), &vec![]));
    let copy = clone_pattern(&list[1]);
    assert!(patterns_equal(&copy, &list[1]));
    assert_eq!(vec![Verb::Get, Verb::Post], clone_verbs(&vec![Verb::Get, Verb::Post]));
}

#[test]
fn catch_all_literal_becomes_a_splat() {
    let declared = route(vec![lit("docs"), lit("*any")], SsrMode::InOrder);
    let rewritten = leptos_wildcards_to_spin(&declared);
    assert_eq!(route(vec![lit("docs"), splat("any")], SsrMode::InOrder), rewritten);
    let other = route(vec![lit("*all"), param("x"), splat("y")], SsrMode::Async);
    assert_eq!(other.clone(), leptos_wildcards_to_spin(&other));
}

#[test]
fn route_list_of_an_application_without_routes_is_the_root() {
    let list = generate_route_list(vec![]);
    assert_eq!(vec![route(vec![], SsrMode::OutOfOrder)], list);
    let t = table(list);
    assert!(matched(&t, "/").is_some());
}

#[test]
fn route_list_rewrites_each_route() {
    let list = generate_route_list(vec![
        route(vec![], SsrMode::OutOfOrder),
        route(vec![lit("*any")], SsrMode::Async),
    ]);
    assert_eq!(
        vec![
            route(vec![], SsrMode::OutOfOrder),
            route(vec![splat("any")], SsrMode::Async),
        ],
        list
    );
    let t = table(list);
    assert_eq!(Some(SsrMode::OutOfOrder), matched(&t, "/").map(|d| d.mode));
    assert_eq!(Some(SsrMode::Async), matched(&t, "/no/such/page").map(|d| d.mode));
}

#[test]
fn written_path_is_read_into_its_segments() {
    assert_eq!(
        vec![lit("users"), param("id"), splat("rest")],
        parse_route_path("/users/:id/*rest")
    );
    assert_eq!(Vec::<PathSegment>::new(), parse_route_path(""));
    assert_eq!(Vec::<PathSegment>::new(), parse_route_path("/"));
    assert_eq!(Vec::<PathSegment>::new(), parse_route_path("///"));
    assert_eq!(vec![lit("a"), lit("b")], parse_route_path("a//b/"));
    assert_eq!(
        vec![lit("a"), PathSegment::OptionalParam("x".to_string()), lit("b")],
        parse_route_path("/a/:x?/b")
    );
    assert_eq!(vec![lit("caf\u{e9}"), param("\u{4e2d}")], parse_route_path("/caf\u{e9}/:\u{4e2d}"));
    assert_eq!(vec![splat("")], parse_route_path("/*"));
    assert_eq!(vec![lit("a.b"), lit("c?")], parse_route_path("/a.b/c?"));
}

#[test]
fn piece_is_read_by_its_first_character() {
    assert_eq!(None, parse_piece(""));
    assert_eq!(Some(lit("a")), parse_piece("a"));
    assert_eq!(Some(param("a")), parse_piece(":a"));
    assert_eq!(Some(param("")), parse_piece(":"));
    assert_eq!(Some(PathSegment::OptionalParam("a".to_string())), parse_piece(":a?"));
    assert_eq!(Some(PathSegment::OptionalParam(String::new())), parse_piece(":?"));
    assert_eq!(Some(splat("any")), parse_piece("*any"));
    assert_eq!(Some(splat("a?")), parse_piece("*a?"));
    assert_eq!(Some(lit("a:b")), parse_piece("a:b"));
    assert_eq!(Some(lit("?")), parse_piece("?"));
}

#[test]
fn written_paths_build_a_table() {
    let t = table(vec![
        route(parse_route_path("/"), SsrMode::OutOfOrder),
        route(parse_route_path("/users/:id"), SsrMode::InOrder),
        route(parse_route_path("/*any"), SsrMode::Async),
    ]);
    assert_eq!(Some(SsrMode::OutOfOrder), matched(&t, "/").map(|d| d.mode));
    assert_eq!(Some(SsrMode::InOrder), matched(&t, "/users/7").map(|d| d.mode));
    assert_eq!(Some(SsrMode::Async), matched(&t, "/users/7/x").map(|d| d.mode));
    assert_eq!(Some(SsrMode::Async), matched(&t, "/other").map(|d| d.mode));
}
