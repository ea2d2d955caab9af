use under::{join_paths, Method, Router, Target};

fn simple_router() -> Router<(), ()> {
    let mut router = Router::default();
    router.register(&join_paths("", "/"), Some(Method::Get), ()).unwrap();
    router.register(&join_paths("", "/alpha"), Some(Method::Get), ()).unwrap();
    router.register(&join_paths("", "/beta/{id}"), Some(Method::Get), ()).unwrap();
    router.register(&join_paths("", "/gamma/{all:path}"), Some(Method::Get), ()).unwrap();
    router.prepare().unwrap();
    router
}

#[test]
fn mod_test_join_paths() {
    assert_eq!(join_paths("", "/id"), "/id");
    assert_eq!(join_paths("", "id"), "/id");
    assert_eq!(join_paths("/user", "/id"), "/user/id");
    assert_eq!(join_paths("/user/", "/id"), "/user/id");
    assert_eq!(join_paths("/user/", "id"), "/user/id");
}

#[test]
fn mod_test_build() {
    simple_router();
}

#[test]
fn mod_test_basic_match() {
    let router = simple_router();
    let result = router.lookup("/", &Method::Get);
    assert!(result.is_some());
    let result = result.unwrap();
    assert_eq!("/", result.path());
}

#[test]
fn mod_test_simple_match() {
    let router = simple_router();
    let result = router.lookup("/beta/4444", &Method::Get);
    assert!(result.is_some());
    let result = result.unwrap();
    assert_eq!("/beta/{id}", result.path());
}

#[test]
fn mod_test_multi_match() {
    let router = simple_router();
    let result = router.lookup("/gamma/a/b/c", &Method::Get);
    assert!(result.is_some());
    let result = result.unwrap();
    assert_eq!("/gamma/{all:path}", result.path());
}

#[test]
fn mod_test_missing_match() {
    let router = simple_router();
    let result = router.lookup("/omega/aaa", &Method::Get);
    assert!(result.is_none());
}

#[test]
fn mod_test_correct_method() {
    let router = simple_router();
    let result = router.lookup("/alpha", &Method::Post);
    assert!(result.is_none());
}

#[test]
fn later_registration_wins_ties() {
    let mut router: Router<u32, ()> = Router::new();
    router.register("/user/{id}", Some(Method::Post), 1).unwrap();
    router.register("/user/@me", Some(Method::Post), 2).unwrap();
    router.prepare().unwrap();
    let me = router.lookup("/user/@me", &Method::Post).unwrap();
    assert_eq!(me.path(), "/user/@me");
    assert_eq!(*me.endpoint(), 2);
    assert_eq!(router.lookup_index("/user/@me", &Method::Post), Some(1));
    let other = router.lookup("/user/42", &Method::Post).unwrap();
    assert_eq!(*other.endpoint(), 1);
}

#[test]
fn general_route_registered_later_overrides_specific() {
    let mut router: Router<u32, ()> = Router::new();
    router.register("/user/@me", None, 1).unwrap();
    router.register("/user/{id}", None, 2).unwrap();
    router.prepare().unwrap();
    assert_eq!(router.lookup_index("/user/@me", &Method::Get), Some(1));
}

#[test]
fn method_filter_and_any_method_route() {
    let mut router: Router<u32, ()> = Router::new();
    router.register("/alpha", None, 1).unwrap();
    router.register("/alpha", Some(Method::Get), 2).unwrap();
    router.prepare().unwrap();
    assert_eq!(router.lookup_index("/alpha", &Method::Get), Some(1));
    assert_eq!(router.lookup_index("/alpha", &Method::Post), Some(0));
    let ext = Method::Extension("TEST".to_string());
    assert_eq!(router.lookup_index("/alpha", &ext), Some(0));
}

#[test]
fn extension_method_filter() {
    let mut router: Router<u32, ()> = Router::new();
    router.register("/user", Some(Method::Extension("TEST".to_string())), 1).unwrap();
    router.prepare().unwrap();
    assert_eq!(router.lookup_index("/user", &Method::Extension("TEST".to_string())), Some(0));
    assert_eq!(router.lookup_index("/user", &Method::Extension("OTHER".to_string())), None);
    assert_eq!(router.lookup_index("/user", &Method::Get), None);
}

#[test]
fn routes_added_after_prepare_are_not_seen_until_prepared_again() {
    let mut router: Router<u32, ()> = Router::new();
    router.register("/a", None, 1).unwrap();
    router.prepare().unwrap();
    router.register("/b", None, 2).unwrap();
    assert_eq!(router.lookup_index("/b", &Method::Get), None);
    assert_eq!(router.lookup_index("/a", &Method::Get), Some(0));
    router.prepare().unwrap();
    assert_eq!(router.lookup_index("/b", &Method::Get), Some(1));
}

#[test]
fn unprepared_router_finds_nothing() {
    let mut router: Router<u32, ()> = Router::new();
    router.register("/a", None, 1).unwrap();
    assert_eq!(router.lookup_index("/a", &Method::Get), None);
}

#[test]
fn prepare_twice_gives_same_lookups() {
    let mut router = simple_router();
    let paths = ["/", "/alpha", "/beta/4444", "/gamma/a/b/c", "/omega/aaa", "/beta/"];
    let before: Vec<Option<usize>> = paths.iter().map(|p| router.lookup_index(p, &Method::Get)).collect();
    router.prepare().unwrap();
    let after: Vec<Option<usize>> = paths.iter().map(|p| router.lookup_index(p, &Method::Get)).collect();
    assert_eq!(before, after);
    assert_eq!(after, vec![Some(0), Some(1), Some(2), Some(3), None, None]);
}

#[test]
fn target_prefers_route_then_fallback_then_default() {
    let mut router: Router<u32, ()> = under::http();
    router.register("/foo", Some(Method::Get), 1).unwrap();
    router.prepare().unwrap();
    assert_eq!(router.target("/foo", &Method::Get), Target::Route(0));
    assert_eq!(router.target("/bar", &Method::Get), Target::Default);
    router.fallback(9);
    assert_eq!(router.target("/bar", &Method::Get), Target::Fallback);
    assert_eq!(router.fallback_endpoint(), Some(&9));
    assert_eq!(router.target("/foo", &Method::Post), Target::Fallback);
}

#[test]
fn middleware_is_kept_in_order() {
    let mut router: Router<u32, &str> = Router::new();
    router.with("first").with("second");
    assert_eq!(router.middleware_list(), &vec!["first", "second"]);
}

#[test]
fn unknown_type_is_refused_at_registration() {
    let mut router: Router<u32, ()> = Router::new();
    let err = router.register("/x/{id:number}", None, 1).unwrap_err();
    match err {
        under::PatternError::UnknownType(tag) => assert_eq!(tag, "number"),
        other => panic!("unexpected error {:?}", other),
    }
    assert_eq!(router.routes().len(), 0);
}

#[test]
fn duplicate_names_are_refused_by_the_engine() {
    let mut router: Router<u32, ()> = Router::new();
    let err = router.register("/x/{id}/{id}", None, 1).unwrap_err();
    assert!(matches!(err, under::PatternError::Rejected(_)));
}

#[test]
fn route_accessors() {
    let mut router: Router<u32, ()> = Router::new();
    router.register("/users/{id:uint}", Some(Method::Delete), 7).unwrap();
    let route = &router.routes()[0];
    assert_eq!(route.path(), "/users/{id:uint}");
    assert!(matches!(route.method(), Some(Method::Delete)));
    assert!(route.matches(&Method::Delete));
    assert!(!route.matches(&Method::Get));
    assert_eq!(route.pattern().regex().as_str(), "^/users/(?P<id>\\d+)$");
}

#[test]
fn resolve_gives_route_and_fragments() {
    let router = simple_router();
    let (index, fragment) = router.resolve("/beta/4444", &Method::Get).unwrap();
    assert_eq!(index, 2);
    assert_eq!(fragment.name("id"), Some("4444"));
    assert!(router.resolve("/omega/aaa", &Method::Get).is_none());
    assert!(router.resolve("/beta/4444", &Method::Post).is_none());
}
