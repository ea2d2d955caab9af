use under::{Fragment, Method, Router};

fn fragment_for(template: &str, path: &str) -> Fragment {
    let mut router: Router<(), ()> = Router::new();
    router.register(template, Some(Method::Get), ()).unwrap();
    router.prepare().unwrap();
    let route = router.lookup(path, &Method::Get).unwrap();
    Fragment::new(path, route).unwrap()
}

#[test]
fn fragment_by_name_and_position() {
    let fragment = fragment_for("/beta/{id}", "/beta/4444");
    assert_eq!(fragment.name("id"), Some("4444"));
    assert_eq!(fragment.get(1), Some("4444"));
    assert_eq!(fragment.get(0), Some("/beta/4444"));
    assert_eq!(fragment.get(2), None);
    assert_eq!(fragment.name("nope"), None);
    assert_eq!(fragment.select("id"), Some("4444"));
    assert_eq!(fragment.select(1usize), Some("4444"));
    assert_eq!(fragment.select(9usize), None);
}

#[test]
fn path_fragment_is_greedy() {
    let fragment = fragment_for("/gamma/{all:path}", "/gamma/a/b/c");
    assert_eq!(fragment.name("all"), Some("a/b/c"));
}

#[test]
fn absent_optional_extension_is_none() {
    let fragment = fragment_for("/users/{id:uint}{ext:oext}", "/users/12");
    assert_eq!(fragment.name("id"), Some("12"));
    assert_eq!(fragment.name("ext"), None);
    assert_eq!(fragment.get(2), None);
    let fragment = fragment_for("/users/{id:uint}{ext:oext}", "/users/12.json");
    assert_eq!(fragment.name("ext"), Some("json"));
}

#[test]
fn unnamed_placeholders_by_position() {
    let fragment = fragment_for("/{}/{}", "/left/right");
    assert_eq!(fragment.get(1), Some("left"));
    assert_eq!(fragment.get(2), Some("right"));
}

#[test]
fn fragment_of_a_route_that_does_not_match_is_none() {
    let mut router: Router<(), ()> = Router::new();
    router.register("/beta/{id}", None, ()).unwrap();
    let route = &router.routes()[0];
    assert!(Fragment::new("/alpha", route).is_none());
}
