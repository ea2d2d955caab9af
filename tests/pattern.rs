use under::{push_pattern, regex_pattern, Pattern, PatternError};

fn source(template: &str) -> String {
    regex_pattern(template).unwrap().0
}

fn matches(template: &str, path: &str) -> bool {
    Pattern::new(template).unwrap().matches(path)
}

#[test]
fn literal_segments_are_escaped() {
    assert_eq!(source("/a.b"), "^/a\\.b$");
    assert_eq!(source("/files/v1-{name}.tar"), "^/files/v1\\-(?P<name>[^/]+)\\.tar$");
    assert_eq!(source("/a+b(c)"), "^/a\\+b\\(c\\)$");
}

#[test]
fn each_type_has_its_group() {
    assert_eq!(source("/{id}"), "^/(?P<id>[^/]+)$");
    assert_eq!(source("/{id:s}"), "^/(?P<id>[^/]+)$");
    assert_eq!(source("/{id:str}"), "^/(?P<id>[^/]+)$");
    assert_eq!(source("/{id:string}"), "^/(?P<id>[^/]+)$");
    assert_eq!(source("/{id:uint}"), "^/(?P<id>\\d+)$");
    assert_eq!(source("/{id:int}"), "^/(?P<id>[+-]?\\d+)$");
    assert_eq!(source("/{all:path}"), "^/(?P<all>.+)$");
    assert_eq!(source("/{ext:oext}"), "^/(?:\\.(?P<ext>[^/]+))?$");
    assert_eq!(
        source("/{id:uuid}"),
        "^/(?P<id>[a-fA-F0-9]{8}-[a-fA-F0-9]{4}-4[a-fA-F0-9]{3}-[89aAbB][a-fA-F0-9]{3}-[a-fA-F0-9]{12})$"
    );
    assert_eq!(source("/{}"), "^/([^/]+)$");
    assert_eq!(source("/{:path}"), "^/(.+)$");
}

#[test]
fn braces_that_open_no_placeholder_are_literal() {
    assert_eq!(source("/{a-b}"), "^/\\{a\\-b\\}$");
    assert_eq!(source("/{ab{c}"), "^/\\{ab(?P<c>[^/]+)$");
    assert_eq!(source("/{a:}"), "^/\\{a:\\}$");
    assert_eq!(source(""), "^$");
}

#[test]
fn slots_follow_the_placeholders() {
    let (_, slots) = regex_pattern("/users/{id:uint}{}{ext:oext}").unwrap();
    assert_eq!(slots, vec![None, Some("id".to_string()), None, Some("ext".to_string())]);
    let pattern = Pattern::new("/users/{id:uint}{}{ext:oext}").unwrap();
    assert_eq!(pattern.match_keys(), &slots);
    let copy = pattern.duplicate();
    assert_eq!(copy.match_keys(), &slots);
    assert_eq!(copy.regex().as_str(), pattern.regex().as_str());
}

#[test]
fn unknown_type_names_the_tag() {
    match regex_pattern("/a/{x:int}/{y:float}/{z:bogus}") {
        Err(PatternError::UnknownType(tag)) => assert_eq!(tag, "float"),
        other => panic!("unexpected {:?}", other),
    }
}

#[test]
fn push_pattern_appends_or_refuses() {
    let mut buffer = String::from("^");
    push_pattern(&mut buffer, Some("n"), Some("uint")).unwrap();
    assert_eq!(buffer, "^(?P<n>\\d+)");
    push_pattern(&mut buffer, None, None).unwrap();
    assert_eq!(buffer, "^(?P<n>\\d+)([^/]+)");
    let err = push_pattern(&mut buffer, None, Some("nope")).unwrap_err();
    assert!(matches!(err, PatternError::UnknownType(ref t) if t == "nope"));
    assert_eq!(buffer, "^(?P<n>\\d+)([^/]+)");
}

#[test]
fn compiled_template_matches_its_example_paths() {
    assert!(matches("/users/{id:uint}", "/users/42"));
    assert!(!matches("/users/{id:uint}", "/users/abc"));
    assert!(!matches("/users/{id:uint}", "/users/42/extra"));
    assert!(matches("/users/{id:uint}{ext:oext}", "/users/1"));
    assert!(matches("/users/{id:uint}{ext:oext}", "/users/1.json"));
    assert!(!matches("/users/{id:uint}{ext:oext}", "/users/aaa"));
    assert!(matches("/public/{:path}", "/public/aa/a"));
    assert!(!matches("/public/{:path}", "/public/"));
    assert!(matches("/actions/{id:uuid}", "/actions/0f0e0d0c-0b0a-4909-8807-060504030201"));
    assert!(!matches("/actions/{id:uuid}", "/actions/1"));
    assert!(matches("/n/{v:int}", "/n/-15"));
    assert!(matches("/n/{v:int}", "/n/+15"));
    assert!(!matches("/n/{v:uint}", "/n/-15"));
    assert!(matches("/a.b", "/a.b"));
    assert!(!matches("/a.b", "/axb"));
}
