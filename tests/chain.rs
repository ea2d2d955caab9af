use under::{scope, Next, ScopeEndpointBuilder, State, StateMiddleware, Step, SyncEndpoint, TraceMiddleware};

/// Runs a chain in which middleware `i` forwards when `forwards[i]` holds,
/// and records what ran, the way a dispatcher drives it.
fn run(next: Next, forwards: &[bool], log: &mut Vec<String>) -> String {
    match next.step() {
        Step::Middleware(i, rest) => {
            log.push(format!("in {}", i));
            let response = if forwards[i] {
                run(rest, forwards, log)
            } else {
                format!("stopped by {}", i)
            };
            log.push(format!("out {} saw {}", i, response));
            response
        }
        Step::Endpoint => {
            log.push("endpoint".to_string());
            "endpoint response".to_string()
        }
    }
}

#[test]
fn chain_steps_in_registration_order() {
    let mut log = Vec::new();
    let response = run(Next::new(2), &[true, true], &mut log);
    assert_eq!(response, "endpoint response");
    assert_eq!(
        log,
        vec![
            "in 0",
            "in 1",
            "endpoint",
            "out 1 saw endpoint response",
            "out 0 saw endpoint response"
        ]
    );
}

#[test]
fn non_forwarding_middleware_short_circuits() {
    let mut log = Vec::new();
    let response = run(Next::new(3), &[true, false, true], &mut log);
    assert_eq!(response, "stopped by 1");
    assert_eq!(log, vec!["in 0", "in 1", "out 1 saw stopped by 1", "out 0 saw stopped by 1"]);
}

#[test]
fn empty_chain_goes_to_endpoint() {
    let next = Next::new(0);
    assert_eq!(next.remaining(), 0);
    assert_eq!(next.step(), Step::Endpoint);
    let next = Next::new(1);
    assert_eq!(next.remaining(), 1);
    match next.step() {
        Step::Middleware(0, rest) => {
            assert_eq!(rest.remaining(), 0);
            assert_eq!(rest.step(), Step::Endpoint);
        }
        other => panic!("unexpected {:?}", other),
    }
}

#[test]
fn scope_builder_collects_middleware_and_resets() {
    let mut builder: ScopeEndpointBuilder<&str> = scope();
    builder.with("a").with("b");
    let endpoint = builder.then(5u8);
    assert_eq!(endpoint.middleware_list(), &vec!["a", "b"]);
    assert_eq!(*endpoint.endpoint(), 5);
    assert_eq!(endpoint.start().remaining(), 2);
    let empty = builder.then(6u8);
    assert!(empty.middleware_list().is_empty());
}

#[test]
fn small_values() {
    let sync = SyncEndpoint::new(3);
    assert_eq!(sync.0, 3);
    assert_eq!(TraceMiddleware::new(), TraceMiddleware);
    assert_eq!(State(4).into_inner(), 4);
    assert_eq!(*StateMiddleware::new(8u32).get(), 8);
}
