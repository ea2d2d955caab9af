use under::{forwarded_header, pick, split_key_value, split_text, x_forwarded_for_header, RemoteAddress, RemoteAddressSource};

fn values(v: &[&str]) -> Vec<String> {
    v.iter().map(|s| s.to_string()).collect()
}

#[test]
fn forwarded_for_by_index() {
    let v = values(&["1.1.1.1, 2.2.2.2, 3.3.3.3"]);
    assert_eq!(x_forwarded_for_header(&v, 0).as_deref(), Some("1.1.1.1"));
    assert_eq!(x_forwarded_for_header(&v, 1).as_deref(), Some("2.2.2.2"));
    assert_eq!(x_forwarded_for_header(&v, -1).as_deref(), Some("3.3.3.3"));
    assert_eq!(x_forwarded_for_header(&v, -3).as_deref(), Some("1.1.1.1"));
    assert_eq!(x_forwarded_for_header(&v, 3), None);
    assert_eq!(x_forwarded_for_header(&v, -4), None);
    assert_eq!(x_forwarded_for_header(&v, isize::MIN), None);
}

#[test]
fn forwarded_for_joins_header_values() {
    let v = values(&["1.1.1.1 ,2.2.2.2", " 3.3.3.3"]);
    assert_eq!(x_forwarded_for_header(&v, 2).as_deref(), Some("3.3.3.3"));
    assert_eq!(x_forwarded_for_header(&v, -2).as_deref(), Some("2.2.2.2"));
    assert_eq!(x_forwarded_for_header(&values(&[]), 0), None);
    assert_eq!(x_forwarded_for_header(&values(&[""]), 0).as_deref(), Some(""));
}

#[test]
fn forwarded_takes_the_for_parameter() {
    let v = values(&["for=1.1.1.1, for=2.2.2.2, for=3.3.3.3"]);
    assert_eq!(forwarded_header(&v, 0).as_deref(), Some("1.1.1.1"));
    assert_eq!(forwarded_header(&v, -1).as_deref(), Some("3.3.3.3"));
    let v = values(&["proto=https; FOR=\"[::1]\";by=x", "by=y", "For=4.4.4.4"]);
    assert_eq!(forwarded_header(&v, 0).as_deref(), Some("\"[::1]\""));
    assert_eq!(forwarded_header(&v, 1).as_deref(), Some("4.4.4.4"));
    assert_eq!(forwarded_header(&v, 2), None);
    let v = values(&["form=1, fo=2, for=3=4"]);
    assert_eq!(forwarded_header(&v, 0).as_deref(), Some("3=4"));
    assert_eq!(forwarded_header(&v, 1), None);
}

#[test]
fn text_helpers() {
    assert_eq!(split_text("a,,b", ','), vec!["a", "", "b"]);
    assert_eq!(split_text("", ','), vec![""]);
    assert_eq!(split_key_value("a=b=c"), Some(("a".to_string(), "b=c".to_string())));
    assert_eq!(split_key_value("abc"), None);
    assert_eq!(pick(3, -1), Some(2));
    assert_eq!(pick(3, 2), Some(2));
    assert_eq!(pick(3, 5), None);
    assert_eq!(pick(0, -1), None);
}

#[test]
fn sources_are_kept_in_order() {
    let mut remote = RemoteAddress::new();
    remote
        .trust_cloudflare_header()
        .trust_forwarded_for(-1)
        .trust_forwarded(0)
        .trust_real_ip_header()
        .trust_client_ip_header()
        .trust_header("X-Custom")
        .trust_peer_address();
    let names: Vec<String> = remote
        .trusted_sources()
        .iter()
        .map(|s| match s {
            RemoteAddressSource::XForwardedFor(i) => format!("xff {}", i),
            RemoteAddressSource::Forwarded(i) => format!("fwd {}", i),
            RemoteAddressSource::Header(h) => format!("header {}", h),
            RemoteAddressSource::PeerAddress => "peer".to_string(),
        })
        .collect();
    assert_eq!(
        names,
        vec![
            "header CF-Connecting-IP",
            "xff -1",
            "fwd 0",
            "header X-Real-IP",
            "header True-Client-IP",
            "header X-Custom",
            "peer"
        ]
    );
}
