use llmux::proxy::{backend_error, forward_uri, is_forwarded, route, ProxyRoute, ProxyTarget, DROPPED_HEADER};

#[test]
fn a_request_with_a_target_is_forwarded() {
    let target = ProxyTarget {
        port: 8001,
        host: "localhost".to_string(),
    };
    match route(Some(target.clone())) {
        ProxyRoute::Forward(to) => {
            assert_eq!(to.port, target.port);
            assert_eq!(to.host, target.host);
        }
        other => panic!("unexpected: {other:?}"),
    }
}

#[test]
fn a_request_without_a_target_is_not_found() {
    match route(None) {
        ProxyRoute::Reply(reply) => {
            assert_eq!(reply.status, 404);
            assert_eq!(
                reply.body,
                "{\"error\":{\"message\":\"No model specified in request\",\"type\":\"llmux_error\"}}"
            );
        }
        other => panic!("unexpected: {other:?}"),
    }
}

#[test]
fn a_silent_backend_is_a_bad_gateway() {
    let reply = backend_error("connection refused");
    assert_eq!(reply.status, 502);
    assert!(reply.body.contains("Backend error: connection refused"));
}

#[test]
fn the_path_and_query_are_kept() {
    let uri = forward_uri("localhost", 8001, Some("/v1/chat/completions?stream=true")).unwrap();
    assert_eq!(
        uri.to_string(),
        "http://localhost:8001/v1/chat/completions?stream=true"
    );
    assert_eq!(uri.host(), Some("localhost"));
    assert_eq!(uri.port_u16(), Some(8001));
    assert_eq!(uri.path(), "/v1/chat/completions");
    assert_eq!(uri.query(), Some("stream=true"));
}

#[test]
fn the_path_defaults_to_the_root() {
    let uri = forward_uri("10.0.0.2", 80, None).unwrap();
    assert_eq!(uri.to_string(), "http://10.0.0.2:80/");
}

#[test]
fn ipv6_backends_are_bracketed() {
    let uri = forward_uri("::1", 8002, Some("/health")).unwrap();
    assert_eq!(uri.to_string(), "http://[::1]:8002/health");
    assert_eq!(uri.host(), Some("[::1]"));
    let uri = forward_uri("1:2:3:4:5:6:7::", 8002, None).unwrap();
    assert_eq!(uri.port_u16(), Some(8002));
}

#[test]
fn a_bad_host_gives_the_words_of_the_parser() {
    assert_eq!(
        forward_uri("bad host", 80, None).unwrap_err(),
        "invalid uri character"
    );
    assert_eq!(
        forward_uri("a", 80, Some(&format!("/{}", "x".repeat(70000)))).unwrap_err(),
        "uri too long"
    );
}

#[test]
fn a_path_may_fill_the_uri_up() {
    let origin = "http://a:80".len();
    let path = format!("/{}", "x".repeat(65534 - origin - 1));
    assert!(forward_uri("a", 80, Some(&path)).is_ok());
    let path = format!("{path}x");
    assert!(path.parse::<http::Uri>().is_ok());
    assert!(forward_uri("a", 80, Some(&path)).is_err());
}

#[test]
fn the_host_header_is_dropped() {
    assert_eq!(DROPPED_HEADER, "host");
    assert!(!is_forwarded("host"));
    assert!(!is_forwarded(http::HeaderName::from_bytes(b"Host").unwrap().as_str()));
    for header in ["content-type", "authorization", "hosts", "x-forwarded-host", ""] {
        assert!(is_forwarded(header), "{header}");
    }
}

#[test]
fn a_valid_host_can_always_be_forwarded_to() {
    for host in ["localhost", "a-1.b", "255.255.255.255", "::", "1:2:3:4:5:6:7::"] {
        assert!(llmux::config::ModelConfig::is_valid_hostname(host));
        let rootless = forward_uri(host, 65535, None).unwrap();
        let rooted = forward_uri(host, 65535, Some("/")).unwrap();
        assert_eq!(rootless, rooted);
        assert!(forward_uri(host, 1, Some("/a/b?c=d&e=%20")).is_ok());
    }
}
