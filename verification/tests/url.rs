use atriumd::url::{endpoint_of, parse, Endpoint, UrlError, UrlParts};

fn ok(input: &str) -> Endpoint {
    parse(input).unwrap_or_else(|e| panic!("{input} should parse: {e:?}"))
}

#[test]
fn https_with_a_port_round_trips() {
    let e = ok("https://ha.example.com:8123");
    assert_eq!(e.origin, "https://ha.example.com:8123");
    assert_eq!(e.websocket, "wss://ha.example.com:8123/api/websocket");
    assert_eq!(e.rest, "https://ha.example.com:8123/api");
    assert!(!e.plaintext);
}

#[test]
fn a_missing_scheme_assumes_tls() {
    let e = ok("homeassistant.local:8123");
    assert_eq!(e.websocket, "wss://homeassistant.local:8123/api/websocket");
    assert!(!e.plaintext);
}

#[test]
fn plaintext_is_reported_not_silently_accepted() {
    assert!(ok("http://192.168.1.10:8123").plaintext);
    assert!(ok("ws://192.168.1.10:8123").plaintext);
}

#[test]
fn websocket_schemes_map_onto_their_http_twin() {
    assert_eq!(ok("wss://ha.example.com").rest, "https://ha.example.com/api");
    assert_eq!(ok("ws://ha.example.com").rest, "http://ha.example.com/api");
}

#[test]
fn a_proxied_subpath_is_preserved() {
    let e = ok("https://example.com/homeassistant");
    assert_eq!(e.websocket, "wss://example.com/homeassistant/api/websocket");
    assert_eq!(e.rest, "https://example.com/homeassistant/api");
}

#[test]
fn trailing_slashes_do_not_double_up() {
    assert_eq!(ok("https://ha.example.com/").websocket, "wss://ha.example.com/api/websocket");
}

#[test]
fn unknown_schemes_are_refused_rather_than_downgraded() {
    assert_eq!(
        parse("ftp://ha.example.com"),
        Err(UrlError::UnsupportedScheme("ftp".into()))
    );
    assert!(matches!(parse("gopher://ha"), Err(UrlError::UnsupportedScheme(_))));
}

#[test]
fn empty_and_malformed_input_is_rejected() {
    assert_eq!(parse(""), Err(UrlError::Empty));
    assert_eq!(parse("   "), Err(UrlError::Empty));
    assert!(parse("https://").is_err());
}

#[test]
fn surrounding_white_space_is_ignored() {
    assert_eq!(ok("  https://ha.example.com \n").origin, "https://ha.example.com");
}

#[test]
fn parts_become_an_endpoint() {
    let parts = UrlParts {
        scheme: "http".into(),
        host: Some("10.0.0.2".into()),
        port: Some(65535),
        path: "/base//".into(),
    };
    let e = endpoint_of(Some(parts)).unwrap();
    assert_eq!(e.origin, "http://10.0.0.2:65535/base");
    assert_eq!(e.websocket, "ws://10.0.0.2:65535/base/api/websocket");
    assert_eq!(e.rest, "http://10.0.0.2:65535/base/api");
    assert!(e.plaintext);
}

#[test]
fn parts_without_a_host_or_scheme_are_refused() {
    assert_eq!(endpoint_of(None), Err(UrlError::Malformed));
    let no_host = UrlParts { scheme: "https".into(), host: None, port: None, path: "/".into() };
    assert_eq!(endpoint_of(Some(no_host)), Err(UrlError::Malformed));
    let empty_host = UrlParts { scheme: "wss".into(), host: Some(String::new()), port: None, path: "/".into() };
    assert_eq!(endpoint_of(Some(empty_host)), Err(UrlError::Malformed));
    let mailto = UrlParts { scheme: "mailto".into(), host: Some("x".into()), port: None, path: String::new() };
    assert_eq!(endpoint_of(Some(mailto)), Err(UrlError::UnsupportedScheme("mailto".into())));
}

#[test]
fn an_origin_parses_back_to_its_endpoint() {
    for input in ["  ha.local:8123/ ", "wss://ha.example.com/proxy//", "http://10.0.0.2"] {
        let e = ok(input);
        assert_eq!(ok(&e.origin), e, "{input}");
    }
}
