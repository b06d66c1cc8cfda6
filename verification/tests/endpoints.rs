use weconn::cli::{
    bridge_from_endpoint, bridge_to_endpoint, pair_endpoints, parse, parse_bridge,
    parse_bridge_from_endpoint, parse_bridge_to_endpoint, parse_tcp_endpoint,
    parse_websocket_endpoint, url_host_port, url_path, validate_url_common, BridgeArgs, BridgeCli,
    BridgeEndpoint, CliCommand, Command, TcpEndpoint, WebSocketEndpoint,
};
use weconn::endpoint::{parse_endpoint_url, parse_upgraded_url, EndpointUrl};
use weconn::error::CliError;

fn tcp(e: BridgeEndpoint) -> TcpEndpoint {
    match e {
        BridgeEndpoint::Tcp(e) => e,
        other => panic!("{other:?}"),
    }
}

fn ws(e: BridgeEndpoint) -> WebSocketEndpoint {
    match e {
        BridgeEndpoint::Ws(e) => e,
        other => panic!("{other:?}"),
    }
}

fn wss(e: BridgeEndpoint) -> WebSocketEndpoint {
    match e {
        BridgeEndpoint::Wss(e) => e,
        other => panic!("{other:?}"),
    }
}

fn bridge(to: &str, from: &str, token: Option<&str>) -> Result<BridgeArgs, CliError<String>> {
    parse_bridge(BridgeCli {
        to: to.to_string(),
        from: from.to_string(),
        token: token.map(str::to_string),
    })
}

fn url_value(scheme: &str, host: Option<&str>) -> EndpointUrl {
    EndpointUrl {
        text: format!("{scheme}://text"),
        scheme: scheme.to_string(),
        username: String::new(),
        password: None,
        host: host.map(str::to_string),
        port: None,
        known_port: None,
        path: String::new(),
        query: None,
        fragment: None,
    }
}

#[test]
fn a_url_is_read_into_its_parts() {
    let u = parse_endpoint_url("HTTP://me:pw@Example.COM:8080/a/b?x=1#top").unwrap();
    assert_eq!(u.text, "http://me:pw@example.com:8080/a/b?x=1#top");
    assert_eq!(u.scheme, "http");
    assert_eq!(u.username, "me");
    assert_eq!(u.password.as_deref(), Some("pw"));
    assert_eq!(u.host.as_deref(), Some("example.com"));
    assert_eq!(u.port, Some(8080));
    assert_eq!(u.known_port, Some(8080));
    assert_eq!(u.path, "/a/b");
    assert_eq!(u.query.as_deref(), Some("x=1"));
    assert_eq!(u.fragment.as_deref(), Some("top"));
}

#[test]
fn default_ports_are_known() {
    for (raw, port) in [
        ("http://h", Some(80)),
        ("ws://h:80", Some(80)),
        ("https://h", Some(443)),
        ("wss://h", Some(443)),
        ("ftp://h", Some(21)),
        ("tcp://h", None),
    ] {
        let u = parse_endpoint_url(raw).unwrap();
        assert_eq!(u.port, None);
        assert_eq!(u.known_port, port);
    }
}

#[test]
fn an_upgrade_replaces_the_scheme_alone() {
    for (raw, text, scheme, port) in [
        ("http://h/p?q#f", "ws://h/p?q#f", "ws", Some(80)),
        ("http://u:p@h:443/p", "ws://u:p@h:443/p", "ws", Some(443)),
        ("https://[::1]:80", "wss://[::1]:80/", "wss", Some(80)),
        ("https://h:443/x", "wss://h/x", "wss", Some(443)),
        ("http://h:080/x", "ws://h/x", "ws", Some(80)),
        ("ws://h/x", "ws://h/x", "ws", Some(80)),
        ("tcp://h:1", "tcp://h:1", "tcp", Some(1)),
    ] {
        let before = parse_endpoint_url(raw).unwrap();
        let after = parse_upgraded_url(raw).unwrap();
        assert_eq!(after.text, text);
        assert_eq!(after.scheme, scheme);
        assert_eq!(after.known_port, port);
        assert_eq!(after.port, before.port);
        assert_eq!(after.username, before.username);
        assert_eq!(after.password, before.password);
        assert_eq!(after.host, before.host);
        assert_eq!(after.path, before.path);
        assert_eq!(after.query, before.query);
        assert_eq!(after.fragment, before.fragment);
    }
}

#[test]
fn what_is_no_url_is_refused() {
    for raw in ["", "no url", "127.0.0.1:80", "http://", "ws://h:99999"] {
        let e = parse_bridge_to_endpoint(raw).unwrap_err();
        match &e {
            CliError::InvalidUrl { raw: r, .. } => assert_eq!(r, raw),
            other => panic!("{raw}: {other:?}"),
        }
        assert_eq!(e.message(), format!("Invalid endpoint URL '{raw}'"));
        assert!(matches!(
            parse_bridge_from_endpoint(raw),
            Err(CliError::InvalidUrl { .. })
        ));
        assert!(parse_upgraded_url(raw).is_err());
    }
    match parse_endpoint_url("nothing").unwrap_err() {
        CliError::InvalidUrl { source, .. } => {
            assert_eq!(source, url::ParseError::RelativeUrlWithoutBase)
        }
        other => panic!("{other:?}"),
    }
}

#[test]
fn tcp_endpoints() {
    let e = tcp(parse_bridge_to_endpoint("tcp://0.0.0.0:8080").unwrap());
    assert_eq!((e.addr.as_str(), e.host.as_str(), e.port), ("0.0.0.0:8080", "0.0.0.0", 8080));
    let e = tcp(parse_bridge_from_endpoint("tcp://mysql:3306/").unwrap());
    assert_eq!((e.addr.as_str(), e.host.as_str(), e.port), ("mysql:3306", "mysql", 3306));
    let e = tcp(parse_bridge_from_endpoint("tcp://[::1]:22").unwrap());
    assert_eq!((e.addr.as_str(), e.host.as_str(), e.port), ("[::1]:22", "[::1]", 22));
    let c = e.clone();
    assert_eq!((c.addr, c.host, c.port), (e.addr, e.host, e.port));
}

#[test]
fn tcp_endpoints_are_a_host_and_a_port() {
    for raw in ["tcp://h:1/path", "tcp://h:1?q", "tcp://h:1/?"] {
        let e = parse_bridge_to_endpoint(raw).unwrap_err();
        assert!(matches!(e, CliError::TcpShape { .. }));
        assert_eq!(
            e.message(),
            format!("Invalid TCP endpoint '{raw}': expected tcp://host:port")
        );
    }
    let e = parse_bridge_to_endpoint("tcp://h").unwrap_err();
    assert!(matches!(e, CliError::PortRequired { .. }));
    assert_eq!(e.message(), "Invalid endpoint 'tcp://h': port is required");
    let e = parse_bridge_from_endpoint("tcp:h").unwrap_err();
    assert!(matches!(e, CliError::HostRequired { .. }));
    assert_eq!(e.message(), "Invalid endpoint 'tcp:h': host is required");
}

#[test]
fn websocket_endpoints() {
    let e = ws(parse_bridge_to_endpoint("http://0.0.0.0:8080/ws").unwrap());
    assert_eq!(e.url, "ws://0.0.0.0:8080/ws");
    assert_eq!(e.bind_addr, "0.0.0.0:8080");
    assert_eq!(e.path, "/ws");
    let e = ws(parse_bridge_to_endpoint("ws://localhost").unwrap());
    assert_eq!(e.url, "ws://localhost/");
    assert_eq!(e.bind_addr, "localhost:80");
    assert_eq!(e.path, "/");
    let e = wss(parse_bridge_from_endpoint("https://public.com/wss?x=1").unwrap());
    assert_eq!(e.url, "wss://public.com/wss?x=1");
    assert_eq!(e.bind_addr, "public.com:443");
    assert_eq!(e.path, "/wss");
    let e = wss(parse_bridge_from_endpoint("wss://[::1]:8443/").unwrap());
    assert_eq!(e.bind_addr, "[::1]:8443");
    let c = e.clone();
    assert_eq!((c.url, c.bind_addr, c.path), (e.url, e.bind_addr, e.path));
    assert_eq!(ws(parse_bridge_from_endpoint("ws://h:81/p").unwrap()).bind_addr, "h:81");
}

#[test]
fn http_is_taken_for_a_websocket() {
    let a = ws(parse_bridge_to_endpoint("http://h:81/p").unwrap());
    let b = ws(parse_bridge_to_endpoint("ws://h:81/p").unwrap());
    assert_eq!((a.url, a.bind_addr, a.path), (b.url, b.bind_addr, b.path));
    let a = wss(parse_bridge_from_endpoint("https://h/p?q").unwrap());
    let b = wss(parse_bridge_from_endpoint("wss://h/p?q").unwrap());
    assert_eq!((a.url, a.bind_addr, a.path), (b.url, b.bind_addr, b.path));
}

#[test]
fn schemes_of_the_web_are_read_alike_whatever_follows() {
    for rest in [
        "h", "h:80", "h:443/x", "h:81?q", "[::1]/p", "", "/", "//h/p", "\\h", " h", "h h", "u@h",
        "h#f", "@", ":1", "h:99999", "%zz", "xn--a", "H/..//./p ", "h/\u{fc}?\u{df}", "1.2.3", "h\t/\n",
    ] {
        for secure in [false, true] {
            let (web, websocket) = if secure { ("https://", "wss://") } else { ("http://", "ws://") };
            let a = parse_bridge_from_endpoint(&format!("{web}{rest}"));
            let b = parse_bridge_from_endpoint(&format!("{websocket}{rest}"));
            match (a, b) {
                (Ok(a), Ok(b)) => {
                    let (a, b) = if secure { (wss(a), wss(b)) } else { (ws(a), ws(b)) };
                    assert!(a.url.starts_with(websocket));
                    assert_eq!((a.url, a.bind_addr, a.path), (b.url, b.bind_addr, b.path));
                }
                (a, b) => assert!(a.is_err() && b.is_err(), "{rest}"),
            }
            let a = parse_bridge_to_endpoint(&format!("{web}{rest}"));
            let b = parse_bridge_to_endpoint(&format!("{websocket}{rest}"));
            match (a, b) {
                (Ok(a), Ok(b)) => {
                    assert!(!secure);
                    let (a, b) = (ws(a), ws(b));
                    assert!(a.url.starts_with("ws://"));
                    assert_eq!((a.url, a.bind_addr, a.path), (b.url, b.bind_addr, b.path));
                }
                (a, b) => assert!(a.is_err() && b.is_err(), "{rest}"),
            }
        }
    }
}

#[test]
fn a_listener_takes_no_query_and_no_tls() {
    let e = parse_bridge_to_endpoint("http://h/p?q").unwrap_err();
    assert!(matches!(e, CliError::QueryNotSupported { .. }));
    assert_eq!(e.message(), "Invalid --to endpoint 'ws://h/p?q': query is not supported");
    for raw in ["wss://h/p", "https://h/p", "https://u@h/p#f"] {
        let e = parse_bridge_to_endpoint(raw).unwrap_err();
        assert!(matches!(e, CliError::TlsListener));
        assert_eq!(
            e.message(),
            "wss/https --to endpoints require TLS server support and are not supported yet"
        );
    }
}

#[test]
fn user_info_and_fragments_are_refused() {
    for raw in ["tcp://me@h:1", "tcp://:pw@h:1", "tcp://me:pw@h:1/x?y#z"] {
        let e = parse_bridge_to_endpoint(raw).unwrap_err();
        assert!(matches!(e, CliError::UserInfo { .. }));
        assert_eq!(e.message(), format!("Invalid endpoint '{raw}': user info is not supported"));
    }
    let e = parse_bridge_from_endpoint("http://h/#f").unwrap_err();
    assert!(matches!(e, CliError::Fragment { .. }));
    assert_eq!(e.message(), "Invalid endpoint 'ws://h/#f': fragments are not supported");
}

#[test]
fn other_schemes_are_refused() {
    let e = parse_bridge_to_endpoint("ftp://h").unwrap_err();
    assert!(matches!(e, CliError::UnsupportedTo { .. }));
    assert_eq!(
        e.message(),
        "Unsupported --to endpoint scheme 'ftp': currently supports only tcp://, ws://, and http://"
    );
    let e = parse_bridge_from_endpoint("UDP://h:1").unwrap_err();
    assert!(matches!(e, CliError::UnsupportedFrom { .. }));
    assert_eq!(
        e.message(),
        "Unsupported --from endpoint scheme 'udp': currently supports only tcp://, ws://, wss://, http://, and https://"
    );
}

#[test]
fn parts_decide_the_endpoint() {
    let mut u = url_value("tcp", Some("fe80::1"));
    assert!(matches!(bridge_to_endpoint("raw", &u), Err(CliError::PortRequired { .. })));
    u.port = Some(5);
    u.known_port = Some(6);
    let e = parse_tcp_endpoint("raw", &u).unwrap();
    assert_eq!((e.addr.as_str(), e.host.as_str(), e.port), ("[fe80::1]:5", "fe80::1", 5));
    assert_eq!(url_host_port("raw", &u, true).unwrap(), "[fe80::1]:6");
    assert_eq!(url_host_port("raw", &u, false).unwrap(), "[fe80::1]:5");
    assert_eq!(url_path(&u), "/");
    u.path = "/x".to_string();
    assert_eq!(url_path(&u), "/x");
    let e = parse_websocket_endpoint(&u, false).unwrap();
    assert_eq!((e.url.as_str(), e.bind_addr.as_str(), e.path.as_str()), ("tcp://text", "[fe80::1]:6", "/x"));
    assert!(validate_url_common("raw", &u).is_ok());
    assert!(matches!(
        url_host_port("raw", &url_value("tcp", None), true),
        Err(CliError::HostRequired { .. })
    ));
    assert!(matches!(
        validate_url_common("raw", &url_value("ws", None)),
        Err(CliError::HostRequired { .. })
    ));
    let mut w = url_value("wss", Some("h"));
    w.known_port = Some(443);
    assert!(matches!(bridge_to_endpoint("raw", &w), Err(CliError::TlsListener)));
    assert!(matches!(bridge_from_endpoint("raw", &w), Ok(BridgeEndpoint::Wss(_))));
}

#[test]
fn bridges() {
    let args = bridge("tcp://0.0.0.0:8080", "tcp://127.0.0.1:80", None).unwrap();
    assert_eq!(tcp(args.to).addr, "0.0.0.0:8080");
    assert_eq!(tcp(args.from).addr, "127.0.0.1:80");
    assert_eq!(args.token, None);

    let args = bridge("tcp://127.0.0.1:3306", "wss://public.com:443/wss", None).unwrap();
    assert_eq!(tcp(args.to).port, 3306);
    assert_eq!(wss(args.from).url, "wss://public.com/wss");
    assert_eq!(args.token, None);

    let args = bridge("http://0.0.0.0:8080/ws", "tcp://mysql:3306", Some("secret")).unwrap();
    assert_eq!(ws(args.to).path, "/ws");
    assert_eq!(tcp(args.from).host, "mysql");
    assert_eq!(args.token.as_deref(), Some("secret"));

    let args = bridge("tcp://h:1", "ws://h/p", Some("t")).unwrap();
    assert_eq!(args.token.as_deref(), Some("t"));
}

#[test]
fn a_token_needs_a_websocket() {
    let e = bridge("tcp://h:1", "tcp://h:2", Some("t")).unwrap_err();
    assert!(matches!(e, CliError::TokenWithoutWebSocket));
    assert_eq!(
        e.message(),
        "--token is only supported when a WebSocket endpoint is used"
    );
}

#[test]
fn two_websockets_cannot_be_bridged() {
    for from in ["ws://h/p", "wss://h/p", "http://h/p"] {
        let e = bridge("ws://h/p", from, None).unwrap_err();
        assert!(matches!(e, CliError::UnsupportedPair));
        assert_eq!(
            e.message(),
            "bridge currently supports --to tcp://... --from tcp://..., --to tcp://... --from ws(s)://..., or --to ws/http://... --from tcp://..."
        );
    }
    let secure = || BridgeEndpoint::Wss(WebSocketEndpoint {
        url: String::new(),
        bind_addr: String::new(),
        path: String::new(),
    });
    let plain = || BridgeEndpoint::Tcp(TcpEndpoint {
        addr: String::new(),
        host: String::new(),
        port: 1,
    });
    assert!(matches!(
        pair_endpoints(secure(), plain(), None),
        Err(CliError::UnsupportedPair)
    ));
    assert!(pair_endpoints(plain(), secure(), None).is_ok());
}

#[test]
fn the_listening_side_is_judged_first() {
    assert!(matches!(
        bridge("ftp://h", "nothing", None),
        Err(CliError::UnsupportedTo { .. })
    ));
    match parse(CliCommand::Bridge(BridgeCli {
        to: "tcp://h:1".to_string(),
        from: "tcp://h:2".to_string(),
        token: None,
    }))
    .unwrap()
    {
        Command::Bridge(args) => assert_eq!(tcp(args.from).port, 2),
        Command::Ssh(_) => panic!("not a session"),
    }
}
