use weconn::cli::{parse, parse_forwards, parse_ssh, CliCommand, Command, SshCli};
use weconn::error::CliError;
use weconn::ssh_forward::{ForwardKind, SshForward};

fn forward(spec: &str, kind: ForwardKind) -> (String, u16, String, u16) {
    let f = SshForward::parse(spec, kind).unwrap();
    assert_eq!(f.kind, kind);
    (f.bind_host, f.bind_port, f.dest_host, f.dest_port)
}

fn expect(host: &str, port: u16, dest: &str, dest_port: u16) -> (String, u16, String, u16) {
    (host.to_string(), port, dest.to_string(), dest_port)
}

fn ssh_cli(local: &[&str], remote: &[&str]) -> SshCli {
    SshCli {
        local_forwards: local.iter().map(|s| s.to_string()).collect(),
        remote_forwards: remote.iter().map(|s| s.to_string()).collect(),
        ssh_host: "myserver".to_string(),
        proxy_jump: vec!["hop1,hop2".to_string()],
        user: Some("me".to_string()),
        password: None,
        identity: Some("/keys/id".to_string()),
        port: Some(2222),
        strict_host_keys: true,
    }
}

#[test]
fn three_fields_listen_on_localhost() {
    assert_eq!(
        forward("3307:10.0.0.5:3306", ForwardKind::Local),
        expect("127.0.0.1", 3307, "10.0.0.5", 3306)
    );
}

#[test]
fn four_fields_name_the_bind_host() {
    assert_eq!(
        forward("0.0.0.0:8080:10.0.0.5:80", ForwardKind::Local),
        expect("0.0.0.0", 8080, "10.0.0.5", 80)
    );
    assert_eq!(
        forward("192.168.1.50:3307:10.0.0.5:3306", ForwardKind::Local),
        expect("192.168.1.50", 3307, "10.0.0.5", 3306)
    );
    assert_eq!(
        forward("127.0.0.1:9000:127.0.0.1:3000", ForwardKind::Remote),
        expect("127.0.0.1", 9000, "127.0.0.1", 3000)
    );
}

#[test]
fn ipv6_addresses_stand_in_brackets() {
    assert_eq!(
        forward("[::1]:3307:[::1]:3306", ForwardKind::Local),
        expect("::1", 3307, "::1", 3306)
    );
    assert_eq!(
        forward("3307:[fe80::1]:3306", ForwardKind::Remote),
        expect("127.0.0.1", 3307, "fe80::1", 3306)
    );
}

#[test]
fn socket_addresses_are_written_with_brackets_where_needed() {
    assert_eq!(SshForward::socket_addr("10.0.0.5", 80), "10.0.0.5:80");
    assert_eq!(SshForward::socket_addr("::1", 65535), "[::1]:65535");
    assert_eq!(SshForward::socket_addr("[::1]", 0), "[::1]:0");
    assert_eq!(SshForward::socket_addr("", 7), ":7");
}

#[test]
fn written_forwards_read_back() {
    for spec in [
        "[::1]:3307:[2001:db8::2]:3306",
        "0.0.0.0:8080:db.internal:80",
        "8080:db.internal:00080",
    ] {
        let f = SshForward::parse(spec, ForwardKind::Local).unwrap();
        let written = format!(
            "{}:{}",
            SshForward::socket_addr(&f.bind_host, f.bind_port),
            SshForward::socket_addr(&f.dest_host, f.dest_port)
        );
        assert_eq!(
            forward(&written, ForwardKind::Local),
            (f.bind_host, f.bind_port, f.dest_host, f.dest_port)
        );
    }
}

#[test]
fn malformed_forwards_are_refused() {
    for spec in [
        "",
        "80",
        "80:host",
        ":80:host:80",
        "a:b:c:d:e",
        "host:80:other",
        "host:port:other:80",
        "80::80",
        "80:host:65536",
        "80:host:+80",
        "80:host:",
        "80:host:0",
        "[::1:80:host:80",
        "[::1]x:80:host:80",
        "[]:80:host:80",
        "[a[b]:80:host:80",
        "::1:80:host:80",
    ] {
        match SshForward::parse(spec, ForwardKind::Local) {
            Err(CliError::InvalidForward { kind, spec: s }) => {
                assert_eq!(kind, ForwardKind::Local);
                assert_eq!(s, spec);
            }
            other => panic!("{spec}: {other:?}"),
        }
    }
    let e = SshForward::parse("x", ForwardKind::Remote).unwrap_err();
    assert_eq!(
        e.message(),
        "Invalid remote forward (-R) 'x': expected [bind_host:]bind_port:remote_host:remote_port"
    );
    let e = SshForward::parse("x", ForwardKind::Local).unwrap_err();
    assert_eq!(
        e.message(),
        "Invalid local forward (-L) 'x': expected [bind_host:]bind_port:remote_host:remote_port"
    );
}

#[test]
fn only_the_server_can_pick_a_port() {
    assert!(SshForward::parse("0:host:80", ForwardKind::Local).is_err());
    assert_eq!(
        forward("0:host:80", ForwardKind::Remote),
        expect("127.0.0.1", 0, "host", 80)
    );
}

#[test]
fn a_clone_is_the_same_forward() {
    let f = SshForward::parse("[::1]:3307:host:3306", ForwardKind::Remote).unwrap();
    let g = f.clone();
    assert_eq!(
        (g.kind, g.bind_host, g.bind_port, g.dest_host, g.dest_port),
        (f.kind, f.bind_host, f.bind_port, f.dest_host, f.dest_port)
    );
}

#[test]
fn ssh_arguments_keep_order_and_values() {
    let args = parse_ssh(ssh_cli(
        &["3307:10.0.0.5:3306", "6380:10.0.0.5:6379"],
        &["9000:127.0.0.1:3000"],
    ))
    .unwrap();
    let ports: Vec<(ForwardKind, u16)> =
        args.forwards.iter().map(|f| (f.kind, f.bind_port)).collect();
    assert_eq!(
        ports,
        vec![
            (ForwardKind::Local, 3307),
            (ForwardKind::Local, 6380),
            (ForwardKind::Remote, 9000)
        ]
    );
    assert_eq!(args.ssh_host, "myserver");
    assert_eq!(args.proxy_jump, vec!["hop1,hop2".to_string()]);
    assert_eq!(args.user.as_deref(), Some("me"));
    assert_eq!(args.password, None);
    assert_eq!(args.identity.as_deref(), Some("/keys/id"));
    assert_eq!(args.port, Some(2222));
    assert!(args.strict_host_keys);
}

#[test]
fn ssh_needs_a_forward() {
    let e = parse_ssh(ssh_cli(&[], &[])).unwrap_err();
    assert!(matches!(e, CliError::NoForwards));
    assert_eq!(e.message(), "at least one -L or -R forward is required");
}

#[test]
fn two_local_forwards_cannot_share_an_address() {
    let e = parse_ssh(ssh_cli(&["[::1]:80:a:1", "81:b:2", "[::1]:80:c:3"], &[])).unwrap_err();
    assert_eq!(e.message(), "duplicate local forward (-L) bind address [::1]:80");
    assert!(matches!(e, CliError::DuplicateForward { kind: ForwardKind::Local, .. }));
}

#[test]
fn two_remote_forwards_cannot_share_an_address() {
    let e = parse_ssh(ssh_cli(&[], &["80:a:1", "127.0.0.1:80:b:2"])).unwrap_err();
    assert_eq!(e.message(), "duplicate remote forward (-R) bind address 127.0.0.1:80");
}

#[test]
fn kinds_and_hosts_and_server_chosen_ports_do_not_clash() {
    assert!(parse_ssh(ssh_cli(&["80:a:1"], &["80:a:1"])).is_ok());
    assert!(parse_ssh(ssh_cli(&["80:a:1", "0.0.0.0:80:a:1"], &[])).is_ok());
    assert!(parse_ssh(ssh_cli(&[], &["0:a:1", "0:b:2"])).is_ok());
}

#[test]
fn the_first_fault_is_reported() {
    let e = parse_ssh(ssh_cli(&["80:a:1", "bad", "80:a:1"], &["worse"])).unwrap_err();
    assert!(matches!(e, CliError::InvalidForward { kind: ForwardKind::Local, .. }));
    let e = parse_ssh(ssh_cli(&["80:a:1", "80:a:1", "bad"], &[])).unwrap_err();
    assert!(matches!(e, CliError::DuplicateForward { .. }));
    let e = parse_ssh(ssh_cli(&["80:a:1"], &["worse"])).unwrap_err();
    assert!(matches!(e, CliError::InvalidForward { kind: ForwardKind::Remote, .. }));
}

#[test]
fn forwards_of_one_kind_are_read_in_order() {
    let specs = vec!["2:b:2".to_string(), "1:a:1".to_string()];
    let forwards = parse_forwards(&specs, ForwardKind::Remote).unwrap();
    assert_eq!(forwards.len(), 2);
    assert_eq!(forwards[0].dest_host, "b");
    assert_eq!(forwards[1].dest_host, "a");
    assert!(parse_forwards(&Vec::new(), ForwardKind::Remote).unwrap().is_empty());
}

#[test]
fn an_ssh_command_line_is_an_ssh_command() {
    match parse(CliCommand::Ssh(ssh_cli(&["80:a:1"], &[]))).unwrap() {
        Command::Ssh(args) => assert_eq!(args.forwards.len(), 1),
        Command::Bridge(_) => panic!("not a bridge"),
    }
    assert!(matches!(
        parse(CliCommand::Ssh(ssh_cli(&[], &[]))),
        Err(CliError::NoForwards)
    ));
}
