use std::path::Path;
use weconn::cli::SshArgs;
use weconn::ssh_config::{
    apply_overrides, apply_params, apply_ssh_config, current_user, default_config,
    default_identity_files, expand_tilde, identity_candidates, resolve, ConfigParams, HostConfig,
    LocalSetup,
};
use weconn::tunnel::session_hosts;

fn text(s: &str) -> Option<String> {
    Some(s.to_string())
}

fn local(config: Option<&str>) -> LocalSetup {
    LocalSetup {
        user: text("alice"),
        username: text("bob"),
        home: text("/home/alice"),
        identity_exists: [true, false, true, false],
        ssh_config: config.map(|s| s.as_bytes().to_vec()),
    }
}

fn no_params() -> ConfigParams {
    ConfigParams { host_name: None, port: None, user: None, identity_file: None, proxy_jump: None }
}

fn parts(c: &HostConfig) -> (&str, u16, &str, Vec<&str>, Vec<&str>) {
    (
        &c.hostname,
        c.port,
        &c.user,
        c.identity_files.iter().map(String::as_str).collect(),
        c.proxy_jump.iter().map(String::as_str).collect(),
    )
}

const DEFAULT_KEYS: [&str; 2] = ["/home/alice/.ssh/id_ed25519", "/home/alice/.ssh/id_ecdsa"];

#[test]
fn defaults_without_a_configuration() {
    let c = resolve("srv", None, None, None, &local(None));
    assert_eq!(parts(&c), ("srv", 22, "alice", DEFAULT_KEYS.to_vec(), vec![]));
    let copy = c.clone();
    assert_eq!(parts(&copy), parts(&c));
}

#[test]
fn the_configuration_decides_over_defaults() {
    let c = resolve(
        "srv",
        None, None, None,
        &local(Some(
            "Host other\n  Port 1\nHost srv\n  HostName 10.0.0.9\n  Port 2200\n  User carol\n  IdentityFile /keys/a\n  IdentityFile /keys/b\n  ProxyJump hop1,hop2\n  SomethingUnknown yes\n",
        )),
    );
    assert_eq!(
        parts(&c),
        ("10.0.0.9", 2200, "carol", vec!["/keys/a", "/keys/b"], vec!["hop1", "hop2"])
    );
}

#[test]
fn the_command_line_decides_over_the_configuration() {
    let c = resolve(
        "srv",
        Some(9),
        Some("dave"),
        Some("~/k"),
        &local(Some("Host *\n  HostName h\n  Port 2200\n  User carol\n  IdentityFile /keys/a\n")),
    );
    assert_eq!(parts(&c), ("h", 9, "dave", vec!["~/k"], vec![]));
    let mut c = default_config("srv", &local(None));
    apply_overrides(&mut c, Some(9), Some("dave"), Some("~/k"));
    assert_eq!(parts(&c), ("srv", 9, "dave", vec!["~/k"], vec![]));
}

#[test]
fn hosts_the_configuration_does_not_match_keep_defaults() {
    let c = resolve("srv", None, None, None, &local(Some("Host other\n  Port 1\n  User x\n")));
    assert_eq!(parts(&c), ("srv", 22, "alice", DEFAULT_KEYS.to_vec(), vec![]));
}

#[test]
fn a_configuration_that_cannot_be_read_changes_nothing() {
    let broken = "Host srv\n  User carol\n  Port many\n";
    let c = resolve("srv", None, None, None, &local(Some(broken)));
    assert_eq!(parts(&c), ("srv", 22, "alice", DEFAULT_KEYS.to_vec(), vec![]));
    let mut c = default_config("srv", &local(None));
    let before = c.clone();
    assert!(apply_ssh_config(&mut c, "srv", broken.as_bytes(), "/home/alice").is_err());
    assert_eq!(parts(&c), parts(&before));
}

#[test]
fn an_empty_configuration_is_as_good_as_none() {
    let c = resolve("srv", None, None, None, &local(Some("")));
    assert_eq!(parts(&c), ("srv", 22, "alice", DEFAULT_KEYS.to_vec(), vec![]));
    let mut c = default_config("srv", &local(None));
    assert!(apply_ssh_config(&mut c, "srv", b"", "/home/alice").is_ok());
    assert_eq!(c.port, 22);
}

#[test]
fn parameters_are_applied_one_by_one() {
    let mut c = default_config("srv", &local(None));
    apply_params(&mut c, no_params(), Some("/h"));
    assert_eq!(parts(&c), ("srv", 22, "alice", DEFAULT_KEYS.to_vec(), vec![]));
    let mut p = no_params();
    p.identity_file = Some(Vec::new());
    p.port = Some(7);
    apply_params(&mut c, p, Some("/h"));
    assert_eq!(parts(&c), ("srv", 7, "alice", DEFAULT_KEYS.to_vec(), vec![]));
    let mut p = no_params();
    p.identity_file = Some(vec!["~/a".to_string(), "b".to_string()]);
    p.host_name = text("real");
    apply_params(&mut c, p, Some("/h"));
    assert_eq!(parts(&c), ("real", 7, "alice", vec!["/h/a", "b"], vec![]));
}

#[test]
fn tilde_stands_for_home() {
    assert_eq!(expand_tilde("~/.ssh/id", Some("/home/a")), "/home/a/.ssh/id");
    assert_eq!(expand_tilde("~/id", Some("/")), "/id");
    assert_eq!(expand_tilde("~/id", Some("")), "id");
    assert_eq!(expand_tilde("~//etc/id", Some("/home/a")), "/etc/id");
    assert_eq!(expand_tilde("~/", Some("/home/a")), "/home/a/");
    assert_eq!(expand_tilde("~/id", None), "~/id");
    assert_eq!(expand_tilde("~bob/id", Some("/home/a")), "~bob/id");
    assert_eq!(expand_tilde("~", Some("/home/a")), "~");
    assert_eq!(expand_tilde("", Some("/home/a")), "");
    assert_eq!(expand_tilde("/x/~/id", Some("/home/a")), "/x/~/id");
}

#[test]
fn tilde_expands_as_paths_join() {
    for home in ["/home/a", "/", "rel", "/home/a/"] {
        for rest in ["id", ".ssh/id", "", "/abs"] {
            assert_eq!(
                expand_tilde(&format!("~/{rest}"), Some(home)),
                Path::new(home).join(rest).to_str().unwrap()
            );
        }
    }
}

#[test]
fn the_user_is_named_by_the_environment() {
    assert_eq!(current_user(&text("u"), &text("v")), "u");
    assert_eq!(current_user(&None, &text("v")), "v");
    assert_eq!(current_user(&None, &None), "root");
    assert_eq!(current_user(&text(""), &text("v")), "");
}

#[test]
fn usual_key_files() {
    assert_eq!(
        identity_candidates("/h"),
        vec!["/h/.ssh/id_ed25519", "/h/.ssh/id_rsa", "/h/.ssh/id_ecdsa", "/h/.ssh/id_dsa"]
    );
    assert_eq!(
        default_identity_files(&text("/h"), &[false, true, false, true]),
        vec!["/h/.ssh/id_rsa", "/h/.ssh/id_dsa"]
    );
    assert!(default_identity_files(&text("/h"), &[false; 4]).is_empty());
    assert_eq!(default_identity_files(&text("/h"), &[true; 4]), identity_candidates("/h"));
    assert!(default_identity_files(&None, &[true; 4]).is_empty());
}

const ORDINARY: &str = "# Gr\u{fc}\u{df}e\nHost srv\n  HostName 10.0.0.9\n  Port 2200\n  User carol\n  IdentityFile ~/.ssh/id_work\n  IdentityFile /keys/b\n  ProxyJump hop1,hop2\n  ServerAliveInterval 60\n  ControlPath ~/.ssh/%r@%h:%p\nHost *\n  ConnectTimeout 10\n  UseKeychain yes\n";

#[test]
fn paths_below_home_are_found_in_the_given_home() {
    let c = resolve("srv", None, None, None, &local(Some(ORDINARY)));
    assert_eq!(
        parts(&c),
        (
            "10.0.0.9",
            2200,
            "carol",
            vec!["/home/alice/.ssh/id_work", "/keys/b"],
            vec!["hop1", "hop2"]
        )
    );
    let mut c = default_config("srv", &local(None));
    assert!(apply_ssh_config(&mut c, "srv", ORDINARY.as_bytes(), "/elsewhere/").is_ok());
    assert_eq!(
        parts(&c),
        (
            "10.0.0.9",
            2200,
            "carol",
            vec!["/elsewhere/.ssh/id_work", "/keys/b"],
            vec!["hop1", "hop2"]
        )
    );
    let c = resolve("other", None, None, None, &local(Some(ORDINARY)));
    assert_eq!(parts(&c), ("other", 22, "alice", DEFAULT_KEYS.to_vec(), vec![]));
}

#[test]
fn an_unreadable_configuration_with_a_tilde_changes_nothing() {
    for broken in [
        "Host srv\n  User carol\n  IdentityFile ~/.ssh/id_work\n  Port many\n",
        "Host srv\n  User carol\n  IdentityFile \"~/.ssh/id_work\n",
    ] {
        let mut c = default_config("srv", &local(None));
        assert!(apply_ssh_config(&mut c, "srv", broken.as_bytes(), "/home/alice").is_err());
        assert_eq!(parts(&c), ("srv", 22, "alice", DEFAULT_KEYS.to_vec(), vec![]));
        let c = resolve("srv", None, None, None, &local(Some(broken)));
        assert_eq!(parts(&c), ("srv", 22, "alice", DEFAULT_KEYS.to_vec(), vec![]));
    }
    let mut undecodable = local(None);
    undecodable.ssh_config = Some(vec![72, 111, 115, 116, 32, 255, 10]);
    let c = resolve("srv", None, None, None, &undecodable);
    assert_eq!(parts(&c), ("srv", 22, "alice", DEFAULT_KEYS.to_vec(), vec![]));
}

#[test]
fn the_home_itself_can_be_named() {
    let mut c = default_config("srv", &local(None));
    let text = b"IdentityFile ~\nIdentityFile ~bob/id\nIdentityFile ~//x\n";
    assert!(apply_ssh_config(&mut c, "srv", text, "/home/alice").is_ok());
    assert_eq!(
        c.identity_files.iter().map(Path::new).collect::<Vec<_>>(),
        vec![Path::new("/home/alice"), Path::new("~bob/id"), Path::new("/home/alice/x")]
    );
}

#[test]
fn without_a_home_there_is_no_configuration() {
    let mut homeless = local(Some("Host srv\n  Port 2200\n"));
    homeless.home = None;
    let c = resolve("srv", None, None, None, &homeless);
    assert_eq!(parts(&c), ("srv", 22, "alice", vec![], vec![]));
}

#[test]
fn a_chain_goes_over_the_jump_hosts_to_the_target() {
    let config = "Host srv\n  HostName 10.0.0.9\n  ProxyJump hop1,hop2\nHost hop2\n  Port 2022\n  User jumper\n";
    let args = |proxy_jump: &[&str]| SshArgs {
        forwards: Vec::new(),
        ssh_host: "srv".to_string(),
        proxy_jump: proxy_jump.iter().map(|s| s.to_string()).collect(),
        user: text("dave"),
        password: None,
        identity: text("/k"),
        port: Some(9),
        strict_host_keys: false,
    };
    let chain = session_hosts(&args(&[]), &local(Some(config)));
    assert_eq!(chain.len(), 3);
    assert_eq!(parts(&chain[0]), ("hop1", 22, "alice", DEFAULT_KEYS.to_vec(), vec![]));
    assert_eq!(parts(&chain[1]), ("hop2", 2022, "jumper", DEFAULT_KEYS.to_vec(), vec![]));
    assert_eq!(parts(&chain[2]), ("10.0.0.9", 9, "dave", vec!["/k"], vec!["hop1", "hop2"]));
    let chain = session_hosts(&args(&["hop2"]), &local(Some(config)));
    assert_eq!(chain.len(), 2);
    assert_eq!(chain[0].port, 2022);
    assert_eq!(chain[1].hostname, "10.0.0.9");
    let chain = session_hosts(&args(&[]), &local(None));
    assert_eq!(chain.len(), 1);
    assert_eq!(parts(&chain[0]), ("srv", 9, "dave", vec!["/k"], vec![]));
}

#[test]
fn words_in_comments_and_values_take_in_nothing() {
    for (text, port) in [
        ("# include ~/other\nHost srv\n  Port 2201\n", 2201),
        ("Host srv\n  # Include x\n  Port 2202\n", 2202),
        ("Host srv include\n  Port 2203\n  IdentityFile /keys/include\n", 2203),
        ("IncludeNothing x\nHost srv\n  Port 2204\n", 2204),
        ("UseKeychain yes\nHost srv\n  Port 2205\n", 2205),
        ("  usekeychain = FALSE # on macOS\nHost srv\n  Port 2206\n", 2206),
        ("# keychain, call 1234567890\nHost srv\n  ConnectTimeout 10\n  Port 2207\n", 2207),
        ("Host srv\n  Port 2208\n  # paths like ~\\x or ~//x\n", 2208),
    ] {
        assert_eq!(resolve("srv", None, None, None, &local(Some(text))).port, port);
        let mut c = default_config("srv", &local(None));
        assert!(apply_ssh_config(&mut c, "srv", text.as_bytes(), "/home/alice").is_ok());
        assert_eq!(c.port, port);
    }
    for text in ["Host srv\n  Port 2209\ninclude\n", "Port 2209\nUseKeychain\n"] {
        assert_eq!(resolve("srv", None, None, None, &local(Some(text))).port, 22);
    }
}
