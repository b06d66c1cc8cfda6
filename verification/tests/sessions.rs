use std::sync::Arc;
use weconn::auth::{AuthAction, AuthFailure, Authenticator, KeyLoad, OfferResult, RsaAnswer};
use weconn::client::{
    unreachable_target_message, ClientHandler, HostKeyDecision, HostKeyStatus,
};
use weconn::ssh_forward::{ForwardKind, SshForward};
use weconn::tunnel::{
    bind_failed_message, client_step, forwards_of_kind, jump_hosts, listener_action,
    refused_forward_message, serve_end, AfterSession, AfterWait, ClientStep, ListenerAction,
    ListenerEvent, Published, Reconnect, ServeEnd, ServeEvent, SessionPlan, SessionStep, KEEPALIVE_MAX,
    KEEPALIVE_SECS,
};

fn remote(spec: &str) -> SshForward {
    SshForward::parse(spec, ForwardKind::Remote).unwrap()
}

fn local(spec: &str) -> SshForward {
    SshForward::parse(spec, ForwardKind::Local).unwrap()
}

fn strings(list: &[&str]) -> Vec<String> {
    list.iter().map(|s| s.to_string()).collect()
}

const QUICK: u128 = 10_000_000_000;

#[test]
fn backoff_doubles_up_to_a_minute() {
    let mut r = Reconnect::new();
    let mut waits = Vec::new();
    for i in 0..9 {
        match r.after_session(true, i == 0, QUICK) {
            AfterSession::Wait { secs } => waits.push(secs),
            other => panic!("{other:?}"),
        }
        assert_eq!(r.after_wait(false), AfterWait::Connect);
    }
    assert_eq!(waits, vec![1, 2, 4, 8, 16, 32, 60, 60, 60]);
}

#[test]
fn a_stable_session_resets_the_backoff() {
    let mut r = Reconnect::new();
    for _ in 0..4 {
        r.after_session(true, true, 0);
        r.after_wait(false);
    }
    assert_eq!(r.after_session(true, true, QUICK), AfterSession::Wait { secs: 16 });
    assert_eq!(r.after_session(true, false, QUICK + 1), AfterSession::Wait { secs: 1 });
    r.after_wait(false);
    assert_eq!(r.after_session(true, false, 0), AfterSession::Wait { secs: 2 });
}

#[test]
fn a_first_failure_is_final_and_later_ones_are_not() {
    let mut r = Reconnect::new();
    assert_eq!(r.after_session(true, false, QUICK + 1), AfterSession::GiveUp);
    let mut r = Reconnect::new();
    assert_eq!(r.after_session(true, true, 0), AfterSession::Wait { secs: 1 });
    r.after_wait(false);
    assert_eq!(r.after_session(true, false, 0), AfterSession::Wait { secs: 2 });
}

#[test]
fn shutdown_and_interrupts_end_the_program() {
    let mut r = Reconnect::new();
    assert_eq!(r.after_session(false, true, 0), AfterSession::Exit);
    assert_eq!(r.after_session(false, false, 0), AfterSession::Exit);
    r.after_session(true, true, 0);
    assert_eq!(r.after_wait(true), AfterWait::Exit);
    assert_eq!(r.after_session(true, false, 0), AfterSession::Wait { secs: 1 });
}

#[test]
fn a_session_goes_along_the_chain() {
    let plan = SessionPlan { hops: 2, forwards: 2 };
    let mut step = plan.first_step();
    let mut steps = Vec::new();
    for _ in 0..11 {
        steps.push(step);
        step = plan.next_step(step);
    }
    assert_eq!(
        steps,
        vec![
            SessionStep::Dial { host: 0, forwards_expected: false },
            SessionStep::LogIn { host: 0, password_allowed: false },
            SessionStep::Dial { host: 1, forwards_expected: false },
            SessionStep::LogIn { host: 1, password_allowed: false },
            SessionStep::Dial { host: 2, forwards_expected: true },
            SessionStep::LogIn { host: 2, password_allowed: true },
            SessionStep::RequestForward { index: 0 },
            SessionStep::RequestForward { index: 1 },
            SessionStep::Publish,
            SessionStep::Serve,
            SessionStep::Serve,
        ]
    );
}

#[test]
fn a_direct_session_without_remote_forwards() {
    let plan = SessionPlan { hops: 0, forwards: 0 };
    let step = plan.next_step(plan.first_step());
    assert_eq!(step, SessionStep::LogIn { host: 0, password_allowed: true });
    assert_eq!(plan.next_step(step), SessionStep::Publish);
}

#[test]
fn how_served_sessions_end() {
    assert_eq!(serve_end(ServeEvent::PingFailed), ServeEnd::Lost);
    assert_eq!(serve_end(ServeEvent::PingTaskGone), ServeEnd::Shutdown);
    assert_eq!(serve_end(ServeEvent::Interrupted), ServeEnd::DisconnectAndShutdown);
    assert_eq!(serve_end(ServeEvent::InterruptUnavailable), ServeEnd::NoInterrupt);
    assert_eq!((KEEPALIVE_SECS, KEEPALIVE_MAX), (15, 3));
}

#[test]
fn messages_name_the_address() {
    assert_eq!(
        refused_forward_message(&remote("[::1]:9000:h:1")),
        "Failed to request remote forward [::1]:9000 (listen on SSH server)"
    );
    assert_eq!(
        bind_failed_message(&local("9000:h:1")),
        "Failed to bind local address 127.0.0.1:9000"
    );
}

#[test]
fn forwards_are_told_apart() {
    let all = vec![local("1:a:1"), remote("2:b:2"), local("3:c:3"), remote("4:d:4")];
    let hosts = |kind| -> Vec<String> {
        forwards_of_kind(&all, kind).into_iter().map(|f| f.dest_host).collect()
    };
    assert_eq!(hosts(ForwardKind::Local), strings(&["a", "c"]));
    assert_eq!(hosts(ForwardKind::Remote), strings(&["b", "d"]));
    assert!(forwards_of_kind(&Vec::new(), ForwardKind::Local).is_empty());
}

#[test]
fn listeners_stay_open() {
    assert_eq!(listener_action(ListenerEvent::BindFailed), ListenerAction::Fail);
    assert_eq!(listener_action(ListenerEvent::Bound), ListenerAction::Accept);
    assert_eq!(listener_action(ListenerEvent::AcceptFailed), ListenerAction::Accept);
    assert_eq!(listener_action(ListenerEvent::Accepted), ListenerAction::ServeAndAccept);
}

#[test]
fn clients_wait_two_minutes() {
    const LIMIT: u128 = 120_000_000_000;
    assert_eq!(client_step(true, false, 0), ClientStep::OpenChannel);
    assert_eq!(client_step(true, true, LIMIT * 2), ClientStep::OpenChannel);
    assert_eq!(client_step(false, false, 0), ClientStep::AwaitTunnel { nanos: LIMIT });
    assert_eq!(
        client_step(false, false, 119_999_999_999),
        ClientStep::AwaitTunnel { nanos: 1 }
    );
    assert_eq!(client_step(false, false, LIMIT), ClientStep::TimedOut);
    assert_eq!(client_step(false, true, 0), ClientStep::TunnelGone);
}

#[test]
fn clients_that_are_turned_away_are_told_why() {
    assert_eq!(client_step(true, false, 0).message(), None);
    assert_eq!(client_step(false, false, 0).message(), None);
    assert_eq!(
        client_step(false, true, 0).message().as_deref(),
        Some("Handle watcher closed")
    );
    assert_eq!(
        client_step(false, false, 120_000_000_000).message().as_deref(),
        Some("Timeout waiting for SSH tunnel to become ready")
    );
    assert_eq!(
        unreachable_target_message("[::1]:22"),
        "Failed to connect local target [::1]:22"
    );
}

#[test]
fn an_ended_session_is_withdrawn() {
    let mut board = Published::new();
    assert_eq!(*board.current(), None);
    assert!(!board.end());
    board.publish(1);
    assert_eq!(*board.current(), Some(1));
    assert!(board.end());
    assert_eq!(*board.current(), None);
    assert!(matches!(
        client_step(board.current().is_some(), false, 0),
        ClientStep::AwaitTunnel { .. }
    ));
    assert!(!board.end());
    board.publish(2);
    board.publish(3);
    assert_eq!(*board.current(), Some(3));
    assert_eq!(client_step(board.current().is_some(), false, 0), ClientStep::OpenChannel);
}

#[test]
fn jump_hosts_of_the_command_line_come_first() {
    let config = strings(&["bastion"]);
    assert_eq!(jump_hosts(&strings(&["hop1,hop2"]), &config), strings(&["hop1", "hop2"]));
    assert_eq!(jump_hosts(&strings(&["hop1", "hop2"]), &config), strings(&["hop1", "hop2"]));
    assert_eq!(jump_hosts(&strings(&[",a,,b,", "", "c"]), &config), strings(&["a", "b", "c"]));
    assert_eq!(jump_hosts(&Vec::new(), &config), config);
    assert_eq!(jump_hosts(&strings(&[","]), &config), config);
    assert_eq!(jump_hosts(&Vec::new(), &strings(&["x,y", "z"])), strings(&["x", "y", "z"]));
    assert!(jump_hosts(&Vec::new(), &Vec::new()).is_empty());
}

#[test]
fn forwarded_connections_go_to_the_forward_on_their_address() {
    let handler = ClientHandler::new(Arc::new(vec![
        local("9000:wrong:1"),
        remote("127.0.0.1:9000:10.0.0.1:3000"),
        remote("0.0.0.0:9000:10.0.0.2:3000"),
        remote("9001:[::1]:22"),
    ]));
    assert_eq!(handler.forward_target("127.0.0.1", 9000).unwrap(), "10.0.0.1:3000");
    assert_eq!(handler.forward_target("0.0.0.0", 9000).unwrap(), "10.0.0.2:3000");
    assert_eq!(handler.forward_target("192.168.1.9", 9000).unwrap(), "10.0.0.1:3000");
    assert_eq!(handler.forward_target("anything", 9001).unwrap(), "[::1]:22");
    let e = handler.forward_target("127.0.0.1", 9002).unwrap_err();
    assert_eq!((e.address.as_str(), e.port), ("127.0.0.1", 9002));
    assert_eq!(e.message(), "no remote forward registered for 127.0.0.1:9002");
    assert!(handler.forward_target("127.0.0.1", 9000 + 65536).is_err());
    assert!(ClientHandler::new(Arc::new(Vec::new())).forward_target("h", 1).is_err());
}

#[test]
fn forwards_that_share_a_port_keep_their_addresses() {
    let handler = ClientHandler::new(Arc::new(vec![
        remote("127.0.0.1:9000:a:1"),
        remote("10.0.0.1:9000:b:2"),
    ]));
    assert_eq!(handler.forward_target("10.0.0.1", 9000).unwrap(), "b:2");
    assert_eq!(handler.forward_target("127.0.0.1", 9000).unwrap(), "a:1");
    assert_eq!(handler.forward_target("10.0.0.2", 9000).unwrap(), "a:1");
    assert!(handler.forward_target("10.0.0.1", 9001).is_err());
}

#[test]
fn host_keys() {
    let handler = ClientHandler::new(Arc::new(Vec::new()));
    for (strict, status, decision) in [
        (false, HostKeyStatus::Known, HostKeyDecision::Accept),
        (false, HostKeyStatus::Unknown, HostKeyDecision::Record),
        (false, HostKeyStatus::Changed, HostKeyDecision::Refuse),
        (true, HostKeyStatus::Known, HostKeyDecision::Accept),
        (true, HostKeyStatus::Unknown, HostKeyDecision::Refuse),
        (true, HostKeyStatus::Changed, HostKeyDecision::Refuse),
    ] {
        assert_eq!(handler.check_server_key(strict, status), decision);
    }
}

fn log_in(
    auth: Authenticator,
    keys: &[(KeyLoad, RsaAnswer, OfferResult)],
    password: OfferResult,
) -> (AuthAction, Vec<AuthAction>) {
    let mut taken = Vec::new();
    let mut action = auth.start();
    loop {
        taken.push(action);
        action = match action {
            AuthAction::LoadKey { index } => auth.after_load(index, keys[index].0),
            AuthAction::QueryRsaHash { index } => auth.after_rsa_query(index, keys[index].1),
            AuthAction::OfferKey { index, .. } => auth.after_key_offer(index, keys[index].2),
            AuthAction::OfferPassword => auth.after_password(password),
            end => return (end, taken),
        };
    }
}

#[test]
fn keys_are_tried_in_order_until_one_is_accepted() {
    let keys = [
        (KeyLoad::Missing, RsaAnswer::Supported, OfferResult::Accepted),
        (KeyLoad::Unreadable, RsaAnswer::Supported, OfferResult::Accepted),
        (KeyLoad::Loaded { rsa: true }, RsaAnswer::Unsupported, OfferResult::Accepted),
        (KeyLoad::Loaded { rsa: true }, RsaAnswer::Supported, OfferResult::Rejected),
        (KeyLoad::Loaded { rsa: true }, RsaAnswer::Failed, OfferResult::Failed),
        (KeyLoad::Loaded { rsa: false }, RsaAnswer::Unsupported, OfferResult::Accepted),
        (KeyLoad::Loaded { rsa: false }, RsaAnswer::Supported, OfferResult::Accepted),
    ];
    let auth = Authenticator { keys: keys.len(), has_password: true };
    let (end, taken) = log_in(auth, &keys, OfferResult::Rejected);
    assert_eq!(end, AuthAction::Succeed);
    assert_eq!(
        taken,
        vec![
            AuthAction::LoadKey { index: 0 },
            AuthAction::LoadKey { index: 1 },
            AuthAction::LoadKey { index: 2 },
            AuthAction::QueryRsaHash { index: 2 },
            AuthAction::LoadKey { index: 3 },
            AuthAction::QueryRsaHash { index: 3 },
            AuthAction::OfferKey { index: 3, with_server_hash: true },
            AuthAction::LoadKey { index: 4 },
            AuthAction::QueryRsaHash { index: 4 },
            AuthAction::OfferKey { index: 4, with_server_hash: false },
            AuthAction::LoadKey { index: 5 },
            AuthAction::OfferKey { index: 5, with_server_hash: false },
            AuthAction::Succeed,
        ]
    );
}

#[test]
fn the_password_decides_where_no_key_does() {
    let keys = [(KeyLoad::Missing, RsaAnswer::Supported, OfferResult::Accepted)];
    let auth = Authenticator { keys: 1, has_password: true };
    assert_eq!(log_in(auth, &keys, OfferResult::Accepted).0, AuthAction::Succeed);
    assert_eq!(
        log_in(auth, &keys, OfferResult::Rejected).0,
        AuthAction::Fail { failure: AuthFailure::PasswordRejected }
    );
    assert_eq!(
        log_in(auth, &keys, OfferResult::Failed).0,
        AuthAction::Fail { failure: AuthFailure::PasswordError }
    );
    let auth = Authenticator { keys: 1, has_password: false };
    assert_eq!(
        log_in(auth, &keys, OfferResult::Accepted).0,
        AuthAction::Fail { failure: AuthFailure::NothingWorked }
    );
    let auth = Authenticator { keys: 0, has_password: true };
    assert_eq!(auth.start(), AuthAction::OfferPassword);
}

#[test]
fn failed_logins_are_explained() {
    let auth = Authenticator { keys: 12, has_password: false };
    assert_eq!(
        auth.failure_message("me", AuthFailure::NothingWorked),
        "All authentication methods failed for user 'me'. Tried 12 key(s)."
    );
    let auth = Authenticator { keys: 0, has_password: true };
    assert_eq!(
        auth.failure_message("me", AuthFailure::NothingWorked),
        "All authentication methods failed for user 'me'. Tried 0 key(s) and password."
    );
    assert_eq!(
        auth.failure_message("me", AuthFailure::PasswordRejected),
        "Password authentication rejected by server"
    );
    assert_eq!(
        auth.failure_message("me", AuthFailure::PasswordError),
        "Password authentication failed"
    );
}
