//! Keeping a tunnel up: what to do next when sessions start, end and are waited for.

use crate::cli::{SshArgs, SshArgsView};
use crate::ssh_config::{resolve, HostConfig, HostConfigView, LocalSetup, Overrides};
use crate::ssh_forward::{ForwardKind, ForwardView, SshForward};
use crate::text::{chars_of, concat3, find_char};
use vstd::prelude::*;

verus! {

/// The wait before the first reconnect, in seconds.
pub const FIRST_DELAY_SECS: u64 = 1;

/// The longest wait before a reconnect, in seconds.
pub const MAX_DELAY_SECS: u64 = 60;

/// A session that lasted longer than this makes the next wait a first wait again.
pub const STABLE_NANOS: u128 = 10_000_000_000;

/// How long a client of a local forward waits for the tunnel.
pub const CLIENT_WAIT_NANOS: u128 = 120_000_000_000;

/// How often a session is shown to be alive, in seconds.
pub const KEEPALIVE_SECS: u64 = 15;

/// How many signs of life the server may leave unanswered.
pub const KEEPALIVE_MAX: usize = 3;

/// What a reconnect depends on.
#[derive(Debug, Clone, Copy)]
pub struct Reconnect {
    delay_secs: u64,
    ever_connected: bool,
}

/// [`Reconnect`] as a value.
#[verifier::ext_equal]
pub struct ReconnectView {
    pub delay_secs: u64,
    pub ever_connected: bool,
}

/// What to do once a session has ended.
#[derive(Debug, Clone, Copy, PartialEq, Eq, Structural)]
pub enum AfterSession {
    /// The user ended it: leave.
    Exit,
    /// The first connection never came up: report the error and leave.
    GiveUp,
    /// Wait, then connect again.
    Wait { secs: u64 },
}

/// What to do once a wait is over.
#[derive(Debug, Clone, Copy, PartialEq, Eq, Structural)]
pub enum AfterWait {
    /// The user cut it short: leave.
    Exit,
    /// Connect again.
    Connect,
}

impl View for Reconnect {
    type V = ReconnectView;

    closed spec fn view(&self) -> ReconnectView {
        ReconnectView { delay_secs: self.delay_secs, ever_connected: self.ever_connected }
    }
}

impl ReconnectView {
    /// Where a tunnel starts.
    pub open spec fn fresh() -> ReconnectView {
        ReconnectView { delay_secs: FIRST_DELAY_SECS, ever_connected: false }
    }

    /// The wait that follows a session of this length.
    pub open spec fn wait_after(self, lasted_nanos: u128) -> u64 {
        if lasted_nanos > STABLE_NANOS {
            FIRST_DELAY_SECS
        } else {
            self.delay_secs
        }
    }

    /// What to do once a session has ended.
    pub open spec fn verdict(
        self,
        failed: bool,
        was_connected: bool,
        lasted_nanos: u128,
    ) -> AfterSession {
        if !failed {
            AfterSession::Exit
        } else if !was_connected && !self.ever_connected {
            AfterSession::GiveUp
        } else {
            AfterSession::Wait { secs: self.wait_after(lasted_nanos) }
        }
    }

    /// The state once a session has ended.
    pub open spec fn ended(
        self,
        failed: bool,
        was_connected: bool,
        lasted_nanos: u128,
    ) -> ReconnectView {
        if self.verdict(failed, was_connected, lasted_nanos) is Wait {
            ReconnectView { delay_secs: self.wait_after(lasted_nanos), ever_connected: true }
        } else {
            self
        }
    }

    /// The state once a wait is over: the next wait is twice as long, up to the longest.
    pub open spec fn waited(self) -> ReconnectView {
        ReconnectView {
            delay_secs: if 2 * self.delay_secs < MAX_DELAY_SECS {
                (2 * self.delay_secs) as u64
            } else {
                MAX_DELAY_SECS
            },
            ..self
        }
    }
}

impl Reconnect {
    /// Where a tunnel starts.
    pub fn new() -> (r: Self)
        ensures
            r@ == ReconnectView::fresh(),
    {
        Reconnect { delay_secs: FIRST_DELAY_SECS, ever_connected: false }
    }

    /// Decides what to do once a session has ended.
    pub fn after_session(&mut self, failed: bool, was_connected: bool, lasted_nanos: u128) -> (r:
        AfterSession)
        ensures
            r == old(self)@.verdict(failed, was_connected, lasted_nanos),
            final(self)@ == old(self)@.ended(failed, was_connected, lasted_nanos),
    {
        if !failed {
            return AfterSession::Exit;
        }
        if !was_connected && !self.ever_connected {
            return AfterSession::GiveUp;
        }
        self.ever_connected = true;
        if lasted_nanos > STABLE_NANOS {
            self.delay_secs = FIRST_DELAY_SECS;
        }
        AfterSession::Wait { secs: self.delay_secs }
    }

    /// Decides what to do once a wait is over, or was cut short by the user.
    pub fn after_wait(&mut self, interrupted: bool) -> (r: AfterWait)
        ensures
            interrupted ==> r == AfterWait::Exit && final(self)@ == old(self)@,
            !interrupted ==> r == AfterWait::Connect && final(self)@ == old(self)@.waited(),
    {
        if interrupted {
            return AfterWait::Exit;
        }
        self.delay_secs =
        if self.delay_secs < MAX_DELAY_SECS / 2 {
            self.delay_secs * 2
        } else {
            MAX_DELAY_SECS
        };
        AfterWait::Connect
    }
}

/// The state after `n` sessions that failed before they were stable, each with its wait.
pub open spec fn after_quick_failures(start: ReconnectView, lasted_nanos: u128, n: nat) -> ReconnectView
    decreases n,
{
    if n == 0 {
        start
    } else {
        after_quick_failures(start, lasted_nanos, (n - 1) as nat).ended(
            true,
            false,
            lasted_nanos,
        ).waited()
    }
}

/// The backoff doubles: after a connected session was lost, failures in a row that come before a
/// session is stable are followed by waits of 1, 2, 4, 8, 16 and 32 seconds, and then of 60.
pub proof fn law_backoff_doubles(lasted_nanos: u128, n: nat)
    requires
        lasted_nanos <= STABLE_NANOS,
    ensures
        ({
            let lost = ReconnectView::fresh().ended(true, true, lasted_nanos);
            let state = after_quick_failures(lost, lasted_nanos, n);
            &&& state.ever_connected
            &&& state.verdict(true, false, lasted_nanos) == (AfterSession::Wait {
                secs: if n < 6 {
                    vstd::arithmetic::power2::pow2(n) as u64
                } else {
                    60
                },
            })
        }),
    decreases n,
{
    vstd::arithmetic::power2::lemma2_to64();
    if n > 0 {
        law_backoff_doubles(lasted_nanos, (n - 1) as nat);
        if n < 6 {
            vstd::arithmetic::power2::lemma_pow2_unfold(n);
        }
    }
}

/// A tunnel that was once up is never given up: every failure is followed by a wait, until the
/// user ends it; and a tunnel that was up stays counted as such.
pub proof fn law_reconnects_for_good(
    state: ReconnectView,
    was_connected: bool,
    lasted_nanos: u128,
)
    requires
        was_connected || state.ever_connected,
    ensures
        state.verdict(true, was_connected, lasted_nanos) is Wait,
        state.ended(true, was_connected, lasted_nanos).ever_connected,
        state.ended(true, was_connected, lasted_nanos).waited().ever_connected,
{
}

/// A session that failed.
pub struct FailedSession {
    pub was_connected: bool,
    pub lasted_nanos: u128,
}

/// The state after sessions that failed, each with its wait, or nothing where one of them was
/// not followed by a wait.
pub open spec fn after_failures(sessions: Seq<FailedSession>) -> Option<ReconnectView>
    decreases sessions.len(),
{
    if sessions.len() == 0 {
        Some(ReconnectView::fresh())
    } else {
        let last = sessions.last();
        match after_failures(sessions.drop_last()) {
            Some(state) => if state.verdict(true, last.was_connected, last.lasted_nanos) is Wait {
                Some(state.ended(true, last.was_connected, last.lasted_nanos).waited())
            } else {
                None
            },
            None => None,
        }
    }
}

/// Only the first session of all can end the program with an error, and it does so if and only
/// if it never connected: after whatever other failures, every failure is followed by a wait of
/// one second to sixty.
pub proof fn law_only_first_session_gives_up(
    sessions: Seq<FailedSession>,
    was_connected: bool,
    lasted_nanos: u128,
)
    ensures
        sessions.len() > 0 ==> (after_failures(sessions) is Some
            <==> sessions[0].was_connected),
        after_failures(sessions) is Some && sessions.len() > 0 ==> {
            &&& after_failures(sessions)->Some_0.ever_connected
            &&& is_backoff(after_failures(sessions)->Some_0)
            &&& after_failures(sessions)->Some_0.verdict(
                true,
                was_connected,
                lasted_nanos,
            ) matches AfterSession::Wait { secs }
            &&& 1 <= secs <= 60
        },
    decreases sessions.len(),
{
    if sessions.len() > 0 {
        let before = sessions.drop_last();
        law_only_first_session_gives_up(before, was_connected, lasted_nanos);
        if before.len() > 0 {
            assert(before[0] == sessions[0]);
        }
    }
}

/// A tunnel that was never up is given up at its first failure, and a session that ended in
/// order ends the program.
pub proof fn law_first_failure_and_shutdown(
    state: ReconnectView,
    was_connected: bool,
    lasted_nanos: u128,
)
    ensures
        ReconnectView::fresh().verdict(true, false, lasted_nanos) == AfterSession::GiveUp,
        state.verdict(false, was_connected, lasted_nanos) == AfterSession::Exit,
{
}

/// A session that was stable makes the next wait one second, whatever came before it.
pub proof fn law_stable_session_resets_backoff(
    state: ReconnectView,
    was_connected: bool,
    lasted_nanos: u128,
)
    requires
        was_connected || state.ever_connected,
        lasted_nanos > STABLE_NANOS,
    ensures
        state.verdict(true, was_connected, lasted_nanos) == (AfterSession::Wait { secs: 1 }),
{
}

/// Whether a wait is between the first and the longest.
pub open spec fn is_backoff(state: ReconnectView) -> bool {
    FIRST_DELAY_SECS <= state.delay_secs <= MAX_DELAY_SECS
}

/// Every wait is between one second and sixty.
pub proof fn law_waits_are_bounded(
    state: ReconnectView,
    failed: bool,
    was_connected: bool,
    lasted_nanos: u128,
)
    requires
        is_backoff(state),
    ensures
        is_backoff(ReconnectView::fresh()),
        is_backoff(state.ended(failed, was_connected, lasted_nanos)),
        is_backoff(state.waited()),
        state.verdict(failed, was_connected, lasted_nanos) matches AfterSession::Wait { secs }
            ==> 1 <= secs <= 60,
{
}

/// What a session has to do: dial and log in to the jump hosts and to the host itself, then ask
/// for the remote forwards.
#[derive(Debug, Clone, Copy)]
pub struct SessionPlan {
    /// The number of jump hosts.
    pub hops: usize,
    /// The number of remote forwards.
    pub forwards: usize,
}

/// One step of a session. Hosts are counted along the chain; the last one is the host itself.
#[derive(Debug, Clone, Copy, PartialEq, Eq, Structural)]
pub enum SessionStep {
    /// Connect to a host: to the first directly, to each other one through the one before it.
    /// Only a host that will be asked for forwards may send forwarded connections.
    Dial { host: usize, forwards_expected: bool },
    /// Log in to a host.
    LogIn { host: usize, password_allowed: bool },
    /// Ask for a remote forward.
    RequestForward { index: usize },
    /// Let the local forwards use the session.
    Publish,
    /// Keep the session alive until it is lost or ended.
    Serve,
}

impl SessionPlan {
    /// The connection to a host.
    pub open spec fn dial_step(self, host: usize) -> SessionStep {
        SessionStep::Dial { host, forwards_expected: host == self.hops }
    }

    /// What follows a login to the last host, or the remote forward before `index`.
    pub open spec fn forward_step(self, index: int) -> SessionStep {
        if 0 <= index < self.forwards {
            SessionStep::RequestForward { index: index as usize }
        } else {
            SessionStep::Publish
        }
    }

    /// What follows a step that succeeded.
    pub open spec fn following(self, step: SessionStep) -> SessionStep {
        match step {
            SessionStep::Dial { host, .. } => SessionStep::LogIn {
                host,
                password_allowed: host == self.hops,
            },
            SessionStep::LogIn { host, .. } => if host < self.hops {
                self.dial_step((host + 1) as usize)
            } else {
                self.forward_step(0)
            },
            SessionStep::RequestForward { index } => self.forward_step(index + 1),
            SessionStep::Publish => SessionStep::Serve,
            SessionStep::Serve => SessionStep::Serve,
        }
    }

    /// The step that comes after `n` others.
    pub open spec fn nth_step(self, n: nat) -> SessionStep
        decreases n,
    {
        if n == 0 {
            self.dial_step(0)
        } else {
            self.following(self.nth_step((n - 1) as nat))
        }
    }

    /// The first step of a session.
    pub fn first_step(&self) -> (r: SessionStep)
        ensures
            r == self.nth_step(0),
    {
        SessionStep::Dial { host: 0, forwards_expected: self.hops == 0 }
    }

    /// The step that follows one that succeeded. A step that fails ends the session.
    pub fn next_step(&self, step: SessionStep) -> (r: SessionStep)
        ensures
            r == self.following(step),
    {
        match step {
            SessionStep::Dial { host, forwards_expected: _ } => SessionStep::LogIn {
                host,
                password_allowed: host == self.hops,
            },
            SessionStep::LogIn { host, password_allowed: _ } => if host < self.hops {
                SessionStep::Dial { host: host + 1, forwards_expected: host + 1 == self.hops }
            } else if self.forwards > 0 {
                SessionStep::RequestForward { index: 0 }
            } else {
                SessionStep::Publish
            },
            SessionStep::RequestForward { index } => if index < self.forwards && index + 1
                < self.forwards {
                SessionStep::RequestForward { index: index + 1 }
            } else {
                SessionStep::Publish
            },
            SessionStep::Publish => SessionStep::Serve,
            SessionStep::Serve => SessionStep::Serve,
        }
    }
}

/// Every session starts over: it dials and logs in to each host of the chain in turn, then asks
/// for each remote forward in turn, and only then lets the local forwards use it. The password
/// goes to the last host alone, and forwarded connections are expected from it alone.
pub proof fn law_session_order(plan: SessionPlan, n: nat)
    ensures
        ({
            let hosts = plan.hops + 1;
            let step = plan.nth_step(n);
            if n < 2 * hosts {
                let host = (n / 2) as usize;
                if n % 2 == 0 {
                    step == (SessionStep::Dial { host, forwards_expected: n / 2 == plan.hops })
                } else {
                    step == (SessionStep::LogIn { host, password_allowed: n / 2 == plan.hops })
                }
            } else if n < 2 * hosts + plan.forwards {
                step == (SessionStep::RequestForward { index: (n - 2 * hosts) as usize })
            } else if n == 2 * hosts + plan.forwards {
                step == SessionStep::Publish
            } else {
                step == SessionStep::Serve
            }
        }),
    decreases n,
{
    if n > 0 {
        law_session_order(plan, (n - 1) as nat);
    }
}

/// What ends a session that was served.
#[derive(Debug, Clone, Copy, PartialEq, Eq, Structural)]
pub enum ServeEvent {
    /// A keepalive could not be sent.
    PingFailed,
    /// The keepalive task is gone.
    PingTaskGone,
    /// The user asked to leave.
    Interrupted,
    /// The user cannot be heard.
    InterruptUnavailable,
}

/// How a session that was served ends.
#[derive(Debug, Clone, Copy, PartialEq, Eq, Structural)]
pub enum ServeEnd {
    /// In order.
    Shutdown,
    /// In order, after a goodbye to the server.
    DisconnectAndShutdown,
    /// With an error: the connection was lost.
    Lost,
    /// With an error: there is no way to hear the user.
    NoInterrupt,
}

/// How a session ends, by what ended it.
pub open spec fn serve_outcome(event: ServeEvent) -> ServeEnd {
    match event {
        ServeEvent::PingFailed => ServeEnd::Lost,
        ServeEvent::PingTaskGone => ServeEnd::Shutdown,
        ServeEvent::Interrupted => ServeEnd::DisconnectAndShutdown,
        ServeEvent::InterruptUnavailable => ServeEnd::NoInterrupt,
    }
}

/// Decides how a session ends.
pub fn serve_end(event: ServeEvent) -> (r: ServeEnd)
    ensures
        r == serve_outcome(event),
{
    match event {
        ServeEvent::PingFailed => ServeEnd::Lost,
        ServeEvent::PingTaskGone => ServeEnd::Shutdown,
        ServeEvent::Interrupted => ServeEnd::DisconnectAndShutdown,
        ServeEvent::InterruptUnavailable => ServeEnd::NoInterrupt,
    }
}

/// The sentence that tells a user that the server did not grant a remote forward.
pub fn refused_forward_message(forward: &SshForward) -> (r: String)
    ensures
        r@ == "Failed to request remote forward "@ + crate::ssh_forward::host_port(
            forward.bind_host@,
            forward.bind_port,
        ) + " (listen on SSH server)"@,
{
    concat3(
        "Failed to request remote forward ",
        &SshForward::socket_addr(&forward.bind_host, forward.bind_port),
        " (listen on SSH server)",
    )
}

/// The forwards of one kind, in the order given.
pub open spec fn of_kind(forwards: Seq<ForwardView>, kind: ForwardKind) -> Seq<ForwardView> {
    forwards.filter(|f: ForwardView| f.kind == kind)
}

/// The forwards of one kind, in the order given.
pub fn forwards_of_kind(forwards: &Vec<SshForward>, kind: ForwardKind) -> (r: Vec<SshForward>)
    ensures
        r.deep_view() == forwards.deep_view().filter(|f: ForwardView| f.kind == kind),
        r.deep_view() == of_kind(forwards.deep_view(), kind),
{
    let ghost all = forwards.deep_view();
    let ghost wanted = |f: ForwardView| f.kind == kind;
    let mut out: Vec<SshForward> = Vec::new();
    let mut i: usize = 0;
    proof {
        reveal(Seq::filter);
        assert(out.deep_view() =~= all.take(0).filter(wanted));
    }
    while i < forwards.len()
        invariant
            all == forwards.deep_view(),
            wanted == (|f: ForwardView| f.kind == kind),
            i <= forwards@.len(),
            out.deep_view() == all.take(i as int).filter(wanted),
        decreases forwards@.len() - i,
    {
        let f = &forwards[i];
        let ghost before = out.deep_view();
        proof {
            reveal(Seq::filter);
            assert(all[i as int] == f@);
            assert(all.take(i as int + 1).drop_last() == all.take(i as int));
            assert(all.take(i as int + 1).last() == f@);
        }
        let keep = match (f.kind, kind) {
            (ForwardKind::Local, ForwardKind::Local) => true,
            (ForwardKind::Remote, ForwardKind::Remote) => true,
            _ => false,
        };
        if keep {
            out.push(f.clone());
            assert(out.deep_view() =~= before.push(f@));
        }
        i += 1;
    }
    assert(all.take(i as int) == all);
    out
}

/// What happened to the listener of a local forward.
#[derive(Debug, Clone, Copy, PartialEq, Eq, Structural)]
pub enum ListenerEvent {
    BindFailed,
    Bound,
    AcceptFailed,
    Accepted,
}

/// What the listener of a local forward does next.
#[derive(Debug, Clone, Copy, PartialEq, Eq, Structural)]
pub enum ListenerAction {
    /// End with an error.
    Fail,
    /// Wait for a client.
    Accept,
    /// Serve the client that came, and wait for another.
    ServeAndAccept,
}

/// What the listener of a local forward does next.
pub open spec fn listener_step(event: ListenerEvent) -> ListenerAction {
    match event {
        ListenerEvent::BindFailed => ListenerAction::Fail,
        ListenerEvent::Bound => ListenerAction::Accept,
        ListenerEvent::AcceptFailed => ListenerAction::Accept,
        ListenerEvent::Accepted => ListenerAction::ServeAndAccept,
    }
}

/// Decides what the listener of a local forward does next.
pub fn listener_action(event: ListenerEvent) -> (r: ListenerAction)
    ensures
        r == listener_step(event),
{
    match event {
        ListenerEvent::BindFailed => ListenerAction::Fail,
        ListenerEvent::Bound => ListenerAction::Accept,
        ListenerEvent::AcceptFailed => ListenerAction::Accept,
        ListenerEvent::Accepted => ListenerAction::ServeAndAccept,
    }
}

/// A listener that could be bound never ends: whatever the tunnel does, and whatever becomes of
/// single clients, it goes on to wait for another one.
pub proof fn law_listener_stays_open(event: ListenerEvent)
    ensures
        listener_step(event) == ListenerAction::Fail <==> event == ListenerEvent::BindFailed,
{
}

/// The sentence that tells a user that a local address cannot be listened on.
pub fn bind_failed_message(forward: &SshForward) -> (r: String)
    ensures
        r@ == "Failed to bind local address "@ + crate::ssh_forward::host_port(
            forward.bind_host@,
            forward.bind_port,
        ),
{
    "Failed to bind local address ".to_owned().concat(
        &SshForward::socket_addr(&forward.bind_host, forward.bind_port),
    )
}

/// What a client of a local forward does next.
#[derive(Debug, Clone, Copy, PartialEq, Eq, Structural)]
pub enum ClientStep {
    /// The tunnel is up: open a channel through it.
    OpenChannel,
    /// Wait for the tunnel, at most this long.
    AwaitTunnel { nanos: u128 },
    /// There will be no tunnel.
    TunnelGone,
    /// The tunnel did not come up in time.
    TimedOut,
}

/// What a client of a local forward does next: it uses a tunnel that is up, and otherwise waits
/// for one, two minutes in all.
pub open spec fn client_outcome(
    tunnel_up: bool,
    tunnel_gone: bool,
    waited_nanos: u128,
) -> ClientStep {
    if tunnel_up {
        ClientStep::OpenChannel
    } else if tunnel_gone {
        ClientStep::TunnelGone
    } else if waited_nanos >= CLIENT_WAIT_NANOS {
        ClientStep::TimedOut
    } else {
        ClientStep::AwaitTunnel { nanos: (CLIENT_WAIT_NANOS - waited_nanos) as u128 }
    }
}

/// Decides what a client of a local forward does next.
pub fn client_step(tunnel_up: bool, tunnel_gone: bool, waited_nanos: u128) -> (r: ClientStep)
    ensures
        r == client_outcome(tunnel_up, tunnel_gone, waited_nanos),
{
    if tunnel_up {
        ClientStep::OpenChannel
    } else if tunnel_gone {
        ClientStep::TunnelGone
    } else if waited_nanos >= CLIENT_WAIT_NANOS {
        ClientStep::TimedOut
    } else {
        ClientStep::AwaitTunnel { nanos: CLIENT_WAIT_NANOS - waited_nanos }
    }
}

impl ClientStep {
    /// The sentence that tells why a client is turned away, where it is.
    pub open spec fn sentence(self) -> Option<Seq<char>> {
        match self {
            ClientStep::OpenChannel => None,
            ClientStep::AwaitTunnel { .. } => None,
            ClientStep::TunnelGone => Some("Handle watcher closed"@),
            ClientStep::TimedOut => Some("Timeout waiting for SSH tunnel to become ready"@),
        }
    }

    /// The sentence that tells why a client is turned away, where it is.
    pub fn message(&self) -> (r: Option<String>)
        ensures
            r.deep_view() == self.sentence(),
    {
        match self {
            ClientStep::OpenChannel => None,
            ClientStep::AwaitTunnel { nanos: _ } => None,
            ClientStep::TunnelGone => Some("Handle watcher closed".to_owned()),
            ClientStep::TimedOut => Some(
                "Timeout waiting for SSH tunnel to become ready".to_owned(),
            ),
        }
    }
}

/// The session that clients of local forwards can use, if there is one.
#[derive(Debug)]
pub struct Published<H> {
    session: Option<H>,
}

impl<H> View for Published<H> {
    type V = Option<H>;

    closed spec fn view(&self) -> Option<H> {
        self.session
    }
}

impl<H> Published<H> {
    /// Before the first session there is none.
    pub fn new() -> (r: Self)
        ensures
            r@ is None,
    {
        Published { session: None }
    }

    /// Lets clients use a session.
    pub fn publish(&mut self, session: H)
        ensures
            final(self)@ == published_after(old(self)@, SessionEvent::Published(session)),
    {
        self.session = Some(session);
    }

    /// Withdraws the session that has ended, and says whether there was one.
    pub fn end(&mut self) -> (was_connected: bool)
        ensures
            was_connected == old(self)@ is Some,
            final(self)@ == published_after(old(self)@, SessionEvent::Ended),
    {
        let was_connected = self.session.is_some();
        self.session = None;
        was_connected
    }

    /// The session that clients can use, if there is one.
    pub fn current(&self) -> (r: &Option<H>)
        ensures
            *r == self@,
    {
        &self.session
    }
}

/// What happens to sessions.
pub enum SessionEvent<H> {
    /// A session was let to clients.
    Published(H),
    /// A session has ended.
    Ended,
}

/// What clients can use once something has happened.
pub open spec fn published_after<H>(before: Option<H>, event: SessionEvent<H>) -> Option<H> {
    match event {
        SessionEvent::Published(session) => Some(session),
        SessionEvent::Ended => None,
    }
}

/// What clients can use after all that has happened.
pub open spec fn published_by<H>(events: Seq<SessionEvent<H>>) -> Option<H>
    decreases events.len(),
{
    if events.len() == 0 {
        None
    } else {
        published_after(published_by(events.drop_last()), events.last())
    }
}

/// A client is never handed a session that has ended: it opens a channel only through the session
/// that was published last, and only if none has ended since. After an end, no client opens a
/// channel until the next session is published.
pub proof fn law_ended_sessions_are_withdrawn<H>(
    events: Seq<SessionEvent<H>>,
    tunnel_gone: bool,
    waited_nanos: u128,
)
    ensures
        client_outcome(published_by(events) is Some, tunnel_gone, waited_nanos)
            == ClientStep::OpenChannel <==> events.len() > 0 && events.last() is Published,
        events.len() > 0 && events.last() is Published ==> events.last()
            == SessionEvent::Published(published_by(events)->Some_0),
        forall|end: int|
            0 <= end < events.len() && (#[trigger] events[end]) is Ended && (forall|j: int|
                end < j < events.len() ==> !((#[trigger] events[j]) is Published)) ==> client_outcome(
                published_by(events) is Some,
                tunnel_gone,
                waited_nanos,
            ) != ClientStep::OpenChannel,
{
    assert forall|end: int|
        0 <= end < events.len() && (#[trigger] events[end]) is Ended && (forall|j: int|
            end < j < events.len() ==> !((#[trigger] events[j]) is Published)) implies client_outcome(
        published_by(events) is Some,
        tunnel_gone,
        waited_nanos,
    ) != ClientStep::OpenChannel by {
        assert(events.last() == events[events.len() - 1]);
    }
}

/// A client is turned away for want of time only after 120 seconds, never waits beyond them, and
/// is served whenever the tunnel is up.
pub proof fn law_clients_wait_two_minutes(
    tunnel_up: bool,
    tunnel_gone: bool,
    waited_nanos: u128,
)
    ensures
        client_outcome(tunnel_up, tunnel_gone, waited_nanos) == ClientStep::TimedOut
            ==> waited_nanos >= 120_000_000_000,
        client_outcome(tunnel_up, tunnel_gone, waited_nanos) matches ClientStep::AwaitTunnel { nanos }
            ==> waited_nanos + nanos == 120_000_000_000,
        client_outcome(tunnel_up, tunnel_gone, waited_nanos) == ClientStep::OpenChannel
            <==> tunnel_up,
{
}

/// The hosts in a comma-separated list; empty places are left out.
pub open spec fn hops_in(list: Seq<char>) -> Seq<Seq<char>>
    decreases list.len(),
{
    let end = crate::text::index_from(list, ',', 0);
    let first = if end == 0 {
        Seq::<Seq<char>>::empty()
    } else {
        seq![list.take(end)]
    };
    if 0 <= end < list.len() {
        first + hops_in(list.skip(end + 1))
    } else {
        first
    }
}

/// The hosts in several comma-separated lists.
pub open spec fn all_hops(lists: Seq<Seq<char>>) -> Seq<Seq<char>>
    decreases lists.len(),
{
    if lists.len() == 0 {
        Seq::<Seq<char>>::empty()
    } else {
        all_hops(lists.drop_last()) + hops_in(lists.last())
    }
}

/// The jump hosts to go through: those of the command line, or else those of the configuration.
pub open spec fn jump_chain(cli: Seq<Seq<char>>, config: Seq<Seq<char>>) -> Seq<Seq<char>> {
    if all_hops(cli).len() > 0 {
        all_hops(cli)
    } else {
        all_hops(config)
    }
}

/// Splits a comma-separated list of hosts.
fn split_hops(list: &str) -> (r: Vec<String>)
    ensures
        r.deep_view() == hops_in(list@),
{
    let mut out: Vec<String> = Vec::new();
    let mut rest: &str = list;
    assert(out.deep_view() + hops_in(rest@) == hops_in(list@));
    loop
        invariant
            out.deep_view() + hops_in(rest@) == hops_in(list@),
        decreases rest@.len(),
    {
        let chars = chars_of(rest);
        let end = find_char(&chars, ',', 0);
        let ghost before = out.deep_view();
        if end > 0 {
            let hop = rest.substring_char(0, end);
            out.push(hop.to_owned());
            assert(hop@ == rest@.take(end as int));
            assert(out.deep_view() =~= before + seq![hop@]);
        } else {
            assert(out.deep_view() =~= before + Seq::<Seq<char>>::empty());
        }
        if end >= chars.len() {
            return out;
        }
        let next = rest.substring_char(end + 1, chars.len());
        proof {
            assert(next@ == rest@.skip(end as int + 1));
            let first = if end == 0 {
                Seq::<Seq<char>>::empty()
            } else {
                seq![rest@.take(end as int)]
            };
            assert(before + (first + hops_in(next@)) == before + first + hops_in(next@));
        }
        rest = next;
    }
}

/// Splits several comma-separated lists of hosts.
fn split_all_hops(lists: &Vec<String>) -> (r: Vec<String>)
    ensures
        r.deep_view() == all_hops(lists.deep_view()),
{
    let ghost texts = lists.deep_view();
    let mut out: Vec<String> = Vec::new();
    let mut i: usize = 0;
    assert(out.deep_view() =~= all_hops(texts.take(0)));
    while i < lists.len()
        invariant
            texts == lists.deep_view(),
            i <= lists@.len(),
            out.deep_view() == all_hops(texts.take(i as int)),
        decreases lists@.len() - i,
    {
        let mut hops = split_hops(&lists[i]);
        let ghost before = out.deep_view();
        let ghost more = hops.deep_view();
        out.append(&mut hops);
        proof {
            assert(out.deep_view() =~= before + more);
            assert(texts.take(i as int + 1).drop_last() == texts.take(i as int));
            assert(texts.take(i as int + 1).last() == lists@[i as int]@);
        }
        i += 1;
    }
    assert(texts.take(i as int) == texts);
    out
}

/// The jump hosts to go through, in order: those of `-J`, or else those of the configuration.
pub fn jump_hosts(cli: &Vec<String>, config: &Vec<String>) -> (r: Vec<String>)
    ensures
        r.deep_view() == jump_chain(cli.deep_view(), config.deep_view()),
{
    let named = split_all_hops(cli);
    assert(named.deep_view().len() == named@.len());
    if named.len() > 0 {
        named
    } else {
        split_all_hops(config)
    }
}

/// What the command line says of the last host of a chain.
pub open spec fn target_overrides(args: SshArgsView) -> Overrides {
    Overrides { port: args.port, user: args.user, identity: args.identity }
}

/// What the command line says of a jump host: nothing.
pub open spec fn no_overrides() -> Overrides {
    Overrides { port: None, user: None, identity: None }
}

/// Whether a session goes along these hosts: to the jump hosts in order, each as the
/// configuration and the machine have it, and last to the host that was asked for, as the command
/// line has it.
pub open spec fn is_host_chain(
    args: SshArgsView,
    local: LocalSetup,
    hosts: Seq<HostConfigView>,
) -> bool {
    let hops = jump_chain(args.proxy_jump, hosts.last().proxy_jump);
    &&& hosts.len() == hops.len() + 1
    &&& crate::ssh_config::is_resolution(
        args.ssh_host,
        target_overrides(args),
        local,
        hosts.last(),
    )
    &&& forall|i: int|
        0 <= i < hops.len() ==> crate::ssh_config::is_resolution(
            hops[i],
            no_overrides(),
            local,
            #[trigger] hosts[i],
        )
}

/// The hosts that a session goes along, the one that was asked for last.
pub fn session_hosts(args: &SshArgs, local: &LocalSetup) -> (r: Vec<HostConfig>)
    ensures
        is_host_chain(args@, *local, r@.map_values(|c: HostConfig| c@)),
{
    let user = match &args.user {
        Some(user) => Some(user.as_str()),
        None => None,
    };
    let identity = match &args.identity {
        Some(identity) => Some(identity.as_str()),
        None => None,
    };
    let target = resolve(&args.ssh_host, args.port, user, identity, local);
    let hops = jump_hosts(&args.proxy_jump, &target.proxy_jump);
    let ghost names = hops.deep_view();
    let mut hosts: Vec<HostConfig> = Vec::new();
    let mut i: usize = 0;
    while i < hops.len()
        invariant
            names == hops.deep_view(),
            i <= hops@.len(),
            hosts@.len() == i,
            forall|j: int|
                0 <= j < i ==> crate::ssh_config::is_resolution(
                    names[j],
                    no_overrides(),
                    *local,
                    (#[trigger] hosts@[j])@,
                ),
        decreases hops@.len() - i,
    {
        assert(names[i as int] == hops@[i as int]@);
        hosts.push(resolve(&hops[i], None, None, None, local));
        i += 1;
    }
    let ghost last = target@;
    hosts.push(target);
    proof {
        let chain = hosts@.map_values(|c: HostConfig| c@);
        assert(names.len() == hops@.len());
        assert(chain.last() == last);
        assert forall|j: int| 0 <= j < names.len() implies crate::ssh_config::is_resolution(
            names[j],
            no_overrides(),
            *local,
            #[trigger] chain[j],
        ) by {
            assert(chain[j] == hosts@[j]@);
        }
    }
    hosts
}

/// Jump hosts of the command line override those of the configuration.
pub proof fn law_cli_jump_overrides(
    cli: Seq<Seq<char>>,
    config: Seq<Seq<char>>,
    other: Seq<Seq<char>>,
)
    ensures
        all_hops(cli).len() > 0 ==> jump_chain(cli, config) == jump_chain(cli, other),
        cli.len() == 0 ==> jump_chain(cli, config) == all_hops(config),
{
}

/// A list followed by a comma and another list holds the hosts of the first and then those of
/// the second.
proof fn lemma_hops_in_joined(a: Seq<char>, b: Seq<char>)
    ensures
        hops_in(a + ","@ + b) == hops_in(a) + hops_in(b),
    decreases a.len(),
{
    reveal_strlit(",");
    let s = a + ","@ + b;
    let end = crate::text::index_from(a, ',', 0);
    crate::text::lemma_index_from(a, ',', 0);
    assert(forall|i: int| 0 <= i < a.len() ==> s[i] == a[i]);
    assert(s[a.len() as int] == ',');
    crate::text::lemma_index_from_is(s, ',', 0, end);
    assert(s.take(end) == a.take(end));
    if end < a.len() {
        lemma_hops_in_joined(a.skip(end + 1), b);
        assert(s.skip(end + 1) == a.skip(end + 1) + ","@ + b);
    } else {
        assert(s.skip(end + 1) == b);
    }
    let first = if end == 0 {
        Seq::<Seq<char>>::empty()
    } else {
        seq![a.take(end)]
    };
    if end < a.len() {
        assert(first + (hops_in(a.skip(end + 1)) + hops_in(b)) == (first + hops_in(
            a.skip(end + 1),
        )) + hops_in(b));
    }
}

/// Jump hosts in one comma-separated list are the same as jump hosts given one by one.
pub proof fn law_jump_lists_concatenate(a: Seq<char>, b: Seq<char>, config: Seq<Seq<char>>)
    ensures
        jump_chain(seq![a + ","@ + b], config) == jump_chain(seq![a, b], config),
{
    reveal_with_fuel(all_hops, 3);
    lemma_hops_in_joined(a, b);
    assert(seq![a, b].drop_last() == seq![a]);
    assert(seq![a].drop_last() == Seq::<Seq<char>>::empty());
    assert(seq![a + ","@ + b].drop_last() == Seq::<Seq<char>>::empty());
    assert(all_hops(seq![a + ","@ + b]) == hops_in(a + ","@ + b));
    assert(all_hops(seq![a, b]) == hops_in(a) + hops_in(b));
}

/// A session that ended in order ends the program, and nothing else does; one that failed is
/// given up if and only if neither it nor any before it was connected; every other one is waited
/// for, one second where it lasted more than ten, and else as long as the state says.
pub proof fn law_what_follows_a_session(
    state: ReconnectView,
    failed: bool,
    was_connected: bool,
    lasted_nanos: u128,
)
    ensures
        ({
            let verdict = state.verdict(failed, was_connected, lasted_nanos);
            let after = state.ended(failed, was_connected, lasted_nanos);
            &&& verdict == AfterSession::Exit <==> !failed
            &&& verdict == AfterSession::GiveUp <==> failed && !was_connected
                && !state.ever_connected
            &&& failed && (was_connected || state.ever_connected) ==> {
                &&& after.ever_connected
                &&& lasted_nanos > 10_000_000_000 ==> after.delay_secs == 1
                &&& lasted_nanos <= 10_000_000_000 ==> after.delay_secs == state.delay_secs
                &&& verdict == (AfterSession::Wait { secs: after.delay_secs })
            }
        }),
{
}

/// A tunnel starts with a wait of one second and no connection. After a wait the next one is twice
/// as long, but never over a minute, and what was connected stays so.
pub proof fn law_what_follows_a_wait(state: ReconnectView)
    ensures
        ReconnectView::fresh().delay_secs == 1,
        !ReconnectView::fresh().ever_connected,
        state.waited().ever_connected == state.ever_connected,
        state.delay_secs <= 30 ==> state.waited().delay_secs == 2 * state.delay_secs,
        state.delay_secs >= 30 ==> state.waited().delay_secs == 60,
{
}

/// A session is lost if and only if a keepalive failed, and says goodbye if and only if the user
/// asked to leave; it ends in order without one if and only if the keepalive task is gone.
pub proof fn law_how_sessions_end(event: ServeEvent)
    ensures
        serve_outcome(event) == ServeEnd::Lost <==> event == ServeEvent::PingFailed,
        serve_outcome(event) == ServeEnd::DisconnectAndShutdown <==> event
            == ServeEvent::Interrupted,
        serve_outcome(event) == ServeEnd::Shutdown <==> event == ServeEvent::PingTaskGone,
        serve_outcome(event) == ServeEnd::NoInterrupt <==> event
            == ServeEvent::InterruptUnavailable,
{
}

/// A listener serves a client if and only if one was accepted, and waits for another after
/// everything but an address that cannot be listened on.
pub proof fn law_listeners_serve_whom_they_accept(event: ListenerEvent)
    ensures
        listener_step(event) == ListenerAction::ServeAndAccept <==> event
            == ListenerEvent::Accepted,
        listener_step(event) == ListenerAction::Accept <==> event == ListenerEvent::Bound || event
            == ListenerEvent::AcceptFailed,
        listener_step(event) == ListenerAction::Fail <==> event == ListenerEvent::BindFailed,
{
}

/// A client uses the tunnel if and only if it is up. It is told that there will be none if and
/// only if the tunnel is down and gone for good. While the tunnel is down but not gone, a client
/// that has waited less than 120 seconds waits for the rest of them, and only one that has waited
/// for all of them is out of time.
pub proof fn law_clients_wait_while_a_tunnel_reconnects(
    tunnel_up: bool,
    tunnel_gone: bool,
    waited_nanos: u128,
)
    ensures
        ({
            let step = client_outcome(tunnel_up, tunnel_gone, waited_nanos);
            &&& step == ClientStep::OpenChannel <==> tunnel_up
            &&& step == ClientStep::TunnelGone <==> !tunnel_up && tunnel_gone
            &&& step == ClientStep::TimedOut <==> !tunnel_up && !tunnel_gone && waited_nanos
                >= 120_000_000_000
            &&& !tunnel_up && !tunnel_gone && waited_nanos < 120_000_000_000 ==> step
                is AwaitTunnel && step->nanos + waited_nanos == 120_000_000_000
        }),
{
}

/// A client is given a reason if and only if it is turned away, and the two reasons differ.
pub proof fn law_clients_are_told_why(step: ClientStep)
    ensures
        step.sentence() is Some <==> step is TunnelGone || step is TimedOut,
        ClientStep::TunnelGone.sentence() == Some("Handle watcher closed"@),
        ClientStep::TimedOut.sentence() == Some(
            "Timeout waiting for SSH tunnel to become ready"@,
        ),
{
}

/// Forwards of one kind are told apart one by one: of two lists put together they are those of
/// the one and then those of the other, and a forward alone is kept if and only if it is of the
/// kind. So nothing is lost, made up or moved.
pub proof fn law_kinds_are_told_apart(
    a: Seq<ForwardView>,
    b: Seq<ForwardView>,
    f: ForwardView,
    kind: ForwardKind,
)
    ensures
        of_kind(a + b, kind) == of_kind(a, kind) + of_kind(b, kind),
        f.kind == kind ==> of_kind(seq![f], kind) == seq![f],
        f.kind != kind ==> of_kind(seq![f], kind) == Seq::<ForwardView>::empty(),
        of_kind(Seq::empty(), kind) == Seq::<ForwardView>::empty(),
{
    reveal(Seq::filter);
    let wanted = |g: ForwardView| g.kind == kind;
    lemma_filter_joined(a, b, wanted);
    assert(seq![f].drop_last() == Seq::<ForwardView>::empty());
    assert(Seq::<ForwardView>::empty().filter(wanted) == Seq::<ForwardView>::empty());
    assert(Seq::<ForwardView>::empty().push(f) == seq![f]);
}

/// What is kept of two lists put together.
proof fn lemma_filter_joined(
    a: Seq<ForwardView>,
    b: Seq<ForwardView>,
    wanted: spec_fn(ForwardView) -> bool,
)
    ensures
        (a + b).filter(wanted) == a.filter(wanted) + b.filter(wanted),
    decreases b.len(),
{
    reveal(Seq::filter);
    if b.len() == 0 {
        assert(a + b == a);
        assert(b.filter(wanted) == Seq::<ForwardView>::empty());
    } else {
        lemma_filter_joined(a, b.drop_last(), wanted);
        assert((a + b).drop_last() == a + b.drop_last());
        assert((a + b).last() == b.last());
        let kept = a.filter(wanted) + b.drop_last().filter(wanted);
        if wanted(b.last()) {
            assert(kept.push(b.last()) == a.filter(wanted) + b.drop_last().filter(wanted).push(
                b.last(),
            ));
        }
    }
}

/// Whether a text names one host in a list: it is not empty and holds no comma.
pub open spec fn is_list_entry(h: Seq<char>) -> bool {
    h.len() > 0 && forall|i: int| 0 <= i < h.len() ==> #[trigger] h[i] != ','
}

/// A text without a comma is its own only host, or none where it is empty.
proof fn lemma_single_hop(h: Seq<char>)
    requires
        forall|i: int| 0 <= i < h.len() ==> #[trigger] h[i] != ',',
    ensures
        hops_in(h) == (if h.len() == 0 {
            Seq::<Seq<char>>::empty()
        } else {
            seq![h]
        }),
{
    crate::text::lemma_index_from_is(h, ',', 0, h.len() as int);
    assert(h.take(h.len() as int) == h);
}

/// Hosts given one by one are themselves.
proof fn lemma_entries_are_hops(hosts: Seq<Seq<char>>)
    requires
        forall|i: int| 0 <= i < hosts.len() ==> is_list_entry(#[trigger] hosts[i]),
    ensures
        all_hops(hosts) == hosts,
    decreases hosts.len(),
{
    if hosts.len() > 0 {
        let front = hosts.drop_last();
        assert forall|i: int| 0 <= i < front.len() implies is_list_entry(#[trigger] front[i]) by {
            assert(front[i] == hosts[i]);
        }
        lemma_entries_are_hops(front);
        assert(is_list_entry(hosts[hosts.len() - 1]));
        lemma_single_hop(hosts.last());
        assert(front + seq![hosts.last()] == hosts);
    } else {
        assert(all_hops(hosts) == hosts);
    }
}

/// The hosts in lists that follow others follow theirs.
proof fn lemma_all_hops_joined(a: Seq<Seq<char>>, b: Seq<Seq<char>>)
    ensures
        all_hops(a + b) == all_hops(a) + all_hops(b),
    decreases b.len(),
{
    if b.len() == 0 {
        assert(a + b == a);
        assert(all_hops(a) + all_hops(b) == all_hops(a));
    } else {
        lemma_all_hops_joined(a, b.drop_last());
        assert((a + b).drop_last() == a + b.drop_last());
        assert((a + b).last() == b.last());
        assert(all_hops(a) + (all_hops(b.drop_last()) + hops_in(b.last())) == all_hops(a)
            + all_hops(b.drop_last()) + hops_in(b.last()));
    }
}

/// An entry without a comma, given alone, is the one jump host of the chain, character for
/// character; and an entry of the configuration is where the command line names none.
pub proof fn law_a_single_entry_is_the_jump_host(h: Seq<char>, config: Seq<Seq<char>>)
    requires
        h.len() > 0,
        !h.contains(','),
    ensures
        jump_chain(seq![h], config) == seq![h],
        jump_chain(Seq::empty(), seq![h]) == seq![h],
{
    assert forall|i: int| 0 <= i < h.len() implies #[trigger] h[i] != ',' by {
        assert(h.contains(h[i]));
    }
    lemma_entries_are_hops(seq![h]);
    assert(all_hops(Seq::empty()) == Seq::<Seq<char>>::empty());
}

/// Entries without commas are the jump hosts, all of them, as they were typed and in the order in
/// which they were given; those of the configuration are, where the command line names none.
pub proof fn law_entries_are_the_jump_hosts(hosts: Seq<Seq<char>>, config: Seq<Seq<char>>)
    requires
        forall|i: int| 0 <= i < hosts.len() ==> is_list_entry(#[trigger] hosts[i]),
    ensures
        hosts.len() > 0 ==> jump_chain(hosts, config) == hosts,
        jump_chain(Seq::empty(), hosts) == hosts,
{
    lemma_entries_are_hops(hosts);
    assert(all_hops(Seq::empty()) == Seq::<Seq<char>>::empty());
}

/// A comma anywhere is as good as giving what is on its two sides one after the other, on the
/// command line as in the configuration; and an empty entry anywhere is as good as none.
pub proof fn law_commas_separate_jump_hosts(
    before: Seq<Seq<char>>,
    a: Seq<char>,
    b: Seq<char>,
    after: Seq<Seq<char>>,
    config: Seq<Seq<char>>,
)
    ensures
        jump_chain(before + seq![a + ","@ + b] + after, config) == jump_chain(
            before + seq![a, b] + after,
            config,
        ),
        jump_chain(Seq::empty(), before + seq![a + ","@ + b] + after) == jump_chain(
            Seq::empty(),
            before + seq![a, b] + after,
        ),
        jump_chain(before + seq![Seq::empty()] + after, config) == jump_chain(
            before + after,
            config,
        ),
{
    reveal_with_fuel(all_hops, 3);
    lemma_hops_in_joined(a, b);
    lemma_single_hop(Seq::empty());
    let one = seq![a + ","@ + b];
    let two = seq![a, b];
    let none = seq![Seq::<char>::empty()];
    assert(two.drop_last() == seq![a]);
    assert(seq![a].drop_last() == Seq::<Seq<char>>::empty());
    assert(one.drop_last() == Seq::<Seq<char>>::empty());
    assert(none.drop_last() == Seq::<Seq<char>>::empty());
    assert(all_hops(one) == hops_in(a + ","@ + b));
    assert(all_hops(two) == hops_in(a) + hops_in(b));
    assert(all_hops(none) == Seq::<Seq<char>>::empty());
    lemma_all_hops_joined(before, one);
    lemma_all_hops_joined(before + one, after);
    lemma_all_hops_joined(before, two);
    lemma_all_hops_joined(before + two, after);
    lemma_all_hops_joined(before, none);
    lemma_all_hops_joined(before + none, after);
    lemma_all_hops_joined(before, after);
    assert(all_hops(before) + Seq::<Seq<char>>::empty() == all_hops(before));
    assert(all_hops(Seq::empty()) == Seq::<Seq<char>>::empty());
}

/// Every host of a list is an entry: none is empty and none holds a comma.
proof fn lemma_hops_are_entries(list: Seq<char>)
    ensures
        forall|i: int| 0 <= i < hops_in(list).len() ==> is_list_entry(#[trigger] hops_in(list)[i]),
    decreases list.len(),
{
    let end = crate::text::index_from(list, ',', 0);
    crate::text::lemma_index_from(list, ',', 0);
    if end < list.len() {
        lemma_hops_are_entries(list.skip(end + 1));
    }
    let n: int = if end == 0 {
        0
    } else {
        1
    };
    assert forall|i: int| 0 <= i < hops_in(list).len() implies is_list_entry(
        #[trigger] hops_in(list)[i],
    ) by {
        if i < n {
            assert(hops_in(list)[i] == list.take(end));
        } else {
            assert(hops_in(list)[i] == hops_in(list.skip(end + 1))[i - n]);
        }
    }
}

/// Every host of several lists is an entry.
proof fn lemma_all_hops_are_entries(lists: Seq<Seq<char>>)
    ensures
        forall|i: int|
            0 <= i < all_hops(lists).len() ==> is_list_entry(#[trigger] all_hops(lists)[i]),
    decreases lists.len(),
{
    if lists.len() > 0 {
        let front = all_hops(lists.drop_last());
        lemma_all_hops_are_entries(lists.drop_last());
        lemma_hops_are_entries(lists.last());
        assert forall|i: int| 0 <= i < all_hops(lists).len() implies is_list_entry(
            #[trigger] all_hops(lists)[i],
        ) by {
            if i < front.len() {
                assert(all_hops(lists)[i] == front[i]);
            } else {
                assert(all_hops(lists)[i] == hops_in(lists.last())[i - front.len()]);
            }
        }
    }
}

/// No jump host is empty and none holds a comma; and a command line decides over a configuration
/// if and only if it names a jump host.
pub proof fn law_jump_hosts_are_entries(cli: Seq<Seq<char>>, config: Seq<Seq<char>>)
    ensures
        forall|i: int|
            0 <= i < jump_chain(cli, config).len() ==> is_list_entry(
                #[trigger] jump_chain(cli, config)[i],
            ),
        jump_chain(cli, Seq::empty()).len() > 0 ==> jump_chain(cli, config) == jump_chain(
            cli,
            Seq::empty(),
        ),
        jump_chain(cli, Seq::empty()).len() == 0 ==> jump_chain(cli, config) == jump_chain(
            Seq::empty(),
            config,
        ),
{
    lemma_all_hops_are_entries(cli);
    lemma_all_hops_are_entries(config);
    assert(all_hops(Seq::empty()) == Seq::<Seq<char>>::empty());
}

/// The last host of a chain is the one that was asked for, and what the command line says of a
/// port, a user and a key goes to it alone. The others are the jump hosts in order: where the
/// machine has no configuration, each is reached under the name that was typed, on port 22 and by
/// the same user as all others.
pub proof fn law_chains_end_at_the_target(
    args: SshArgsView,
    local: LocalSetup,
    hosts: Seq<HostConfigView>,
)
    requires
        is_host_chain(args, local, hosts),
    ensures
        hosts.len() == jump_chain(args.proxy_jump, hosts.last().proxy_jump).len() + 1,
        args.port is Some ==> hosts.last().port == args.port->Some_0,
        args.user is Some ==> hosts.last().user == args.user->Some_0,
        args.identity is Some ==> hosts.last().identity_files == seq![args.identity->Some_0],
        local.home is None || local.ssh_config is None ==> {
            let hops = jump_chain(args.proxy_jump, Seq::empty());
            &&& hosts.len() == hops.len() + 1
            &&& hosts.last().hostname == args.ssh_host
            &&& args.port is None ==> hosts.last().port == 22
            &&& forall|i: int|
                0 <= i < hops.len() ==> (#[trigger] hosts[i]).hostname == hops[i] && hosts[i].port
                    == 22
            &&& forall|i: int, j: int|
                0 <= i < hops.len() && 0 <= j < hops.len() ==> (#[trigger] hosts[i]).user == (
                #[trigger] hosts[j]).user && hosts[i].identity_files == hosts[j].identity_files
            &&& args.user is None && hops.len() > 0 ==> hosts[0].user == hosts.last().user
        },
        forall|i: int|
            0 <= i < hosts.len() - 1 ==> crate::ssh_config::is_resolution(
                jump_chain(args.proxy_jump, hosts.last().proxy_jump)[i],
                (Overrides { port: None, user: None, identity: None }),
                local,
                #[trigger] hosts[i],
            ),
        crate::ssh_config::is_resolution(
            args.ssh_host,
            (Overrides { port: args.port, user: args.user, identity: args.identity }),
            local,
            hosts.last(),
        ),
{
    if local.home is None || local.ssh_config is None {
        assert(hosts.last().proxy_jump == Seq::<Seq<char>>::empty());
        let hops = jump_chain(args.proxy_jump, Seq::empty());
        assert forall|i: int| 0 <= i < hops.len() implies crate::ssh_config::is_resolution(
            hops[i],
            no_overrides(),
            local,
            #[trigger] hosts[i],
        ) by {}
    }
}

} // verus!
