//! What a command line asks for.

use crate::endpoint::{parse_upgraded_url, EndpointUrl, UrlView};
use crate::error::CliError;
use crate::ssh_forward::{ForwardKind, ForwardView, SshForward};
use crate::text::same_text;
use vstd::prelude::*;

verus! {

/// The arguments of `bridge`, as they were typed.
#[derive(Debug)]
pub struct BridgeCli {
    /// Where clients connect (local listener).
    pub to: String,
    /// Upstream endpoint dialed for each accepted connection.
    pub from: String,
    /// Bearer token for WebSocket authorization.
    pub token: Option<String>,
}

/// The arguments of `ssh`, as they were typed.
#[derive(Debug)]
pub struct SshCli {
    /// Local forwards.
    pub local_forwards: Vec<String>,
    /// Remote forwards.
    pub remote_forwards: Vec<String>,
    /// SSH host or `~/.ssh/config` host alias.
    pub ssh_host: String,
    /// Jump hosts.
    pub proxy_jump: Vec<String>,
    /// SSH username.
    pub user: Option<String>,
    /// SSH password for the final host.
    pub password: Option<String>,
    /// SSH private key file.
    pub identity: Option<String>,
    /// SSH port.
    pub port: Option<u16>,
    /// Whether unknown host keys are rejected.
    pub strict_host_keys: bool,
}

/// A command line, as it was typed.
#[derive(Debug)]
pub enum CliCommand {
    Bridge(BridgeCli),
    Ssh(SshCli),
}

/// What the program is asked to do.
#[derive(Debug)]
pub enum Command {
    Bridge(BridgeArgs),
    Ssh(SshArgs),
}

/// A bridge between two endpoints.
#[derive(Debug)]
pub struct BridgeArgs {
    pub to: BridgeEndpoint,
    pub from: BridgeEndpoint,
    pub token: Option<String>,
}

/// One side of a bridge.
#[derive(Debug)]
pub enum BridgeEndpoint {
    Tcp(TcpEndpoint),
    Ws(WebSocketEndpoint),
    Wss(WebSocketEndpoint),
}

/// A TCP address.
#[derive(Debug)]
pub struct TcpEndpoint {
    pub addr: String,
    pub host: String,
    pub port: u16,
}

/// A WebSocket address.
#[derive(Debug)]
pub struct WebSocketEndpoint {
    pub url: String,
    pub bind_addr: String,
    pub path: String,
}

/// An SSH session with its forwards.
#[derive(Debug)]
pub struct SshArgs {
    pub forwards: Vec<SshForward>,
    pub ssh_host: String,
    pub proxy_jump: Vec<String>,
    pub user: Option<String>,
    pub password: Option<String>,
    pub identity: Option<String>,
    pub port: Option<u16>,
    pub strict_host_keys: bool,
}

/// [`TcpEndpoint`] as a value.
#[verifier::ext_equal]
pub struct TcpView {
    pub addr: Seq<char>,
    pub host: Seq<char>,
    pub port: u16,
}

/// [`WebSocketEndpoint`] as a value.
#[verifier::ext_equal]
pub struct WebSocketView {
    pub url: Seq<char>,
    pub bind_addr: Seq<char>,
    pub path: Seq<char>,
}

/// [`BridgeEndpoint`] as a value.
#[verifier::ext_equal]
pub enum EndpointView {
    Tcp(TcpView),
    Ws(WebSocketView),
    Wss(WebSocketView),
}

/// [`BridgeCli`] as a value.
#[verifier::ext_equal]
pub struct BridgeCliView {
    pub to: Seq<char>,
    pub from: Seq<char>,
    pub token: Option<Seq<char>>,
}

/// [`BridgeArgs`] as a value.
#[verifier::ext_equal]
pub struct BridgeArgsView {
    pub to: EndpointView,
    pub from: EndpointView,
    pub token: Option<Seq<char>>,
}

/// [`SshCli`] as a value.
#[verifier::ext_equal]
pub struct SshCliView {
    pub local_forwards: Seq<Seq<char>>,
    pub remote_forwards: Seq<Seq<char>>,
    pub ssh_host: Seq<char>,
    pub proxy_jump: Seq<Seq<char>>,
    pub user: Option<Seq<char>>,
    pub password: Option<Seq<char>>,
    pub identity: Option<Seq<char>>,
    pub port: Option<u16>,
    pub strict_host_keys: bool,
}

/// [`SshArgs`] as a value.
#[verifier::ext_equal]
pub struct SshArgsView {
    pub forwards: Seq<ForwardView>,
    pub ssh_host: Seq<char>,
    pub proxy_jump: Seq<Seq<char>>,
    pub user: Option<Seq<char>>,
    pub password: Option<Seq<char>>,
    pub identity: Option<Seq<char>>,
    pub port: Option<u16>,
    pub strict_host_keys: bool,
}

/// [`CliCommand`] as a value.
#[verifier::ext_equal]
pub enum CliCommandView {
    Bridge(BridgeCliView),
    Ssh(SshCliView),
}

/// [`Command`] as a value.
#[verifier::ext_equal]
pub enum CommandView {
    Bridge(BridgeArgsView),
    Ssh(SshArgsView),
}

impl View for TcpEndpoint {
    type V = TcpView;

    open spec fn view(&self) -> TcpView {
        TcpView { addr: self.addr@, host: self.host@, port: self.port }
    }
}

impl View for WebSocketEndpoint {
    type V = WebSocketView;

    open spec fn view(&self) -> WebSocketView {
        WebSocketView { url: self.url@, bind_addr: self.bind_addr@, path: self.path@ }
    }
}

impl View for BridgeEndpoint {
    type V = EndpointView;

    open spec fn view(&self) -> EndpointView {
        match *self {
            BridgeEndpoint::Tcp(e) => EndpointView::Tcp(e@),
            BridgeEndpoint::Ws(e) => EndpointView::Ws(e@),
            BridgeEndpoint::Wss(e) => EndpointView::Wss(e@),
        }
    }
}

impl View for BridgeCli {
    type V = BridgeCliView;

    open spec fn view(&self) -> BridgeCliView {
        BridgeCliView { to: self.to@, from: self.from@, token: self.token.deep_view() }
    }
}

impl View for BridgeArgs {
    type V = BridgeArgsView;

    open spec fn view(&self) -> BridgeArgsView {
        BridgeArgsView { to: self.to@, from: self.from@, token: self.token.deep_view() }
    }
}

impl View for SshCli {
    type V = SshCliView;

    open spec fn view(&self) -> SshCliView {
        SshCliView {
            local_forwards: self.local_forwards.deep_view(),
            remote_forwards: self.remote_forwards.deep_view(),
            ssh_host: self.ssh_host@,
            proxy_jump: self.proxy_jump.deep_view(),
            user: self.user.deep_view(),
            password: self.password.deep_view(),
            identity: self.identity.deep_view(),
            port: self.port,
            strict_host_keys: self.strict_host_keys,
        }
    }
}

impl View for SshArgs {
    type V = SshArgsView;

    open spec fn view(&self) -> SshArgsView {
        SshArgsView {
            forwards: self.forwards.deep_view(),
            ssh_host: self.ssh_host@,
            proxy_jump: self.proxy_jump.deep_view(),
            user: self.user.deep_view(),
            password: self.password.deep_view(),
            identity: self.identity.deep_view(),
            port: self.port,
            strict_host_keys: self.strict_host_keys,
        }
    }
}

impl View for CliCommand {
    type V = CliCommandView;

    open spec fn view(&self) -> CliCommandView {
        match *self {
            CliCommand::Bridge(c) => CliCommandView::Bridge(c@),
            CliCommand::Ssh(c) => CliCommandView::Ssh(c@),
        }
    }
}

impl View for Command {
    type V = CommandView;

    open spec fn view(&self) -> CommandView {
        match *self {
            Command::Bridge(c) => CommandView::Bridge(c@),
            Command::Ssh(c) => CommandView::Ssh(c@),
        }
    }
}

impl Clone for TcpEndpoint {
    fn clone(&self) -> (r: Self)
        ensures
            r@ == self@,
    {
        TcpEndpoint { addr: self.addr.clone(), host: self.host.clone(), port: self.port }
    }
}

impl Clone for WebSocketEndpoint {
    fn clone(&self) -> (r: Self)
        ensures
            r@ == self@,
    {
        WebSocketEndpoint {
            url: self.url.clone(),
            bind_addr: self.bind_addr.clone(),
            path: self.path.clone(),
        }
    }
}

/// Whether a result is the one that a contract names.
pub open spec fn answers<T: View>(
    r: Result<T, CliError<String>>,
    expected: Result<T::V, CliError<Seq<char>>>,
) -> bool {
    match expected {
        Ok(v) => r is Ok && r->Ok_0@ == v,
        Err(e) => r is Err && r->Err_0@ == e,
    }
}

/// What no endpoint may have or lack, whatever its kind.
pub open spec fn common_fault(raw: Seq<char>, u: UrlView) -> Option<CliError<Seq<char>>> {
    if u.username.len() > 0 || u.password is Some {
        Some(CliError::UserInfo { raw })
    } else if u.fragment is Some {
        Some(CliError::Fragment { raw })
    } else if u.host is None {
        Some(CliError::HostRequired { raw })
    } else {
        None
    }
}

/// The host of a URL with a port, as sockets are named.
pub open spec fn socket_of(raw: Seq<char>, u: UrlView, port: Option<u16>) -> Result<
    Seq<char>,
    CliError<Seq<char>>,
> {
    match (u.host, port) {
        (None, _) => Err(CliError::HostRequired { raw }),
        (_, None) => Err(CliError::PortRequired { raw }),
        (Some(host), Some(port)) => Ok(crate::ssh_forward::host_port(host, port)),
    }
}

/// The TCP endpoint that a URL denotes: a host and a port, and nothing else.
pub open spec fn tcp_endpoint(raw: Seq<char>, u: UrlView) -> Result<TcpView, CliError<Seq<char>>> {
    match common_fault(raw, u) {
        Some(e) => Err(e),
        None => if !(u.path == ""@ || u.path == "/"@) || u.query is Some {
            Err(CliError::TcpShape { raw })
        } else {
            match (socket_of(raw, u, u.port), u.host, u.port) {
                (Ok(addr), Some(host), Some(port)) => Ok(TcpView { addr, host, port }),
                (Err(e), _, _) => Err(e),
                _ => Err(CliError::PortRequired { raw }),
            }
        },
    }
}

/// The path to ask for: the URL's own, or the root.
pub open spec fn path_of(u: UrlView) -> Seq<char> {
    if u.path.len() == 0 {
        "/"@
    } else {
        u.path
    }
}

/// The WebSocket endpoint that a URL denotes.
pub open spec fn websocket_endpoint(u: UrlView, allow_query: bool) -> Result<
    WebSocketView,
    CliError<Seq<char>>,
> {
    match common_fault(u.text, u) {
        Some(e) => Err(e),
        None => if !allow_query && u.query is Some {
            Err(CliError::QueryNotSupported { url: u.text })
        } else {
            match socket_of(u.text, u, u.known_port) {
                Ok(bind_addr) => Ok(WebSocketView { url: u.text, bind_addr, path: path_of(u) }),
                Err(e) => Err(e),
            }
        },
    }
}

/// A TCP outcome as a bridge endpoint.
pub open spec fn as_tcp(r: Result<TcpView, CliError<Seq<char>>>) -> Result<
    EndpointView,
    CliError<Seq<char>>,
> {
    match r {
        Ok(e) => Ok(EndpointView::Tcp(e)),
        Err(e) => Err(e),
    }
}

/// A WebSocket outcome as a bridge endpoint.
pub open spec fn as_websocket(
    r: Result<WebSocketView, CliError<Seq<char>>>,
    secure: bool,
) -> Result<EndpointView, CliError<Seq<char>>> {
    match r {
        Ok(e) => if secure {
            Ok(EndpointView::Wss(e))
        } else {
            Ok(EndpointView::Ws(e))
        },
        Err(e) => Err(e),
    }
}

/// The endpoint to listen on that an upgraded URL denotes.
pub open spec fn listening_endpoint(raw: Seq<char>, u: UrlView) -> Result<
    EndpointView,
    CliError<Seq<char>>,
> {
    if u.scheme == "tcp"@ {
        as_tcp(tcp_endpoint(raw, u))
    } else if u.scheme == "ws"@ {
        as_websocket(websocket_endpoint(u, false), false)
    } else if u.scheme == "wss"@ {
        Err(CliError::TlsListener)
    } else {
        Err(CliError::UnsupportedTo { scheme: u.scheme })
    }
}

/// The endpoint to dial that an upgraded URL denotes.
pub open spec fn dialed_endpoint(raw: Seq<char>, u: UrlView) -> Result<
    EndpointView,
    CliError<Seq<char>>,
> {
    if u.scheme == "tcp"@ {
        as_tcp(tcp_endpoint(raw, u))
    } else if u.scheme == "ws"@ {
        as_websocket(websocket_endpoint(u, true), false)
    } else if u.scheme == "wss"@ {
        as_websocket(websocket_endpoint(u, true), true)
    } else {
        Err(CliError::UnsupportedFrom { scheme: u.scheme })
    }
}

/// The endpoint that `--to` denotes.
pub open spec fn to_value(raw: Seq<char>) -> Result<EndpointView, CliError<Seq<char>>> {
    match crate::endpoint::parsed_url(raw) {
        Ok(u) => listening_endpoint(raw, crate::endpoint::upgraded(u)),
        Err(source) => Err(CliError::InvalidUrl { raw, source }),
    }
}

/// The endpoint that `--from` denotes.
pub open spec fn from_value(raw: Seq<char>) -> Result<EndpointView, CliError<Seq<char>>> {
    match crate::endpoint::parsed_url(raw) {
        Ok(u) => dialed_endpoint(raw, crate::endpoint::upgraded(u)),
        Err(source) => Err(CliError::InvalidUrl { raw, source }),
    }
}

/// The bridge between two endpoints: TCP on both sides, or TCP on one and a WebSocket on the
/// other. Only a WebSocket can carry a token.
pub open spec fn bridge_of(to: EndpointView, from: EndpointView, token: Option<Seq<char>>) -> Result<
    BridgeArgsView,
    CliError<Seq<char>>,
> {
    match (to, from) {
        (EndpointView::Tcp(_), EndpointView::Tcp(_)) => if token is Some {
            Err(CliError::TokenWithoutWebSocket)
        } else {
            Ok(BridgeArgsView { to, from, token: None })
        },
        (EndpointView::Tcp(_), _) => Ok(BridgeArgsView { to, from, token }),
        (EndpointView::Ws(_), EndpointView::Tcp(_)) => Ok(BridgeArgsView { to, from, token }),
        _ => Err(CliError::UnsupportedPair),
    }
}

/// The bridge that a command line denotes.
pub open spec fn bridge_value(cli: BridgeCliView) -> Result<BridgeArgsView, CliError<Seq<char>>> {
    match (to_value(cli.to), from_value(cli.from)) {
        (Err(e), _) => Err(e),
        (_, Err(e)) => Err(e),
        (Ok(to), Ok(from)) => bridge_of(to, from, cli.token),
    }
}

/// Checks what no endpoint may have or lack.
pub fn validate_url_common(raw: &str, url: &EndpointUrl) -> (r: Result<(), CliError<String>>)
    ensures
        match common_fault(raw@, url@) {
            Some(e) => r is Err && r->Err_0@ == e,
            None => r is Ok,
        },
{
    if !url.username.as_str().is_empty() || url.password.is_some() {
        return Err(CliError::UserInfo { raw: raw.to_owned() });
    }
    if url.fragment.is_some() {
        return Err(CliError::Fragment { raw: raw.to_owned() });
    }
    if url.host.is_none() {
        return Err(CliError::HostRequired { raw: raw.to_owned() });
    }
    Ok(())
}

/// The host and the port of a URL in one text; where `allow_default_port` is set, a port that
/// the URL leaves out is the default of its scheme.
pub fn url_host_port(raw: &str, url: &EndpointUrl, allow_default_port: bool) -> (r: Result<
    String,
    CliError<String>,
>)
    ensures
        answers(
            r,
            socket_of(
                raw@,
                url@,
                if allow_default_port {
                    url@.known_port
                } else {
                    url@.port
                },
            ),
        ),
{
    let host = match &url.host {
        Some(host) => host,
        None => return Err(CliError::HostRequired { raw: raw.to_owned() }),
    };
    let port = if allow_default_port {
        url.known_port
    } else {
        url.port
    };
    match port {
        Some(port) => Ok(SshForward::socket_addr(host, port)),
        None => Err(CliError::PortRequired { raw: raw.to_owned() }),
    }
}

/// The path to ask for.
pub fn url_path(url: &EndpointUrl) -> (r: String)
    ensures
        r@ == path_of(url@),
{
    if url.path.as_str().is_empty() {
        "/".to_owned()
    } else {
        url.path.clone()
    }
}

/// Reads a TCP endpoint out of a URL.
pub fn parse_tcp_endpoint(raw: &str, url: &EndpointUrl) -> (r: Result<
    TcpEndpoint,
    CliError<String>,
>)
    ensures
        answers(r, tcp_endpoint(raw@, url@)),
{
    validate_url_common(raw, url)?;
    if !(same_text(&url.path, "") || same_text(&url.path, "/")) || url.query.is_some() {
        return Err(CliError::TcpShape { raw: raw.to_owned() });
    }
    let addr = url_host_port(raw, url, false)?;
    match (&url.host, url.port) {
        (Some(host), Some(port)) => Ok(TcpEndpoint { addr, host: host.clone(), port }),
        _ => Err(CliError::PortRequired { raw: raw.to_owned() }),
    }
}

/// Reads a WebSocket endpoint out of a URL.
pub fn parse_websocket_endpoint(url: &EndpointUrl, allow_query: bool) -> (r: Result<
    WebSocketEndpoint,
    CliError<String>,
>)
    ensures
        answers(r, websocket_endpoint(url@, allow_query)),
{
    validate_url_common(&url.text, url)?;
    if !allow_query && url.query.is_some() {
        return Err(CliError::QueryNotSupported { url: url.text.clone() });
    }
    let bind_addr = url_host_port(&url.text, url, true)?;
    Ok(WebSocketEndpoint { url: url.text.clone(), bind_addr, path: url_path(url) })
}

/// The endpoint to listen on. An `http` or `https` URL stands here as the WebSocket URL that it
/// is taken for.
pub fn bridge_to_endpoint(raw: &str, url: &EndpointUrl) -> (r: Result<
    BridgeEndpoint,
    CliError<String>,
>)
    requires
        crate::endpoint::is_upgraded(url@),
    ensures
        answers(r, listening_endpoint(raw@, url@)),
{
    if same_text(&url.scheme, "tcp") {
        Ok(BridgeEndpoint::Tcp(parse_tcp_endpoint(raw, url)?))
    } else if same_text(&url.scheme, "ws") {
        Ok(BridgeEndpoint::Ws(parse_websocket_endpoint(url, false)?))
    } else if same_text(&url.scheme, "wss") {
        Err(CliError::TlsListener)
    } else {
        Err(CliError::UnsupportedTo { scheme: url.scheme.clone() })
    }
}

/// The endpoint to dial. An `http` or `https` URL stands here as the WebSocket URL that it is
/// taken for.
pub fn bridge_from_endpoint(raw: &str, url: &EndpointUrl) -> (r: Result<
    BridgeEndpoint,
    CliError<String>,
>)
    requires
        crate::endpoint::is_upgraded(url@),
    ensures
        answers(r, dialed_endpoint(raw@, url@)),
{
    if same_text(&url.scheme, "tcp") {
        Ok(BridgeEndpoint::Tcp(parse_tcp_endpoint(raw, url)?))
    } else if same_text(&url.scheme, "ws") {
        Ok(BridgeEndpoint::Ws(parse_websocket_endpoint(url, true)?))
    } else if same_text(&url.scheme, "wss") {
        Ok(BridgeEndpoint::Wss(parse_websocket_endpoint(url, true)?))
    } else {
        Err(CliError::UnsupportedFrom { scheme: url.scheme.clone() })
    }
}

/// Whether an endpoint is a WebSocket with a URL of its scheme.
pub open spec fn is_websocket(e: EndpointView, secure: bool) -> bool {
    match e {
        EndpointView::Tcp(_) => false,
        EndpointView::Ws(e) => !secure && crate::endpoint::starts_with(e.url, "ws://"@),
        EndpointView::Wss(e) => secure && crate::endpoint::starts_with(e.url, "wss://"@),
    }
}

/// Whether an endpoint's URL is so long that it is one only under a shorter scheme.
pub open spec fn is_at_the_limit(e: EndpointView) -> bool {
    match e {
        EndpointView::Tcp(_) => false,
        EndpointView::Ws(e) => e.url.len() + 2 > u32::MAX,
        EndpointView::Wss(e) => e.url.len() + 2 > u32::MAX,
    }
}

/// Whether an `http` or `https` endpoint came to the same as the WebSocket endpoint that differs
/// from it in the scheme alone: both are refused, or both are one WebSocket.
pub open spec fn same_websocket(
    web: Result<EndpointView, CliError<Seq<char>>>,
    websocket: Result<EndpointView, CliError<Seq<char>>>,
    secure: bool,
) -> bool {
    match (web, websocket) {
        (Ok(a), Ok(b)) => a == b && is_websocket(a, secure),
        (Ok(_), Err(_)) => false,
        (Err(_), Ok(b)) => is_at_the_limit(b),
        (Err(_), Err(_)) => true,
    }
}

/// URLs that were parsed alike come to the same endpoints.
proof fn lemma_same_websocket(web: Seq<char>, websocket: Seq<char>, from: Seq<char>, to: Seq<char>)
    requires
        crate::endpoint::upgrades(from, to),
        crate::endpoint::same_but_for_scheme(
            crate::endpoint::parsed_url(web),
            crate::endpoint::parsed_url(websocket),
            from,
            to,
        ),
        crate::endpoint::parsed_url(web) is Ok ==> crate::endpoint::is_parsed(
            crate::endpoint::parsed_url(web)->Ok_0,
        ),
    ensures
        same_websocket(from_value(web), from_value(websocket), to == "wss"@),
        to == "ws"@ ==> same_websocket(to_value(web), to_value(websocket), false),
        to == "wss"@ ==> to_value(web) is Err && to_value(websocket) is Err,
{
    reveal_strlit("http");
    reveal_strlit("https");
    reveal_strlit("ws");
    reveal_strlit("wss");
    reveal_strlit("tcp");
    reveal_strlit("://");
    reveal_strlit("ws://");
    reveal_strlit("wss://");
    assert("wss"@[0] != "tcp"@[0]);
    assert("wss"@.len() == 3 && "ws"@.len() == 2 && "http"@.len() == 4 && "https"@.len() == 5
        && "tcp"@.len() == 3);
    assert("ws://"@ == "ws"@ + "://"@);
    assert("wss://"@ == "wss"@ + "://"@);
    if crate::endpoint::parsed_url(web) is Ok {
        crate::endpoint::lemma_upgraded(crate::endpoint::parsed_url(web)->Ok_0);
    }
}

/// Reads `--to`. An `http` endpoint is the `ws` endpoint that differs from it in the scheme
/// alone; an `https` endpoint is refused, as the `wss` endpoint is.
pub fn parse_bridge_to_endpoint(raw: &str) -> (r: Result<BridgeEndpoint, CliError<String>>)
    ensures
        answers(r, to_value(raw@)),
        forall|rest: Seq<char>|
            raw@ == #[trigger] ("http://"@ + rest) ==> same_websocket(
                to_value(raw@),
                to_value("ws://"@ + rest),
                false,
            ),
        forall|rest: Seq<char>|
            raw@ == #[trigger] ("https://"@ + rest) ==> r is Err && to_value("wss://"@ + rest) is Err,
{
    let url = parse_upgraded_url(raw);
    proof {
        assert forall|rest: Seq<char>| raw@ == #[trigger] ("http://"@ + rest) implies same_websocket(
            to_value(raw@),
            to_value("ws://"@ + rest),
            false,
        ) by {
            lemma_same_websocket(raw@, "ws://"@ + rest, "http"@, "ws"@);
        }
        assert forall|rest: Seq<char>| raw@ == #[trigger] ("https://"@ + rest) implies to_value(
            raw@,
        ) is Err && to_value("wss://"@ + rest) is Err by {
            lemma_same_websocket(raw@, "wss://"@ + rest, "https"@, "wss"@);
        }
    }
    bridge_to_endpoint(raw, &url?)
}

/// Reads `--from`. An `http` endpoint is the `ws` endpoint that differs from it in the scheme
/// alone, and so is an `https` endpoint the `wss` one.
pub fn parse_bridge_from_endpoint(raw: &str) -> (r: Result<BridgeEndpoint, CliError<String>>)
    ensures
        answers(r, from_value(raw@)),
        forall|rest: Seq<char>|
            raw@ == #[trigger] ("http://"@ + rest) ==> same_websocket(
                from_value(raw@),
                from_value("ws://"@ + rest),
                false,
            ),
        forall|rest: Seq<char>|
            raw@ == #[trigger] ("https://"@ + rest) ==> same_websocket(
                from_value(raw@),
                from_value("wss://"@ + rest),
                true,
            ),
{
    let url = parse_upgraded_url(raw);
    proof {
        reveal_strlit("ws");
        reveal_strlit("wss");
        assert("ws"@.len() == 2 && "wss"@.len() == 3);
        assert forall|rest: Seq<char>| raw@ == #[trigger] ("http://"@ + rest) implies same_websocket(
            from_value(raw@),
            from_value("ws://"@ + rest),
            false,
        ) by {
            lemma_same_websocket(raw@, "ws://"@ + rest, "http"@, "ws"@);
        }
        assert forall|rest: Seq<char>| raw@ == #[trigger] ("https://"@ + rest) implies same_websocket(
            from_value(raw@),
            from_value("wss://"@ + rest),
            true,
        ) by {
            lemma_same_websocket(raw@, "wss://"@ + rest, "https"@, "wss"@);
        }
    }
    bridge_from_endpoint(raw, &url?)
}

/// Pairs two endpoints.
pub fn pair_endpoints(to: BridgeEndpoint, from: BridgeEndpoint, token: Option<String>) -> (r: Result<
    BridgeArgs,
    CliError<String>,
>)
    ensures
        answers(r, bridge_of(to@, from@, token.deep_view())),
{
    let direct = match (&to, &from) {
        (BridgeEndpoint::Tcp(_), BridgeEndpoint::Tcp(_)) => true,
        (BridgeEndpoint::Tcp(_), BridgeEndpoint::Ws(_)) => false,
        (BridgeEndpoint::Tcp(_), BridgeEndpoint::Wss(_)) => false,
        (BridgeEndpoint::Ws(_), BridgeEndpoint::Tcp(_)) => false,
        _ => return Err(CliError::UnsupportedPair),
    };
    if direct && token.is_some() {
        return Err(CliError::TokenWithoutWebSocket);
    }
    Ok(BridgeArgs { to, from, token })
}

/// Reads the arguments of `bridge`.
pub fn parse_bridge(cli: BridgeCli) -> (r: Result<BridgeArgs, CliError<String>>)
    ensures
        answers(r, bridge_value(cli@)),
{
    let to = parse_bridge_to_endpoint(&cli.to)?;
    let from = parse_bridge_from_endpoint(&cli.from)?;
    pair_endpoints(to, from, cli.token)
}

/// Whether two forwards listen on one address.
pub open spec fn same_bind(a: ForwardView, b: ForwardView) -> bool {
    a.bind_host == b.bind_host && a.bind_port == b.bind_port
}

/// Whether a forward claims an address for itself: all do but the remote ones that leave the
/// port to the server.
pub open spec fn claims_bind(f: ForwardView) -> bool {
    f.kind == ForwardKind::Local || f.bind_port != 0
}

/// Whether a text denotes a forward that listens where `f` does.
pub open spec fn reads_as_bind(s: Seq<char>, kind: ForwardKind, f: ForwardView) -> bool {
    match crate::ssh_forward::forward_value(s, kind) {
        Some(g) => same_bind(f, g),
        None => false,
    }
}

/// What is wrong with the forward at index `i`: it cannot be read, or it listens where one
/// before it does.
pub open spec fn forward_fault(specs: Seq<Seq<char>>, kind: ForwardKind, i: int) -> Option<
    CliError<Seq<char>>,
> {
    match crate::ssh_forward::forward_value(specs[i], kind) {
        None => Some(CliError::InvalidForward { kind, spec: specs[i] }),
        Some(f) => if claims_bind(f) && exists|j: int|
            0 <= j < i && #[trigger] reads_as_bind(specs[j], kind, f) {
            Some(
                CliError::DuplicateForward {
                    kind,
                    addr: crate::ssh_forward::host_port(f.bind_host, f.bind_port),
                },
            )
        } else {
            None
        },
    }
}

/// Whether something is wrong with the forward at index `i` and with none before it.
pub open spec fn is_first_fault(specs: Seq<Seq<char>>, kind: ForwardKind, i: int) -> bool {
    &&& 0 <= i < specs.len()
    &&& forward_fault(specs, kind, i) is Some
    &&& forall|j: int| 0 <= j < i ==> (#[trigger] forward_fault(specs, kind, j)) is None
}

/// The forwards of one kind, in the order given, or the first thing wrong with them.
pub open spec fn forwards_value(specs: Seq<Seq<char>>, kind: ForwardKind) -> Result<
    Seq<ForwardView>,
    CliError<Seq<char>>,
> {
    if exists|i: int| is_first_fault(specs, kind, i) {
        Err(forward_fault(specs, kind, choose|i: int| is_first_fault(specs, kind, i))->Some_0)
    } else {
        Ok(
            specs.map_values(
                |s: Seq<char>| crate::ssh_forward::forward_value(s, kind)->Some_0,
            ),
        )
    }
}

/// The SSH session that a command line denotes: local forwards first, then remote ones.
pub open spec fn ssh_value(cli: SshCliView) -> Result<SshArgsView, CliError<Seq<char>>> {
    if cli.local_forwards.len() == 0 && cli.remote_forwards.len() == 0 {
        Err(CliError::NoForwards)
    } else {
        match (
            forwards_value(cli.local_forwards, ForwardKind::Local),
            forwards_value(cli.remote_forwards, ForwardKind::Remote),
        ) {
            (Err(e), _) => Err(e),
            (_, Err(e)) => Err(e),
            (Ok(local), Ok(remote)) => Ok(
                SshArgsView {
                    forwards: local + remote,
                    ssh_host: cli.ssh_host,
                    proxy_jump: cli.proxy_jump,
                    user: cli.user,
                    password: cli.password,
                    identity: cli.identity,
                    port: cli.port,
                    strict_host_keys: cli.strict_host_keys,
                },
            ),
        }
    }
}

/// What a command line asks for.
pub open spec fn command_value(cli: CliCommandView) -> Result<CommandView, CliError<Seq<char>>> {
    match cli {
        CliCommandView::Bridge(c) => match bridge_value(c) {
            Ok(args) => Ok(CommandView::Bridge(args)),
            Err(e) => Err(e),
        },
        CliCommandView::Ssh(c) => match ssh_value(c) {
            Ok(args) => Ok(CommandView::Ssh(args)),
            Err(e) => Err(e),
        },
    }
}

/// The first fault is what the forwards come to.
proof fn lemma_first_fault(specs: Seq<Seq<char>>, kind: ForwardKind, i: int)
    requires
        is_first_fault(specs, kind, i),
    ensures
        forwards_value(specs, kind) == Err::<Seq<ForwardView>, CliError<Seq<char>>>(
            forward_fault(specs, kind, i)->Some_0,
        ),
{
    let k = choose|i: int| is_first_fault(specs, kind, i);
    assert(is_first_fault(specs, kind, k));
    assert(!(k < i) && !(i < k));
}

/// Whether one of `forwards` listens where `f` does.
fn has_same_bind(forwards: &Vec<SshForward>, f: &SshForward) -> (r: bool)
    ensures
        r == exists|j: int| 0 <= j < forwards@.len() && same_bind(f@, #[trigger] forwards@[j]@),
{
    let mut j: usize = 0;
    while j < forwards.len()
        invariant
            j <= forwards@.len(),
            forall|k: int| 0 <= k < j ==> !same_bind(f@, #[trigger] forwards@[k]@),
        decreases forwards@.len() - j,
    {
        let g = &forwards[j];
        if f.bind_port == g.bind_port && f.bind_host == g.bind_host {
            assert(same_bind(f@, forwards@[j as int]@));
            return true;
        }
        j += 1;
    }
    false
}

/// Reads the forwards of one kind.
pub fn parse_forwards(specs: &Vec<String>, kind: ForwardKind) -> (r: Result<
    Vec<SshForward>,
    CliError<String>,
>)
    ensures
        match forwards_value(specs.deep_view(), kind) {
            Ok(forwards) => r is Ok && r->Ok_0.deep_view() == forwards,
            Err(e) => r is Err && r->Err_0@ == e,
        },
{
    let ghost texts = specs.deep_view();
    let mut forwards: Vec<SshForward> = Vec::new();
    let mut i: usize = 0;
    while i < specs.len()
        invariant
            texts == specs.deep_view(),
            i <= specs@.len(),
            forwards@.len() == i,
            forall|j: int|
                0 <= j < i ==> crate::ssh_forward::forward_value(#[trigger] texts[j], kind) == Some(
                    forwards@[j]@,
                ),
            forall|j: int| 0 <= j < i ==> (#[trigger] forward_fault(texts, kind, j)) is None,
        decreases specs@.len() - i,
    {
        assert(texts[i as int] == specs@[i as int]@);
        let fwd = match SshForward::parse(&specs[i], kind) {
            Ok(fwd) => fwd,
            Err(e) => {
                proof {
                    assert(is_first_fault(texts, kind, i as int));
                    lemma_first_fault(texts, kind, i as int);
                }
                return Err(e);
            },
        };
        let ghost f = fwd@;
        let claims = match kind {
            ForwardKind::Local => true,
            ForwardKind::Remote => fwd.bind_port != 0,
        };
        let taken = has_same_bind(&forwards, &fwd);
        proof {
            assert(f.kind == kind);
            if taken {
                let j = choose|j: int| 0 <= j < forwards@.len() && same_bind(f, #[trigger] forwards@[j]@);
                assert(reads_as_bind(texts[j], kind, f));
            } else {
                assert forall|j: int| 0 <= j < i implies !#[trigger] reads_as_bind(
                    texts[j],
                    kind,
                    f,
                ) by {
                    assert(!same_bind(f, forwards@[j]@));
                }
            }
        }
        if claims && taken {
            proof {
                assert(is_first_fault(texts, kind, i as int));
                lemma_first_fault(texts, kind, i as int);
            }
            return Err(
                CliError::DuplicateForward {
                    kind,
                    addr: SshForward::socket_addr(&fwd.bind_host, fwd.bind_port),
                },
            );
        }
        assert(forward_fault(texts, kind, i as int) is None);
        forwards.push(fwd);
        i += 1;
    }
    proof {
        assert(forall|k: int| !is_first_fault(texts, kind, k));
        assert(forwards.deep_view() =~= texts.map_values(
            |s: Seq<char>| crate::ssh_forward::forward_value(s, kind)->Some_0,
        ));
    }
    Ok(forwards)
}

/// Reads the arguments of `ssh`.
pub fn parse_ssh(cli: SshCli) -> (r: Result<SshArgs, CliError<String>>)
    ensures
        answers(r, ssh_value(cli@)),
{
    if cli.local_forwards.len() == 0 && cli.remote_forwards.len() == 0 {
        return Err(CliError::NoForwards);
    }
    let mut forwards = parse_forwards(&cli.local_forwards, ForwardKind::Local)?;
    let mut remote = parse_forwards(&cli.remote_forwards, ForwardKind::Remote)?;
    let ghost local_view = forwards.deep_view();
    let ghost remote_view = remote.deep_view();
    forwards.append(&mut remote);
    assert(forwards.deep_view() =~= local_view + remote_view);
    Ok(
        SshArgs {
            forwards,
            ssh_host: cli.ssh_host,
            proxy_jump: cli.proxy_jump,
            user: cli.user,
            password: cli.password,
            identity: cli.identity,
            port: cli.port,
            strict_host_keys: cli.strict_host_keys,
        },
    )
}

/// Reads a command line.
pub fn parse(cli: CliCommand) -> (r: Result<Command, CliError<String>>)
    ensures
        answers(r, command_value(cli@)),
{
    match cli {
        CliCommand::Bridge(args) => Ok(Command::Bridge(parse_bridge(args)?)),
        CliCommand::Ssh(args) => Ok(Command::Ssh(parse_ssh(args)?)),
    }
}

/// Every bridge that is accepted has TCP on at least one side, never listens with TLS, carries
/// the token that was given, and carries none where both sides are TCP.
pub proof fn law_bridge_shapes(cli: BridgeCliView)
    requires
        bridge_value(cli) is Ok,
    ensures
        ({
            let args = bridge_value(cli)->Ok_0;
            &&& args.to is Tcp || args.from is Tcp
            &&& !(args.to is Wss)
            &&& args.token == cli.token
            &&& args.to is Tcp && args.from is Tcp ==> args.token is None
        }),
{
}

/// A WebSocket URL without user info and fragment that names a host is an endpoint to dial,
/// whether or not it names a port or a query; its URL keeps the scheme.
pub proof fn law_websocket_needs_no_port(raw: Seq<char>, u: UrlView)
    requires
        crate::endpoint::is_parsed(u),
        u.scheme == "ws"@ || u.scheme == "wss"@,
        common_fault(u.text, u) is None,
    ensures
        dialed_endpoint(raw, u) is Ok,
        match dialed_endpoint(raw, u)->Ok_0 {
            EndpointView::Tcp(_) => false,
            EndpointView::Ws(e) => u.scheme == "ws"@ && e.url == u.text,
            EndpointView::Wss(e) => u.scheme == "wss"@ && e.url == u.text,
        },
{
    reveal_strlit("ws");
    reveal_strlit("wss");
    reveal_strlit("tcp");
    assert("wss"@[0] != "tcp"@[0]);
    assert("wss"@.len() == 3 && "ws"@.len() == 2);
}

/// Where there is no first fault, there is none.
proof fn lemma_no_fault(specs: Seq<Seq<char>>, kind: ForwardKind, i: int)
    requires
        forwards_value(specs, kind) is Ok,
        0 <= i <= specs.len(),
    ensures
        forall|j: int| 0 <= j < i ==> (#[trigger] forward_fault(specs, kind, j)) is None,
    decreases i,
{
    if i > 0 {
        lemma_no_fault(specs, kind, i - 1);
        assert(!is_first_fault(specs, kind, i - 1));
    }
}

/// Forwards of one kind that were accepted are of that kind, and no two of them claim one
/// address.
proof fn lemma_distinct_binds(specs: Seq<Seq<char>>, kind: ForwardKind)
    requires
        forwards_value(specs, kind) is Ok,
    ensures
        ({
            let forwards = forwards_value(specs, kind)->Ok_0;
            &&& forwards.len() == specs.len()
            &&& forall|i: int| 0 <= i < forwards.len() ==> (#[trigger] forwards[i]).kind == kind
            &&& forall|i: int, j: int|
                0 <= i < j < forwards.len() && claims_bind(forwards[j]) ==> !same_bind(
                    #[trigger] forwards[j],
                    #[trigger] forwards[i],
                )
        }),
{
    let forwards = forwards_value(specs, kind)->Ok_0;
    lemma_no_fault(specs, kind, specs.len() as int);
    assert forall|i: int| 0 <= i < forwards.len() implies (#[trigger] forwards[i]).kind == kind by {
        assert(forward_fault(specs, kind, i) is None);
    }
    assert forall|i: int, j: int|
        0 <= i < j < forwards.len() && claims_bind(forwards[j]) implies !same_bind(
        #[trigger] forwards[j],
        #[trigger] forwards[i],
    ) by {
        assert(forward_fault(specs, kind, i) is None);
        assert(forward_fault(specs, kind, j) is None);
        assert(!reads_as_bind(specs[i], kind, forwards[j]));
    }
}

/// A session that is accepted has a forward, its forwards are the local ones in the order given
/// and then the remote ones in the order given, and no two of one kind listen on one address,
/// but for remote ones that leave the port to the server.
pub proof fn law_no_two_forwards_claim_one_address(cli: SshCliView)
    requires
        ssh_value(cli) is Ok,
    ensures
        ({
            let forwards = ssh_value(cli)->Ok_0.forwards;
            let n = cli.local_forwards.len();
            &&& forwards.len() == n + cli.remote_forwards.len()
            &&& forwards.len() > 0
            &&& forall|i: int|
                0 <= i < forwards.len() ==> (#[trigger] forwards[i]).kind == (if i < n {
                    ForwardKind::Local
                } else {
                    ForwardKind::Remote
                })
            &&& forall|i: int, j: int|
                0 <= i < j < forwards.len() && forwards[i].kind == forwards[j].kind && claims_bind(
                    forwards[j],
                ) ==> !same_bind(#[trigger] forwards[j], #[trigger] forwards[i])
        }),
{
    lemma_distinct_binds(cli.local_forwards, ForwardKind::Local);
    lemma_distinct_binds(cli.remote_forwards, ForwardKind::Remote);
}

/// A result that answers a contract is a success with just the value named, or a failure with
/// just the error named.
pub proof fn law_answers_are_exact<T: View>(
    r: Result<T, CliError<String>>,
    expected: Result<T::V, CliError<Seq<char>>>,
)
    ensures
        answers(r, expected) <==> (r is Ok <==> expected is Ok) && (r is Ok ==> r->Ok_0@
            == expected->Ok_0) && (r is Err ==> r->Err_0@ == expected->Err_0),
{
}

/// A URL is a TCP endpoint if and only if it names a host and a port and has nothing else, but
/// for a slash as its path; the endpoint has that host, that port and both in one text. Else the
/// first thing wrong is told: user info, a fragment, no host, a path or query, no port.
pub proof fn law_tcp_endpoints_are_a_host_and_a_port(raw: Seq<char>, u: UrlView)
    ensures
        ({
            let r = tcp_endpoint(raw, u);
            let user_info = u.username.len() > 0 || u.password is Some;
            let more = !(u.path == ""@ || u.path == "/"@) || u.query is Some;
            &&& r is Ok <==> !user_info && u.fragment is None && u.host is Some && !more && u.port
                is Some
            &&& r is Ok ==> {
                &&& r->Ok_0.host == u.host->Some_0
                &&& r->Ok_0.port == u.port->Some_0
                &&& r->Ok_0.addr == crate::ssh_forward::host_port(u.host->Some_0, u.port->Some_0)
            }
            &&& user_info ==> r == Err::<TcpView, CliError<Seq<char>>>(CliError::UserInfo { raw })
            &&& !user_info && u.fragment is Some ==> r == Err::<TcpView, CliError<Seq<char>>>(
                CliError::Fragment { raw },
            )
            &&& !user_info && u.fragment is None && u.host is None ==> r == Err::<TcpView, CliError<Seq<char>>>(
                CliError::HostRequired { raw },
            )
            &&& !user_info && u.fragment is None && u.host is Some && more ==> r == Err::<TcpView, CliError<Seq<char>>>(CliError::TcpShape { raw })
            &&& !user_info && u.fragment is None && u.host is Some && !more && u.port is None
                ==> r == Err::<TcpView, CliError<Seq<char>>>(CliError::PortRequired { raw })
        }),
{
}

/// A URL is a WebSocket endpoint if and only if it names a host, has a port or a default for it,
/// has neither user info nor a fragment, and no query where none is allowed. The endpoint keeps
/// the whole URL; it is found at the host and that port, and at the path, or at the root where
/// there is none. Else the first thing wrong is told.
pub proof fn law_websocket_endpoints_keep_their_url(u: UrlView, allow_query: bool)
    ensures
        ({
            let r = websocket_endpoint(u, allow_query);
            let user_info = u.username.len() > 0 || u.password is Some;
            let query = !allow_query && u.query is Some;
            &&& r is Ok <==> !user_info && u.fragment is None && u.host is Some && !query
                && u.known_port is Some
            &&& r is Ok ==> {
                &&& r->Ok_0.url == u.text
                &&& r->Ok_0.bind_addr == crate::ssh_forward::host_port(
                    u.host->Some_0,
                    u.known_port->Some_0,
                )
                &&& u.path.len() > 0 ==> r->Ok_0.path == u.path
                &&& u.path.len() == 0 ==> r->Ok_0.path == "/"@
            }
            &&& user_info ==> r == Err::<WebSocketView, CliError<Seq<char>>>(CliError::UserInfo { raw: u.text })
            &&& !user_info && u.fragment is Some ==> r == Err::<WebSocketView, CliError<Seq<char>>>(
                CliError::Fragment { raw: u.text },
            )
            &&& !user_info && u.fragment is None && u.host is None ==> r == Err::<WebSocketView, CliError<Seq<char>>>(CliError::HostRequired { raw: u.text })
            &&& !user_info && u.fragment is None && u.host is Some && query ==> r == Err::<WebSocketView, CliError<Seq<char>>>(CliError::QueryNotSupported { url: u.text })
            &&& !user_info && u.fragment is None && u.host is Some && !query && u.known_port
                is None ==> r == Err::<WebSocketView, CliError<Seq<char>>>(CliError::PortRequired { raw: u.text })
        }),
{
}

/// The host and port of a URL in one text need both; a missing host is told first. The path to
/// ask for is never empty. What no endpoint may have or lack is told in one order.
pub proof fn law_parts_of_endpoints(raw: Seq<char>, u: UrlView, port: Option<u16>)
    ensures
        u.host is Some && port is Some ==> socket_of(raw, u, port) == Ok::<
            _,
            CliError<Seq<char>>,
        >(crate::ssh_forward::host_port(u.host->Some_0, port->Some_0)),
        u.host is None ==> socket_of(raw, u, port) == Err::<Seq<char>, CliError<Seq<char>>>(
            CliError::HostRequired { raw },
        ),
        u.host is Some && port is None ==> socket_of(raw, u, port) == Err::<Seq<char>, CliError<Seq<char>>>(
            CliError::PortRequired { raw },
        ),
        u.path.len() > 0 ==> path_of(u) == u.path,
        u.path.len() == 0 ==> path_of(u) == "/"@,
        common_fault(raw, u) is None <==> u.username.len() == 0 && u.password is None && u.fragment
            is None && u.host is Some,
        u.username.len() > 0 || u.password is Some ==> common_fault(raw, u) == Some(
            CliError::UserInfo { raw },
        ),
        u.username.len() == 0 && u.password is None && u.fragment is Some ==> common_fault(raw, u)
            == Some(CliError::Fragment { raw }),
        u.username.len() == 0 && u.password is None && u.fragment is None && u.host is None
            ==> common_fault(raw, u) == Some(CliError::HostRequired { raw }),
{
}

/// The schemes that endpoints can have are four different ones.
proof fn lemma_schemes_differ()
    ensures
        "tcp"@ != "ws"@,
        "tcp"@ != "wss"@,
        "ws"@ != "wss"@,
        "http"@ != "https"@,
        "http"@ != "tcp"@,
        "http"@ != "ws"@,
        "http"@ != "wss"@,
        "https"@ != "tcp"@,
        "https"@ != "ws"@,
        "https"@ != "wss"@,
{
    reveal_strlit("http");
    reveal_strlit("https");
    reveal_strlit("ws");
    reveal_strlit("wss");
    reveal_strlit("tcp");
    assert("wss"@[0] != "tcp"@[0]);
    assert("wss"@.len() == 3 && "ws"@.len() == 2 && "http"@.len() == 4 && "https"@.len() == 5
        && "tcp"@.len() == 3);
}

/// The scheme decides what a `--to` URL is: a TCP endpoint under `tcp`; a WebSocket without query
/// under `ws`, and under `http` the one that its upgrade is; refused for want of TLS under `wss`
/// and `https`, whatever else is in it; and refused by name under any other scheme.
pub proof fn law_schemes_to_listen_on(raw: Seq<char>, u: UrlView)
    requires
        crate::endpoint::parsed_url(raw) == Ok::<UrlView, url::ParseError>(u),
    ensures
        ({
            let r = to_value(raw);
            let as_ws = websocket_endpoint(
                if u.scheme == "http"@ {
                    crate::endpoint::upgraded(u)
                } else {
                    u
                },
                false,
            );
            &&& u.scheme == "tcp"@ ==> {
                &&& tcp_endpoint(raw, u) is Ok ==> r == Ok::<_, CliError<Seq<char>>>(
                    EndpointView::Tcp(tcp_endpoint(raw, u)->Ok_0),
                )
                &&& tcp_endpoint(raw, u) is Err ==> r == Err::<EndpointView, CliError<Seq<char>>>(
                    tcp_endpoint(raw, u)->Err_0,
                )
            }
            &&& u.scheme == "ws"@ || u.scheme == "http"@ ==> {
                &&& as_ws is Ok ==> r == Ok::<_, CliError<Seq<char>>>(
                    EndpointView::Ws(as_ws->Ok_0),
                )
                &&& as_ws is Err ==> r == Err::<EndpointView, CliError<Seq<char>>>(as_ws->Err_0)
            }
            &&& u.scheme == "wss"@ || u.scheme == "https"@ ==> r == Err::<EndpointView, CliError<Seq<char>>>(
                CliError::TlsListener,
            )
            &&& u.scheme != "tcp"@ && u.scheme != "ws"@ && u.scheme != "wss"@ && u.scheme
                != "http"@ && u.scheme != "https"@ ==> r == Err::<EndpointView, CliError<Seq<char>>>(
                CliError::UnsupportedTo { scheme: u.scheme },
            )
        }),
{
    lemma_schemes_differ();
}

/// The scheme decides what a `--from` URL is: a TCP endpoint under `tcp`; a WebSocket, with a
/// query or without, under `ws` and `http`; one with TLS under `wss` and `https`; and refused by
/// name under any other scheme.
pub proof fn law_schemes_to_dial(raw: Seq<char>, u: UrlView)
    requires
        crate::endpoint::parsed_url(raw) == Ok::<UrlView, url::ParseError>(u),
    ensures
        ({
            let r = from_value(raw);
            let as_ws = websocket_endpoint(
                if u.scheme == "http"@ || u.scheme == "https"@ {
                    crate::endpoint::upgraded(u)
                } else {
                    u
                },
                true,
            );
            &&& u.scheme == "tcp"@ ==> {
                &&& tcp_endpoint(raw, u) is Ok ==> r == Ok::<_, CliError<Seq<char>>>(
                    EndpointView::Tcp(tcp_endpoint(raw, u)->Ok_0),
                )
                &&& tcp_endpoint(raw, u) is Err ==> r == Err::<EndpointView, CliError<Seq<char>>>(
                    tcp_endpoint(raw, u)->Err_0,
                )
            }
            &&& (u.scheme == "ws"@ || u.scheme == "http"@) && as_ws is Ok ==> r == Ok::<
                _,
                CliError<Seq<char>>,
            >(EndpointView::Ws(as_ws->Ok_0))
            &&& (u.scheme == "wss"@ || u.scheme == "https"@) && as_ws is Ok ==> r == Ok::<
                _,
                CliError<Seq<char>>,
            >(EndpointView::Wss(as_ws->Ok_0))
            &&& (u.scheme == "ws"@ || u.scheme == "http"@ || u.scheme == "wss"@ || u.scheme
                == "https"@) && as_ws is Err ==> r == Err::<EndpointView, CliError<Seq<char>>>(as_ws->Err_0)
            &&& u.scheme != "tcp"@ && u.scheme != "ws"@ && u.scheme != "wss"@ && u.scheme
                != "http"@ && u.scheme != "https"@ ==> r == Err::<EndpointView, CliError<Seq<char>>>(
                CliError::UnsupportedFrom { scheme: u.scheme },
            )
        }),
{
    lemma_schemes_differ();
}

/// What is no URL is no endpoint on either side, and is told as it was typed.
pub proof fn law_endpoints_are_urls(raw: Seq<char>)
    requires
        crate::endpoint::parsed_url(raw) is Err,
    ensures
        ({
            let source = crate::endpoint::parsed_url(raw)->Err_0;
            &&& to_value(raw) == Err::<EndpointView, CliError<Seq<char>>>(CliError::InvalidUrl { raw, source })
            &&& from_value(raw) == Err::<EndpointView, CliError<Seq<char>>>(CliError::InvalidUrl { raw, source })
        }),
{
}

/// Two endpoints make a bridge if and only if the listening one is TCP, or it is a plain WebSocket
/// and the dialed one is TCP, and no token is given where both are TCP. The bridge has just the
/// two endpoints and the token, or the lack of one, that were given. A token between TCP and TCP
/// is what is told there, and the pair everywhere else.
pub proof fn law_which_endpoints_make_a_bridge(
    to: EndpointView,
    from: EndpointView,
    token: Option<Seq<char>>,
)
    ensures
        ({
            let r = bridge_of(to, from, token);
            let pair = to is Tcp || (to is Ws && from is Tcp);
            let direct = to is Tcp && from is Tcp;
            &&& r is Ok <==> pair && !(direct && token is Some)
            &&& r is Ok ==> r->Ok_0.to == to && r->Ok_0.from == from && r->Ok_0.token == token
            &&& direct && token is Some ==> r == Err::<BridgeArgsView, CliError<Seq<char>>>(
                CliError::TokenWithoutWebSocket,
            )
            &&& !pair ==> r == Err::<BridgeArgsView, CliError<Seq<char>>>(CliError::UnsupportedPair)
        }),
{
}

/// A bridge command line is accepted if and only if both of its endpoints can be read and make a
/// bridge with its token; the bridge has these endpoints. What is wrong with `--to` is told
/// first, then what is wrong with `--from`, then what is wrong with the two together.
pub proof fn law_bridges_join_what_was_typed(cli: BridgeCliView)
    ensures
        ({
            let r = bridge_value(cli);
            let to = to_value(cli.to);
            let from = from_value(cli.from);
            &&& to is Err ==> r == Err::<BridgeArgsView, CliError<Seq<char>>>(to->Err_0)
            &&& to is Ok && from is Err ==> r == Err::<BridgeArgsView, CliError<Seq<char>>>(from->Err_0)
            &&& to is Ok && from is Ok ==> {
                let pair = to->Ok_0 is Tcp || (to->Ok_0 is Ws && from->Ok_0 is Tcp);
                let direct = to->Ok_0 is Tcp && from->Ok_0 is Tcp;
                &&& r is Ok <==> pair && !(direct && cli.token is Some)
                &&& r is Ok ==> r->Ok_0.to == to->Ok_0 && r->Ok_0.from == from->Ok_0
                    && r->Ok_0.token == cli.token
                &&& direct && cli.token is Some ==> r == Err::<BridgeArgsView, CliError<Seq<char>>>(
                    CliError::TokenWithoutWebSocket,
                )
                &&& !pair ==> r == Err::<BridgeArgsView, CliError<Seq<char>>>(CliError::UnsupportedPair)
            }
        }),
{
}

/// Whether two forwards of one kind, given in this order, clash: both listen on one port of one
/// host, and the port was not left to the server.
pub open spec fn clash(kind: ForwardKind, earlier: ForwardView, later: ForwardView) -> bool {
    &&& earlier.bind_host == later.bind_host
    &&& earlier.bind_port == later.bind_port
    &&& kind == ForwardKind::Local || later.bind_port != 0
}

/// Whether the forwards before index `n` can all be read and none of them clash.
pub open spec fn fine_before(specs: Seq<Seq<char>>, kind: ForwardKind, n: int) -> bool {
    &&& forall|i: int|
        0 <= i < n ==> crate::ssh_forward::forward_value(#[trigger] specs[i], kind) is Some
    &&& forall|i: int, j: int|
        0 <= i < j < n ==> !clash(
            kind,
            crate::ssh_forward::forward_value(#[trigger] specs[i], kind)->Some_0,
            crate::ssh_forward::forward_value(#[trigger] specs[j], kind)->Some_0,
        )
}

/// A forward that was read is of the kind that was asked for.
proof fn lemma_kind(s: Seq<char>, kind: ForwardKind)
    ensures
        crate::ssh_forward::forward_value(s, kind) is Some ==> crate::ssh_forward::forward_value(
            s,
            kind,
        )->Some_0.kind == kind,
{
}

/// Nothing is wrong with forwards that can be read and do not clash.
proof fn lemma_fine_before(specs: Seq<Seq<char>>, kind: ForwardKind, n: int)
    requires
        0 <= n <= specs.len(),
    ensures
        fine_before(specs, kind, n) <==> forall|i: int|
            0 <= i < n ==> (#[trigger] forward_fault(specs, kind, i)) is None,
{
    if fine_before(specs, kind, n) {
        assert forall|i: int| 0 <= i < n implies (#[trigger] forward_fault(specs, kind, i)) is None by {
            let f = crate::ssh_forward::forward_value(specs[i], kind)->Some_0;
            lemma_kind(specs[i], kind);
            assert forall|j: int| 0 <= j < i && claims_bind(f) implies !#[trigger] reads_as_bind(
                specs[j],
                kind,
                f,
            ) by {
                assert(!clash(
                    kind,
                    crate::ssh_forward::forward_value(specs[j], kind)->Some_0,
                    crate::ssh_forward::forward_value(specs[i], kind)->Some_0,
                ));
            }
        }
    }
    if forall|i: int| 0 <= i < n ==> (#[trigger] forward_fault(specs, kind, i)) is None {
        assert forall|i: int| 0 <= i < n implies crate::ssh_forward::forward_value(
            #[trigger] specs[i],
            kind,
        ) is Some by {
            assert(forward_fault(specs, kind, i) is None);
        }
        assert forall|i: int, j: int| 0 <= i < j < n implies !clash(
            kind,
            crate::ssh_forward::forward_value(#[trigger] specs[i], kind)->Some_0,
            crate::ssh_forward::forward_value(#[trigger] specs[j], kind)->Some_0,
        ) by {
            lemma_kind(specs[j], kind);
            assert(forward_fault(specs, kind, j) is None);
            assert(forward_fault(specs, kind, i) is None);
            let f = crate::ssh_forward::forward_value(specs[j], kind)->Some_0;
            if claims_bind(f) {
                assert(!reads_as_bind(specs[i], kind, f));
            }
        }
    }
}

/// Forwards of one kind are accepted if and only if each of them can be read and no two of them
/// clash; then each is what its own text says, in the order given.
pub proof fn law_which_forwards_are_accepted(specs: Seq<Seq<char>>, kind: ForwardKind)
    ensures
        forwards_value(specs, kind) is Ok <==> fine_before(specs, kind, specs.len() as int),
        forwards_value(specs, kind) is Ok ==> {
            let forwards = forwards_value(specs, kind)->Ok_0;
            &&& forwards.len() == specs.len()
            &&& forall|i: int|
                0 <= i < specs.len() ==> crate::ssh_forward::forward_value(specs[i], kind) == Some(
                    #[trigger] forwards[i],
                )
        },
{
    lemma_fine_before(specs, kind, specs.len() as int);
    if forwards_value(specs, kind) is Ok {
        lemma_no_fault(specs, kind, specs.len() as int);
        let forwards = forwards_value(specs, kind)->Ok_0;
        assert forall|i: int| 0 <= i < specs.len() implies crate::ssh_forward::forward_value(
            specs[i],
            kind,
        ) == Some(#[trigger] forwards[i]) by {
            assert(forward_fault(specs, kind, i) is None);
        }
    } else {
        let k = choose|k: int| is_first_fault(specs, kind, k);
        assert(forward_fault(specs, kind, k) is Some);
    }
}

/// Where the forwards before one are fine, and it is not, it is told: as it was typed, where it
/// cannot be read, and by the address that it listens on, where it clashes with one before it.
pub proof fn law_the_first_bad_forward_is_told(specs: Seq<Seq<char>>, kind: ForwardKind, i: int)
    requires
        0 <= i < specs.len(),
        fine_before(specs, kind, i),
        !fine_before(specs, kind, i + 1),
    ensures
        ({
            let r = forwards_value(specs, kind);
            let f = crate::ssh_forward::forward_value(specs[i], kind);
            &&& f is None ==> r == Err::<Seq<ForwardView>, CliError<Seq<char>>>(
                CliError::InvalidForward { kind, spec: specs[i] },
            )
            &&& f is Some ==> r == Err::<Seq<ForwardView>, CliError<Seq<char>>>(
                CliError::DuplicateForward {
                    kind,
                    addr: crate::ssh_forward::host_port(f->Some_0.bind_host, f->Some_0.bind_port),
                },
            )
        }),
{
    lemma_fine_before(specs, kind, i);
    lemma_fine_before(specs, kind, i + 1);
    assert(forward_fault(specs, kind, i) is Some);
    assert(is_first_fault(specs, kind, i));
    lemma_first_fault(specs, kind, i);
}

/// A session that is accepted carries the host, jump hosts, user, password, key, port and
/// strictness of the command line unchanged, and its forwards are the local ones and then the
/// remote ones, each as its own text says. It is accepted if and only if there is a forward and
/// the forwards of both kinds are accepted; else that there is none is told, or what is wrong
/// with the local ones, or what is wrong with the remote ones.
pub proof fn law_sessions_carry_what_was_typed(cli: SshCliView)
    ensures
        ({
            let r = ssh_value(cli);
            let local = forwards_value(cli.local_forwards, ForwardKind::Local);
            let remote = forwards_value(cli.remote_forwards, ForwardKind::Remote);
            let empty = cli.local_forwards.len() == 0 && cli.remote_forwards.len() == 0;
            &&& r is Ok <==> !empty && fine_before(
                cli.local_forwards,
                ForwardKind::Local,
                cli.local_forwards.len() as int,
            ) && fine_before(
                cli.remote_forwards,
                ForwardKind::Remote,
                cli.remote_forwards.len() as int,
            )
            &&& r is Ok ==> {
                let args = r->Ok_0;
                let n = cli.local_forwards.len();
                &&& args.ssh_host == cli.ssh_host
                &&& args.proxy_jump == cli.proxy_jump
                &&& args.user == cli.user
                &&& args.password == cli.password
                &&& args.identity == cli.identity
                &&& args.port == cli.port
                &&& args.strict_host_keys == cli.strict_host_keys
                &&& args.forwards.len() == n + cli.remote_forwards.len()
                &&& forall|i: int|
                    0 <= i < n ==> crate::ssh_forward::forward_value(
                        cli.local_forwards[i],
                        ForwardKind::Local,
                    ) == Some(#[trigger] args.forwards[i])
                &&& forall|i: int|
                    n <= i < args.forwards.len() ==> crate::ssh_forward::forward_value(
                        cli.remote_forwards[i - n],
                        ForwardKind::Remote,
                    ) == Some(#[trigger] args.forwards[i])
            }
            &&& empty ==> r == Err::<SshArgsView, CliError<Seq<char>>>(CliError::NoForwards)
            &&& !empty && local is Err ==> r == Err::<SshArgsView, CliError<Seq<char>>>(local->Err_0)
            &&& !empty && local is Ok && remote is Err ==> r == Err::<SshArgsView, CliError<Seq<char>>>(
                remote->Err_0,
            )
        }),
{
    law_which_forwards_are_accepted(cli.local_forwards, ForwardKind::Local);
    law_which_forwards_are_accepted(cli.remote_forwards, ForwardKind::Remote);
}

/// A command is what its own arguments say, and of its own kind.
pub proof fn law_commands_are_what_was_typed(bridge: BridgeCliView, ssh: SshCliView)
    ensures
        bridge_value(bridge) is Ok ==> command_value(CliCommandView::Bridge(bridge)) == Ok::<
            _,
            CliError<Seq<char>>,
        >(CommandView::Bridge(bridge_value(bridge)->Ok_0)),
        bridge_value(bridge) is Err ==> command_value(CliCommandView::Bridge(bridge)) == Err::<CommandView, CliError<Seq<char>>>(bridge_value(bridge)->Err_0),
        ssh_value(ssh) is Ok ==> command_value(CliCommandView::Ssh(ssh)) == Ok::<
            _,
            CliError<Seq<char>>,
        >(CommandView::Ssh(ssh_value(ssh)->Ok_0)),
        ssh_value(ssh) is Err ==> command_value(CliCommandView::Ssh(ssh)) == Err::<CommandView, CliError<Seq<char>>>(ssh_value(ssh)->Err_0),
{
}

/// A session as a value has all that the session has, before it is read and after.
pub proof fn law_session_views(cli: SshCli, args: SshArgs)
    ensures
        cli@.local_forwards == cli.local_forwards.deep_view(),
        cli@.remote_forwards == cli.remote_forwards.deep_view(),
        cli@.ssh_host == cli.ssh_host@,
        cli@.proxy_jump == cli.proxy_jump.deep_view(),
        cli@.user == cli.user.deep_view(),
        cli@.password == cli.password.deep_view(),
        cli@.identity == cli.identity.deep_view(),
        cli@.port == cli.port,
        cli@.strict_host_keys == cli.strict_host_keys,
        args@.forwards == args.forwards.deep_view(),
        args@.ssh_host == args.ssh_host@,
        args@.proxy_jump == args.proxy_jump.deep_view(),
        args@.user == args.user.deep_view(),
        args@.password == args.password.deep_view(),
        args@.identity == args.identity.deep_view(),
        args@.port == args.port,
        args@.strict_host_keys == args.strict_host_keys,
        CliCommand::Ssh(cli)@ == CliCommandView::Ssh(cli@),
        Command::Ssh(args)@ == CommandView::Ssh(args@),
{
}

/// A bridge as a value has all that the bridge has, before it is read and after.
pub proof fn law_bridge_views(
    cli: BridgeCli,
    args: BridgeArgs,
    tcp: TcpEndpoint,
    websocket: WebSocketEndpoint,
)
    ensures
        cli@.to == cli.to@,
        cli@.from == cli.from@,
        cli@.token == cli.token.deep_view(),
        args@.to == args.to@,
        args@.from == args.from@,
        args@.token == args.token.deep_view(),
        tcp@.addr == tcp.addr@,
        tcp@.host == tcp.host@,
        tcp@.port == tcp.port,
        websocket@.url == websocket.url@,
        websocket@.bind_addr == websocket.bind_addr@,
        websocket@.path == websocket.path@,
        BridgeEndpoint::Tcp(tcp)@ == EndpointView::Tcp(tcp@),
        BridgeEndpoint::Ws(websocket)@ == EndpointView::Ws(websocket@),
        BridgeEndpoint::Wss(websocket)@ == EndpointView::Wss(websocket@),
        CliCommand::Bridge(cli)@ == CliCommandView::Bridge(cli@),
        Command::Bridge(args)@ == CommandView::Bridge(args@),
{
}

} // verus!
