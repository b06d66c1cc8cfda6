//! Endpoint URLs: what the URL parser says of them, as plain values.

use crate::error::CliError;
use crate::text::same_text;
use url::Url;
use vstd::prelude::*;

verus! {

/// A parsed endpoint URL.
#[derive(Debug)]
pub struct EndpointUrl {
    /// The whole URL, as the parser writes it.
    pub text: String,
    pub scheme: String,
    pub username: String,
    pub password: Option<String>,
    pub host: Option<String>,
    /// The port that the URL names, unless it is the scheme's default.
    pub port: Option<u16>,
    /// The port that the URL names, or the scheme's default.
    pub known_port: Option<u16>,
    pub path: String,
    pub query: Option<String>,
    pub fragment: Option<String>,
}

/// What a parsed endpoint URL is, as a value.
#[verifier::ext_equal]
pub struct UrlView {
    pub text: Seq<char>,
    pub scheme: Seq<char>,
    pub username: Seq<char>,
    pub password: Option<Seq<char>>,
    pub host: Option<Seq<char>>,
    pub port: Option<u16>,
    pub known_port: Option<u16>,
    pub path: Seq<char>,
    pub query: Option<Seq<char>>,
    pub fragment: Option<Seq<char>>,
}

impl View for EndpointUrl {
    type V = UrlView;

    open spec fn view(&self) -> UrlView {
        UrlView {
            text: self.text@,
            scheme: self.scheme@,
            username: self.username@,
            password: self.password.deep_view(),
            host: self.host.deep_view(),
            port: self.port,
            known_port: self.known_port,
            path: self.path@,
            query: self.query.deep_view(),
            fragment: self.fragment.deep_view(),
        }
    }
}

/// What `url::Url::parse` makes of a text.
pub uninterp spec fn parsed_url(raw: Seq<char>) -> Result<UrlView, url::ParseError>;

/// The port that a scheme stands for where a URL names none.
pub open spec fn default_port(scheme: Seq<char>) -> Option<u16> {
    if scheme == "http"@ || scheme == "ws"@ {
        Some(80)
    } else if scheme == "https"@ || scheme == "wss"@ {
        Some(443)
    } else if scheme == "ftp"@ {
        Some(21)
    } else {
        None
    }
}

/// Whether a text starts with another one.
pub open spec fn starts_with(s: Seq<char>, prefix: Seq<char>) -> bool {
    s.len() >= prefix.len() && s.take(prefix.len() as int) == prefix
}

/// Whether a scheme is one of those that the web uses.
pub open spec fn is_web_scheme(scheme: Seq<char>) -> bool {
    scheme == "http"@ || scheme == "https"@ || scheme == "ws"@ || scheme == "wss"@
}

/// What holds of every parsed URL: its text starts with its scheme and a colon, on the web with
/// two slashes as well, and the port in use is the one it names or else its scheme's default.
pub open spec fn is_parsed(u: UrlView) -> bool {
    &&& starts_with(u.text, u.scheme + ":"@)
    &&& is_web_scheme(u.scheme) ==> starts_with(u.text, u.scheme + "://"@)
    &&& u.known_port == (if u.port is Some {
        u.port
    } else {
        default_port(u.scheme)
    })
}

/// The same URL under another scheme.
pub open spec fn rescheme(u: UrlView, scheme: Seq<char>) -> UrlView {
    UrlView { text: scheme + u.text.skip(u.scheme.len() as int), scheme, ..u }
}

/// Whether a URL of scheme `from` is upgraded to scheme `to` when it is used for WebSockets.
pub open spec fn upgrades(from: Seq<char>, to: Seq<char>) -> bool {
    ||| from == "http"@ && to == "ws"@
    ||| from == "https"@ && to == "wss"@
}

/// The URL as a WebSocket uses it: `http` is `ws`, `https` is `wss`, all else stays.
pub open spec fn upgraded(u: UrlView) -> UrlView {
    if u.scheme == "http"@ {
        rescheme(u, "ws"@)
    } else if u.scheme == "https"@ {
        rescheme(u, "wss"@)
    } else {
        u
    }
}

/// Whether a URL is as a WebSocket uses it: its scheme is neither `http` nor `https`.
pub open spec fn is_upgraded(u: UrlView) -> bool {
    u.scheme != "http"@ && u.scheme != "https"@
}

/// What came of parsing a URL, as a value.
pub open spec fn outcome(r: Result<EndpointUrl, url::ParseError>) -> Result<
    UrlView,
    url::ParseError,
> {
    match r {
        Ok(u) => Ok(u@),
        Err(e) => Err(e),
    }
}

/// Whether two texts that differ in their schemes alone were parsed alike: both are URLs that
/// differ in the scheme alone, or neither is one, but for one that only the shorter scheme keeps
/// below the four gigabytes that the parser can hold.
pub open spec fn same_but_for_scheme(
    longer: Result<UrlView, url::ParseError>,
    shorter: Result<UrlView, url::ParseError>,
    from: Seq<char>,
    to: Seq<char>,
) -> bool {
    match longer {
        Ok(u) => u.scheme == from && shorter == Ok::<UrlView, url::ParseError>(rescheme(u, to)),
        Err(_) => match shorter {
            Ok(u) => u.scheme == to && is_parsed(u) && u.text.len() + 2 > u32::MAX,
            Err(_) => true,
        },
    }
}

/// Whether a text of scheme `http` or `https` was parsed as the same text of scheme `ws` or `wss`
/// is.
pub open spec fn parsed_like_websocket(
    raw: Seq<char>,
    parsed: Result<UrlView, url::ParseError>,
) -> bool {
    &&& forall|rest: Seq<char>|
        raw == #[trigger] ("http://"@ + rest) ==> same_but_for_scheme(
            parsed,
            parsed_url("ws://"@ + rest),
            "http"@,
            "ws"@,
        )
    &&& forall|rest: Seq<char>|
        raw == #[trigger] ("https://"@ + rest) ==> same_but_for_scheme(
            parsed,
            parsed_url("wss://"@ + rest),
            "https"@,
            "wss"@,
        )
}

/// Calls `url::Url::parse` and reads the parts of the URL.
///
/// Trusted: the outcome is a function of the text alone. Of a URL that was parsed, `as_str`
/// starts with `scheme` and a colon, for the schemes of the web with two slashes as well, and
/// `port_or_known_default` is `port` or else the default of the five schemes that have one.
/// `http` and `ws`, and `https` and `wss`, are of one type and have one default port, which is
/// all that the parser asks of them: it parses what follows them alike.
#[verifier::external_body]
fn read_url(raw: &str) -> (r: Result<EndpointUrl, url::ParseError>)
    ensures
        parsed_url(raw@) == outcome(r),
        r is Ok ==> is_parsed(r->Ok_0@),
        parsed_like_websocket(raw@, outcome(r)),
{
    let u = Url::parse(raw)?;
    Ok(EndpointUrl {
        text: u.as_str().to_owned(),
        scheme: u.scheme().to_owned(),
        username: u.username().to_owned(),
        password: u.password().map(str::to_owned),
        host: u.host_str().map(str::to_owned),
        port: u.port(),
        known_port: u.port_or_known_default(),
        path: u.path().to_owned(),
        query: u.query().map(str::to_owned),
        fragment: u.fragment().map(str::to_owned),
    })
}

/// Calls `url::Url::set_scheme` on the URL that `raw` denotes and reads the parts of the URL.
///
/// Trusted: from `http` to `ws` and from `https` to `wss` the call succeeds, and it replaces the
/// scheme and nothing else; the default port is the same on both sides, and a parsed URL never
/// names it.
#[verifier::external_body]
fn read_url_with_scheme(raw: &str, scheme: &str) -> (r: Option<EndpointUrl>)
    requires
        parsed_url(raw@) is Ok,
        upgrades(parsed_url(raw@)->Ok_0.scheme, scheme@),
    ensures
        r is Some,
        r->Some_0@ == rescheme(parsed_url(raw@)->Ok_0, scheme@),
{
    let mut u = Url::parse(raw).ok()?;
    u.set_scheme(scheme).ok()?;
    Some(EndpointUrl {
        text: u.as_str().to_owned(),
        scheme: u.scheme().to_owned(),
        username: u.username().to_owned(),
        password: u.password().map(str::to_owned),
        host: u.host_str().map(str::to_owned),
        port: u.port(),
        known_port: u.port_or_known_default(),
        path: u.path().to_owned(),
        query: u.query().map(str::to_owned),
        fragment: u.fragment().map(str::to_owned),
    })
}

/// Parses an endpoint.
pub fn parse_endpoint_url(raw: &str) -> (r: Result<EndpointUrl, CliError<String>>)
    ensures
        match parsed_url(raw@) {
            Ok(u) => r is Ok && r->Ok_0@ == u && is_parsed(u),
            Err(source) => r is Err && r->Err_0@ == (CliError::InvalidUrl { raw: raw@, source }),
        },
        parsed_like_websocket(raw@, parsed_url(raw@)),
{
    match read_url(raw) {
        Ok(u) => Ok(u),
        Err(source) => Err(CliError::InvalidUrl { raw: raw.to_owned(), source }),
    }
}

/// Gives the URL that `raw` denotes the scheme that it is upgraded to.
fn with_scheme(raw: &str, scheme: &str) -> (r: EndpointUrl)
    requires
        parsed_url(raw@) is Ok,
        upgrades(parsed_url(raw@)->Ok_0.scheme, scheme@),
    ensures
        r@ == rescheme(parsed_url(raw@)->Ok_0, scheme@),
{
    read_url_with_scheme(raw, scheme).unwrap()
}

/// Parses an endpoint as a WebSocket uses it: `http` is taken for `ws`, and `https` for `wss`.
pub fn parse_upgraded_url(raw: &str) -> (r: Result<EndpointUrl, CliError<String>>)
    ensures
        match parsed_url(raw@) {
            Ok(u) => {
                &&& r is Ok
                &&& r->Ok_0@ == upgraded(u)
                &&& is_upgraded(upgraded(u))
                &&& is_parsed(u)
                &&& is_parsed(upgraded(u))
            },
            Err(source) => r is Err && r->Err_0@ == (CliError::InvalidUrl { raw: raw@, source }),
        },
        parsed_like_websocket(raw@, parsed_url(raw@)),
{
    let url = parse_endpoint_url(raw)?;
    proof {
        lemma_upgraded(url@);
    }
    if same_text(&url.scheme, "http") {
        Ok(with_scheme(raw, "ws"))
    } else if same_text(&url.scheme, "https") {
        Ok(with_scheme(raw, "wss"))
    } else {
        Ok(url)
    }
}

/// An upgrade leaves neither `http` nor `https`, and keeps what holds of a parsed URL.
pub proof fn lemma_upgraded(u: UrlView)
    ensures
        is_upgraded(upgraded(u)),
        is_parsed(u) ==> is_parsed(upgraded(u)),
{
    reveal_strlit("http");
    reveal_strlit("ws");
    reveal_strlit("https");
    reveal_strlit("wss");
    reveal_strlit("ftp");
    reveal_strlit(":");
    reveal_strlit("://");
    let v = upgraded(u);
    assert("ws"@.len() == 2 && "wss"@.len() == 3);
    if is_parsed(u) && v != u {
        let n = u.scheme.len() as int;
        let m = v.scheme.len() as int;
        assert(u.text.take(n + 3) == u.scheme + "://"@);
        assert(u.text[n] == (u.scheme + "://"@)[n]);
        assert(u.text[n + 1] == (u.scheme + "://"@)[n + 1]);
        assert(u.text[n + 2] == (u.scheme + "://"@)[n + 2]);
        assert(v.text.take(m + 3) == v.scheme + "://"@);
        assert(v.text.take(m + 1) == v.scheme + ":"@);
    }
}

/// An upgrade turns `http` into `ws` and `https` into `wss`, in the scheme and at the start of the
/// text, and leaves all that follows, all other parts and all other URLs as they are.
pub proof fn law_upgrade_changes_the_scheme_alone(u: UrlView)
    ensures
        ({
            let v = upgraded(u);
            &&& v.scheme == (if u.scheme == "http"@ {
                "ws"@
            } else if u.scheme == "https"@ {
                "wss"@
            } else {
                u.scheme
            })
            &&& u.scheme != "http"@ && u.scheme != "https"@ ==> v.text == u.text
            &&& u.scheme == "http"@ || u.scheme == "https"@ ==> {
                &&& v.text.take(v.scheme.len() as int) == v.scheme
                &&& v.text.skip(v.scheme.len() as int) == u.text.skip(u.scheme.len() as int)
            }
            &&& v.username == u.username
            &&& v.password == u.password
            &&& v.host == u.host
            &&& v.port == u.port
            &&& v.known_port == u.known_port
            &&& v.path == u.path
            &&& v.query == u.query
            &&& v.fragment == u.fragment
        }),
{
    reveal_strlit("http");
    reveal_strlit("https");
    assert("http"@.len() == 4 && "https"@.len() == 5);
    let v = upgraded(u);
    if u.scheme == "http"@ || u.scheme == "https"@ {
        assert(v.text.take(v.scheme.len() as int) == v.scheme);
        assert(v.text.skip(v.scheme.len() as int) == u.text.skip(u.scheme.len() as int));
    }
}

/// The web and its WebSockets have the same default ports, and TCP has none.
pub proof fn law_default_ports()
    ensures
        default_port("http"@) == Some(80u16),
        default_port("ws"@) == Some(80u16),
        default_port("https"@) == Some(443u16),
        default_port("wss"@) == Some(443u16),
        default_port("tcp"@) is None,
{
    reveal_strlit("http");
    reveal_strlit("https");
    reveal_strlit("ws");
    reveal_strlit("wss");
    reveal_strlit("ftp");
    reveal_strlit("tcp");
    assert("https"@.len() == 5 && "http"@.len() == 4 && "wss"@.len() == 3 && "ws"@.len() == 2);
    assert("wss"@[0] == 'w' && "tcp"@[0] == 't' && "ftp"@[0] == 'f');
}

/// A URL as a value has all the parts that the URL has.
pub proof fn law_url_views(u: EndpointUrl)
    ensures
        u@.text == u.text@,
        u@.scheme == u.scheme@,
        u@.username == u.username@,
        u@.password == u.password.deep_view(),
        u@.host == u.host.deep_view(),
        u@.port == u.port,
        u@.known_port == u.known_port,
        u@.path == u.path@,
        u@.query == u.query.deep_view(),
        u@.fragment == u.fragment.deep_view(),
{
}

} // verus!
