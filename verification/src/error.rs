//! What can be wrong with a command line.

use crate::ssh_forward::ForwardKind;
use crate::text::concat3;
use vstd::prelude::*;

verus! {

/// The error of the URL parser; it is carried, never looked into.
#[verifier::external_type_specification]
#[verifier::external_body]
pub struct ExUrlParseError(url::ParseError);

/// Why a command line was refused. `T` is the type of the texts inside: `String` in running
/// code, `Seq<char>` in contracts.
#[derive(Debug)]
pub enum CliError<T> {
    /// An endpoint is no URL.
    InvalidUrl { raw: T, source: url::ParseError },
    /// An endpoint carries a user name or a password.
    UserInfo { raw: T },
    /// An endpoint carries a fragment.
    Fragment { raw: T },
    /// An endpoint names no host.
    HostRequired { raw: T },
    /// An endpoint names no port and its scheme has no default.
    PortRequired { raw: T },
    /// A TCP endpoint carries more than a host and a port.
    TcpShape { raw: T },
    /// A listening WebSocket endpoint carries a query.
    QueryNotSupported { url: T },
    /// A listening endpoint asks for TLS.
    TlsListener,
    /// The scheme of a `--to` endpoint is unknown.
    UnsupportedTo { scheme: T },
    /// The scheme of a `--from` endpoint is unknown.
    UnsupportedFrom { scheme: T },
    /// A token was given, but neither side is a WebSocket.
    TokenWithoutWebSocket,
    /// The two endpoints cannot be bridged.
    UnsupportedPair,
    /// Neither `-L` nor `-R` was given.
    NoForwards,
    /// A forward is not of the form `[bind_host:]bind_port:remote_host:remote_port`.
    InvalidForward { kind: ForwardKind, spec: T },
    /// Two forwards of one kind listen on one address.
    DuplicateForward { kind: ForwardKind, addr: T },
}

impl View for CliError<String> {
    type V = CliError<Seq<char>>;

    open spec fn view(&self) -> CliError<Seq<char>> {
        match *self {
            CliError::InvalidUrl { raw, source } => CliError::InvalidUrl { raw: raw@, source },
            CliError::UserInfo { raw } => CliError::UserInfo { raw: raw@ },
            CliError::Fragment { raw } => CliError::Fragment { raw: raw@ },
            CliError::HostRequired { raw } => CliError::HostRequired { raw: raw@ },
            CliError::PortRequired { raw } => CliError::PortRequired { raw: raw@ },
            CliError::TcpShape { raw } => CliError::TcpShape { raw: raw@ },
            CliError::QueryNotSupported { url } => CliError::QueryNotSupported { url: url@ },
            CliError::TlsListener => CliError::TlsListener,
            CliError::UnsupportedTo { scheme } => CliError::UnsupportedTo { scheme: scheme@ },
            CliError::UnsupportedFrom { scheme } => CliError::UnsupportedFrom { scheme: scheme@ },
            CliError::TokenWithoutWebSocket => CliError::TokenWithoutWebSocket,
            CliError::UnsupportedPair => CliError::UnsupportedPair,
            CliError::NoForwards => CliError::NoForwards,
            CliError::InvalidForward { kind, spec } => CliError::InvalidForward {
                kind,
                spec: spec@,
            },
            CliError::DuplicateForward { kind, addr } => CliError::DuplicateForward {
                kind,
                addr: addr@,
            },
        }
    }
}

impl CliError<Seq<char>> {
    /// The sentence that tells a user what was wrong.
    pub open spec fn sentence(self) -> Seq<char> {
        match self {
            CliError::InvalidUrl { raw, source } => "Invalid endpoint URL '"@ + raw + "'"@,
            CliError::UserInfo { raw } => "Invalid endpoint '"@ + raw
                + "': user info is not supported"@,
            CliError::Fragment { raw } => "Invalid endpoint '"@ + raw
                + "': fragments are not supported"@,
            CliError::HostRequired { raw } => "Invalid endpoint '"@ + raw
                + "': host is required"@,
            CliError::PortRequired { raw } => "Invalid endpoint '"@ + raw
                + "': port is required"@,
            CliError::TcpShape { raw } => "Invalid TCP endpoint '"@ + raw
                + "': expected tcp://host:port"@,
            CliError::QueryNotSupported { url } => "Invalid --to endpoint '"@ + url
                + "': query is not supported"@,
            CliError::TlsListener =>
                "wss/https --to endpoints require TLS server support and are not supported yet"@,
            CliError::UnsupportedTo { scheme } => "Unsupported --to endpoint scheme '"@ + scheme
                + "': currently supports only tcp://, ws://, and http://"@,
            CliError::UnsupportedFrom { scheme } => "Unsupported --from endpoint scheme '"@
                + scheme
                + "': currently supports only tcp://, ws://, wss://, http://, and https://"@,
            CliError::TokenWithoutWebSocket =>
                "--token is only supported when a WebSocket endpoint is used"@,
            CliError::UnsupportedPair =>
                "bridge currently supports --to tcp://... --from tcp://..., --to tcp://... --from ws(s)://..., or --to ws/http://... --from tcp://..."@,
            CliError::NoForwards => "at least one -L or -R forward is required"@,
            CliError::InvalidForward { kind, spec } => (match kind {
                ForwardKind::Local => "Invalid local forward (-L) '"@,
                ForwardKind::Remote => "Invalid remote forward (-R) '"@,
            }) + spec + "': expected [bind_host:]bind_port:remote_host:remote_port"@,
            CliError::DuplicateForward { kind, addr } => (match kind {
                ForwardKind::Local => "duplicate local forward (-L) bind address "@,
                ForwardKind::Remote => "duplicate remote forward (-R) bind address "@,
            }) + addr,
        }
    }
}

impl CliError<String> {
    /// The sentence that tells a user what was wrong.
    pub fn message(&self) -> (r: String)
        ensures
            r@ == self@.sentence(),
    {
        match self {
            CliError::InvalidUrl { raw, source: _ } => concat3("Invalid endpoint URL '", raw, "'"),
            CliError::UserInfo { raw } => concat3(
                "Invalid endpoint '",
                raw,
                "': user info is not supported",
            ),
            CliError::Fragment { raw } => concat3(
                "Invalid endpoint '",
                raw,
                "': fragments are not supported",
            ),
            CliError::HostRequired { raw } => concat3(
                "Invalid endpoint '",
                raw,
                "': host is required",
            ),
            CliError::PortRequired { raw } => concat3(
                "Invalid endpoint '",
                raw,
                "': port is required",
            ),
            CliError::TcpShape { raw } => concat3(
                "Invalid TCP endpoint '",
                raw,
                "': expected tcp://host:port",
            ),
            CliError::QueryNotSupported { url } => concat3(
                "Invalid --to endpoint '",
                url,
                "': query is not supported",
            ),
            CliError::TlsListener =>
                "wss/https --to endpoints require TLS server support and are not supported yet".to_owned(),
            CliError::UnsupportedTo { scheme } => concat3(
                "Unsupported --to endpoint scheme '",
                scheme,
                "': currently supports only tcp://, ws://, and http://",
            ),
            CliError::UnsupportedFrom { scheme } => concat3(
                "Unsupported --from endpoint scheme '",
                scheme,
                "': currently supports only tcp://, ws://, wss://, http://, and https://",
            ),
            CliError::TokenWithoutWebSocket =>
                "--token is only supported when a WebSocket endpoint is used".to_owned(),
            CliError::UnsupportedPair =>
                "bridge currently supports --to tcp://... --from tcp://..., --to tcp://... --from ws(s)://..., or --to ws/http://... --from tcp://...".to_owned(),
            CliError::NoForwards => "at least one -L or -R forward is required".to_owned(),
            CliError::InvalidForward { kind, spec } => {
                let before = match kind {
                    ForwardKind::Local => "Invalid local forward (-L) '",
                    ForwardKind::Remote => "Invalid remote forward (-R) '",
                };
                concat3(
                    before,
                    spec,
                    "': expected [bind_host:]bind_port:remote_host:remote_port",
                )
            },
            CliError::DuplicateForward { kind, addr } => {
                let before = match kind {
                    ForwardKind::Local => "duplicate local forward (-L) bind address ",
                    ForwardKind::Remote => "duplicate remote forward (-R) bind address ",
                };
                before.to_owned().concat(addr)
            },
        }
    }
}

/// Whether a sentence is made of a text, words before it and words behind it.
pub open spec fn says(sentence: Seq<char>, before: Seq<char>, text: Seq<char>, after: Seq<char>) -> bool {
    &&& sentence.len() == before.len() + text.len() + after.len()
    &&& sentence.take(before.len() as int) == before
    &&& sentence.subrange(before.len() as int, (before.len() + text.len()) as int) == text
    &&& sentence.skip((before.len() + text.len()) as int) == after
}

/// Words, a text and words make a sentence.
proof fn lemma_says(before: Seq<char>, text: Seq<char>, after: Seq<char>)
    ensures
        says(before + text + after, before, text, after),
{
    let s = before + text + after;
    assert(s.take(before.len() as int) == before);
    assert(s.subrange(before.len() as int, (before.len() + text.len()) as int) == text);
    assert(s.skip((before.len() + text.len()) as int) == after);
}

/// Every sentence about an endpoint or a forward quotes it as it was typed, character for
/// character, between words that say what was wrong with it.
pub proof fn law_sentences_quote_what_was_typed(t: Seq<char>, source: url::ParseError)
    ensures
        says(
            (CliError::InvalidUrl { raw: t, source }).sentence(),
            "Invalid endpoint URL '"@,
            t,
            "'"@,
        ),
        says(
            (CliError::UserInfo { raw: t }).sentence(),
            "Invalid endpoint '"@,
            t,
            "': user info is not supported"@,
        ),
        says(
            (CliError::Fragment { raw: t }).sentence(),
            "Invalid endpoint '"@,
            t,
            "': fragments are not supported"@,
        ),
        says(
            (CliError::HostRequired { raw: t }).sentence(),
            "Invalid endpoint '"@,
            t,
            "': host is required"@,
        ),
        says(
            (CliError::PortRequired { raw: t }).sentence(),
            "Invalid endpoint '"@,
            t,
            "': port is required"@,
        ),
        says(
            (CliError::TcpShape { raw: t }).sentence(),
            "Invalid TCP endpoint '"@,
            t,
            "': expected tcp://host:port"@,
        ),
        says(
            (CliError::QueryNotSupported { url: t }).sentence(),
            "Invalid --to endpoint '"@,
            t,
            "': query is not supported"@,
        ),
        says(
            (CliError::UnsupportedTo { scheme: t }).sentence(),
            "Unsupported --to endpoint scheme '"@,
            t,
            "': currently supports only tcp://, ws://, and http://"@,
        ),
        says(
            (CliError::UnsupportedFrom { scheme: t }).sentence(),
            "Unsupported --from endpoint scheme '"@,
            t,
            "': currently supports only tcp://, ws://, wss://, http://, and https://"@,
        ),
        says(
            (CliError::InvalidForward { kind: ForwardKind::Local, spec: t }).sentence(),
            "Invalid local forward (-L) '"@,
            t,
            "': expected [bind_host:]bind_port:remote_host:remote_port"@,
        ),
        says(
            (CliError::InvalidForward { kind: ForwardKind::Remote, spec: t }).sentence(),
            "Invalid remote forward (-R) '"@,
            t,
            "': expected [bind_host:]bind_port:remote_host:remote_port"@,
        ),
        says(
            (CliError::DuplicateForward { kind: ForwardKind::Local, addr: t }).sentence(),
            "duplicate local forward (-L) bind address "@,
            t,
            Seq::empty(),
        ),
        says(
            (CliError::DuplicateForward { kind: ForwardKind::Remote, addr: t }).sentence(),
            "duplicate remote forward (-R) bind address "@,
            t,
            Seq::empty(),
        ),
{
    lemma_says("Invalid endpoint URL '"@, t, "'"@);
    lemma_says("Invalid endpoint '"@, t, "': user info is not supported"@);
    lemma_says("Invalid endpoint '"@, t, "': fragments are not supported"@);
    lemma_says("Invalid endpoint '"@, t, "': host is required"@);
    lemma_says("Invalid endpoint '"@, t, "': port is required"@);
    lemma_says("Invalid TCP endpoint '"@, t, "': expected tcp://host:port"@);
    lemma_says("Invalid --to endpoint '"@, t, "': query is not supported"@);
    lemma_says(
        "Unsupported --to endpoint scheme '"@,
        t,
        "': currently supports only tcp://, ws://, and http://"@,
    );
    lemma_says(
        "Unsupported --from endpoint scheme '"@,
        t,
        "': currently supports only tcp://, ws://, wss://, http://, and https://"@,
    );
    lemma_says(
        "Invalid local forward (-L) '"@,
        t,
        "': expected [bind_host:]bind_port:remote_host:remote_port"@,
    );
    lemma_says(
        "Invalid remote forward (-R) '"@,
        t,
        "': expected [bind_host:]bind_port:remote_host:remote_port"@,
    );
    let local = "duplicate local forward (-L) bind address "@;
    let remote = "duplicate remote forward (-R) bind address "@;
    lemma_says(local, t, Seq::empty());
    lemma_says(remote, t, Seq::empty());
    assert(local + t + Seq::empty() == local + t);
    assert(remote + t + Seq::empty() == remote + t);
}

/// An error as a value is the same error, about the same text.
pub proof fn law_error_views(t: String, kind: ForwardKind, source: url::ParseError)
    ensures
        (CliError::InvalidUrl { raw: t, source })@ == (CliError::InvalidUrl { raw: t@, source }),
        (CliError::<String>::UserInfo { raw: t })@ == (CliError::UserInfo { raw: t@ }),
        (CliError::<String>::Fragment { raw: t })@ == (CliError::Fragment { raw: t@ }),
        (CliError::<String>::HostRequired { raw: t })@ == (CliError::HostRequired { raw: t@ }),
        (CliError::<String>::PortRequired { raw: t })@ == (CliError::PortRequired { raw: t@ }),
        (CliError::<String>::TcpShape { raw: t })@ == (CliError::TcpShape { raw: t@ }),
        (CliError::<String>::QueryNotSupported { url: t })@ == (CliError::QueryNotSupported {
            url: t@,
        }),
        (CliError::<String>::UnsupportedTo { scheme: t })@ == (CliError::UnsupportedTo {
            scheme: t@,
        }),
        (CliError::<String>::UnsupportedFrom { scheme: t })@ == (CliError::UnsupportedFrom {
            scheme: t@,
        }),
        (CliError::<String>::InvalidForward { kind, spec: t })@ == (CliError::InvalidForward {
            kind,
            spec: t@,
        }),
        (CliError::<String>::DuplicateForward { kind, addr: t })@ == (CliError::DuplicateForward {
            kind,
            addr: t@,
        }),
{
}

} // verus!
