//! Port forwards, as `-L` and `-R` give them.

use crate::error::CliError;
use crate::text::{chars_of, concat3, decimal_text, find_char, has_char, parse_port, starts_with_char};
use vstd::prelude::*;

verus! {

/// Which side listens.
#[derive(Debug, Clone, Copy, PartialEq, Eq, Structural)]
pub enum ForwardKind {
    /// `-L`: this machine listens, the SSH server connects to the target.
    Local,
    /// `-R`: the SSH server listens, this machine connects to the target.
    Remote,
}

/// One forward: where to listen, and where to connect.
#[derive(Debug)]
pub struct SshForward {
    pub kind: ForwardKind,
    pub bind_host: String,
    pub bind_port: u16,
    pub dest_host: String,
    pub dest_port: u16,
}

/// What a forward is, as a value.
#[verifier::ext_equal]
pub struct ForwardView {
    pub kind: ForwardKind,
    pub bind_host: Seq<char>,
    pub bind_port: u16,
    pub dest_host: Seq<char>,
    pub dest_port: u16,
}

impl View for SshForward {
    type V = ForwardView;

    open spec fn view(&self) -> ForwardView {
        ForwardView {
            kind: self.kind,
            bind_host: self.bind_host@,
            bind_port: self.bind_port,
            dest_host: self.dest_host@,
            dest_port: self.dest_port,
        }
    }
}

impl DeepView for SshForward {
    type V = ForwardView;

    open spec fn deep_view(&self) -> ForwardView {
        self@
    }
}

impl Clone for SshForward {
    fn clone(&self) -> (r: Self)
        ensures
            r@ == self@,
    {
        SshForward {
            kind: self.kind,
            bind_host: self.bind_host.clone(),
            bind_port: self.bind_port,
            dest_host: self.dest_host.clone(),
            dest_port: self.dest_port,
        }
    }
}

/// A host and a port in one text; a host with colons in it is put in brackets.
pub open spec fn host_port(host: Seq<char>, port: u16) -> Seq<char> {
    if host.contains(':') && host[0] != '[' {
        "["@ + host + "]:"@ + crate::text::decimal(port as nat)
    } else {
        host + ":"@ + crate::text::decimal(port as nat)
    }
}

/// Where the first field of a forward ends: at its first colon outside of brackets.
pub open spec fn field_end(s: Seq<char>) -> int {
    let close = crate::text::index_from(s, ']', 0);
    if s.len() > 0 && s[0] == '[' && close < s.len() {
        crate::text::index_from(s, ':', close)
    } else {
        crate::text::index_from(s, ':', 0)
    }
}

/// The colon-separated fields of a forward.
pub open spec fn fields(s: Seq<char>) -> Seq<Seq<char>>
    decreases s.len(),
{
    let end = field_end(s);
    if 0 <= end < s.len() {
        seq![s.take(end)] + fields(s.skip(end + 1))
    } else {
        seq![s]
    }
}

/// The host that a field names: a bracketed address without its brackets, or the field itself.
pub open spec fn host_value(field: Seq<char>) -> Option<Seq<char>> {
    if field.len() == 0 {
        None
    } else if field[0] == '[' {
        let inner = field.subrange(1, field.len() - 1);
        if field.len() >= 3 && field.last() == ']' && !inner.contains('[') && !inner.contains(']') {
            Some(inner)
        } else {
            None
        }
    } else {
        Some(field)
    }
}

/// The forward that a host to listen on and three fields denote.
///
/// A port of 0 to listen on leaves the choice to the SSH server, so only `-R` can have it; no
/// target has port 0.
pub open spec fn forward_of(
    kind: ForwardKind,
    bind_host: Option<Seq<char>>,
    bind_port: Seq<char>,
    dest_host: Seq<char>,
    dest_port: Seq<char>,
) -> Option<ForwardView> {
    match (
        bind_host,
        crate::text::port_value(bind_port),
        host_value(dest_host),
        crate::text::port_value(dest_port),
    ) {
        (Some(bind_host), Some(bind_port), Some(dest_host), Some(dest_port)) => if dest_port != 0 && (
        bind_port != 0 || kind == ForwardKind::Remote) {
            Some(ForwardView { kind, bind_host, bind_port, dest_host, dest_port })
        } else {
            None
        },
        _ => None,
    }
}

/// The forward that `[bind_host:]bind_port:remote_host:remote_port` denotes.
/// Where `bind_host` is left out, it is `127.0.0.1`.
pub open spec fn forward_value(s: Seq<char>, kind: ForwardKind) -> Option<ForwardView> {
    let f = fields(s);
    if f.len() == 4 {
        forward_of(kind, host_value(f[0]), f[1], f[2], f[3])
    } else if f.len() == 3 {
        forward_of(kind, Some("127.0.0.1"@), f[0], f[1], f[2])
    } else {
        None
    }
}

/// Finds where the first field of a forward ends.
fn find_field_end(chars: &Vec<char>) -> (r: usize)
    ensures
        r == field_end(chars@),
        r <= chars@.len(),
{
    let close = find_char(chars, ']', 0);
    if chars.len() > 0 && chars[0] == '[' && close < chars.len() {
        find_char(chars, ':', close)
    } else {
        find_char(chars, ':', 0)
    }
}

/// Splits a forward into its fields.
fn split_fields(spec: &str) -> (r: Vec<String>)
    ensures
        r.deep_view() == fields(spec@),
{
    let mut out: Vec<String> = Vec::new();
    let mut rest: &str = spec;
    assert(out.deep_view() + fields(rest@) == fields(spec@));
    loop
        invariant
            out.deep_view() + fields(rest@) == fields(spec@),
        decreases rest@.len(),
    {
        let chars = chars_of(rest);
        let end = find_field_end(&chars);
        let ghost before = out.deep_view();
        if end >= chars.len() {
            out.push(rest.to_owned());
            assert(out.deep_view() == before.push(rest@));
            assert(before + seq![rest@] == before.push(rest@));
            return out;
        }
        let field = rest.substring_char(0, end);
        let next = rest.substring_char(end + 1, chars.len());
        out.push(field.to_owned());
        proof {
            assert(field@ == rest@.take(end as int));
            assert(next@ == rest@.skip(end as int + 1));
            assert(out.deep_view() == before.push(field@));
            assert(before + (seq![field@] + fields(next@)) == before.push(field@) + fields(next@));
        }
        rest = next;
    }
}

/// Reads the host that a field names.
fn parse_host(field: &str) -> (r: Option<String>)
    ensures
        r.deep_view() == host_value(field@),
{
    if field.is_empty() {
        return None;
    }
    if !starts_with_char(field, '[') {
        return Some(field.to_owned());
    }
    let n = field.unicode_len();
    if n < 3 || field.get_char(n - 1) != ']' {
        return None;
    }
    let inner = field.substring_char(1, n - 1);
    if has_char(inner, '[') || has_char(inner, ']') {
        return None;
    }
    Some(inner.to_owned())
}

impl SshForward {
    /// Builds a forward out of its fields.
    fn from_fields(
        kind: ForwardKind,
        bind_host: Option<String>,
        bind_port: &str,
        dest_host: &str,
        dest_port: &str,
    ) -> (r: Option<SshForward>)
        ensures
            r.deep_view() == forward_of(
                kind,
                bind_host.deep_view(),
                bind_port@,
                dest_host@,
                dest_port@,
            ),
    {
        match (bind_host, parse_port(bind_port), parse_host(dest_host), parse_port(dest_port)) {
            (Some(bind_host), Some(bind_port), Some(dest_host), Some(dest_port)) => {
                let listens = match kind {
                    ForwardKind::Local => bind_port != 0,
                    ForwardKind::Remote => true,
                };
                if dest_port != 0 && listens {
                    Some(SshForward { kind, bind_host, bind_port, dest_host, dest_port })
                } else {
                    None
                }
            },
            _ => None,
        }
    }

    /// Reads `[bind_host:]bind_port:remote_host:remote_port`; IPv6 addresses stand in brackets.
    pub fn parse(spec: &str, kind: ForwardKind) -> (r: Result<SshForward, CliError<String>>)
        ensures
            match forward_value(spec@, kind) {
                Some(f) => r is Ok && r->Ok_0@ == f,
                None => r is Err && r->Err_0@ == (CliError::InvalidForward { kind, spec: spec@ }),
            },
    {
        let f = split_fields(spec);
        let ghost g = f.deep_view();
        assert(g.len() == f@.len());
        assert(forall|i: int| 0 <= i < f@.len() ==> g[i] == f@[i]@);
        let forward = if f.len() == 4 {
            Self::from_fields(kind, parse_host(&f[0]), &f[1], &f[2], &f[3])
        } else if f.len() == 3 {
            Self::from_fields(kind, Some("127.0.0.1".to_owned()), &f[0], &f[1], &f[2])
        } else {
            None
        };
        match forward {
            Some(forward) => Ok(forward),
            None => Err(CliError::InvalidForward { kind, spec: spec.to_owned() }),
        }
    }

    /// A host and a port in one text, as sockets are named: `host:port`, or `[host]:port` where
    /// the host is an IPv6 address.
    pub fn socket_addr(host: &str, port: u16) -> (r: String)
        ensures
            r@ == host_port(host@, port),
    {
        let digits = decimal_text(port as u64);
        if has_char(host, ':') && !starts_with_char(host, '[') {
            concat3("[", host, "]:").concat(&digits)
        } else {
            concat3(host, ":", &digits)
        }
    }
}

/// A host that a forward can name: not empty, not starting with a bracket, and, where it has to
/// stand in brackets because of its colons, free of brackets.
pub open spec fn is_forward_host(host: Seq<char>) -> bool {
    &&& host.len() > 0
    &&& host[0] != '['
    &&& host.contains(':') ==> !host.contains('[') && !host.contains(']')
}

/// A host as it stands in a forward.
spec fn host_field(host: Seq<char>) -> Seq<char> {
    if host.contains(':') {
        "["@ + host + "]"@
    } else {
        host
    }
}

/// A text that is one field: it holds no colon outside of brackets.
spec fn is_field(f: Seq<char>) -> bool {
    ||| (f.len() == 0 || f[0] != '[') && !f.contains(':')
    ||| f.len() >= 2 && f[0] == '[' && f.last() == ']' && !f.subrange(1, f.len() - 1).contains(']')
}

/// A field followed by a colon is the first field of what it starts.
proof fn lemma_field_then(f: Seq<char>, rest: Seq<char>)
    requires
        is_field(f),
    ensures
        fields(f + ":"@ + rest) == seq![f] + fields(rest),
{
    reveal_strlit(":");
    let s = f + ":"@ + rest;
    let n = f.len() as int;
    assert(s[n] == ':');
    assert forall|i: int| 0 <= i < n implies s[i] == f[i] by {}
    if (f.len() == 0 || f[0] != '[') && !f.contains(':') {
        assert forall|i: int| 0 <= i < n implies s[i] != ':' by {
            assert(f.contains(f[i]));
        }
        crate::text::lemma_index_from_is(s, ':', 0, n);
        assert(s[0] != '[');
    } else {
        let inner = f.subrange(1, n - 1);
        assert forall|i: int| 0 <= i < n - 1 implies s[i] != ']' by {
            if i > 0 {
                assert(inner[i - 1] == f[i]);
                assert(inner.contains(f[i]));
            }
        }
        crate::text::lemma_index_from_is(s, ']', 0, n - 1);
        crate::text::lemma_index_from_is(s, ':', n - 1, n);
    }
    assert(field_end(s) == n);
    assert(s.take(n) == f);
    assert(s.skip(n + 1) == rest);
}

/// A field alone is the only field.
proof fn lemma_field_alone(f: Seq<char>)
    requires
        is_field(f),
    ensures
        fields(f) == seq![f],
{
    let n = f.len() as int;
    if (f.len() == 0 || f[0] != '[') && !f.contains(':') {
        assert forall|i: int| 0 <= i < n implies f[i] != ':' by {
            assert(f.contains(f[i]));
        }
        crate::text::lemma_index_from_is(f, ':', 0, n);
    } else {
        let inner = f.subrange(1, n - 1);
        assert forall|i: int| 0 <= i < n - 1 implies f[i] != ']' by {
            if i > 0 {
                assert(inner[i - 1] == f[i]);
                assert(inner.contains(f[i]));
            }
        }
        crate::text::lemma_index_from_is(f, ']', 0, n - 1);
        crate::text::lemma_index_from_is(f, ':', n - 1, n);
    }
}

/// A written host is one field, and reading it gives the host back.
proof fn lemma_host_field(host: Seq<char>)
    requires
        is_forward_host(host),
    ensures
        is_field(host_field(host)),
        host_value(host_field(host)) == Some(host),
{
    if host.contains(':') {
        reveal_strlit("[");
        reveal_strlit("]");
        let f = host_field(host);
        assert(f.subrange(1, f.len() - 1) == host);
    }
}

/// A written port is one field, and reading it gives the port back.
proof fn lemma_port_field(port: u16)
    ensures
        is_field(crate::text::decimal(port as nat)),
        crate::text::port_value(crate::text::decimal(port as nat)) == Some(port),
{
    crate::text::lemma_decimal(port as nat);
    let f = crate::text::decimal(port as nat);
    assert(crate::text::is_digit(f[0]));
    assert(!f.contains(':')) by {
        if f.contains(':') {
            let i = choose|i: int| 0 <= i < f.len() && f[i] == ':';
            assert(crate::text::is_digit(f[i]));
        }
    }
}

/// A written socket address is a written host, a colon and a written port.
proof fn lemma_host_port_fields(host: Seq<char>, port: u16)
    requires
        is_forward_host(host),
    ensures
        host_port(host, port) == host_field(host) + ":"@ + crate::text::decimal(port as nat),
{
    reveal_strlit("]");
    reveal_strlit(":");
    reveal_strlit("]:");
    assert("]:"@ == "]"@ + ":"@);
    assert("["@ + host + "]:"@ + crate::text::decimal(port as nat) == ("["@ + host + "]"@) + ":"@
        + crate::text::decimal(port as nat));
}

/// Joining is associative.
proof fn lemma_rejoin(a: Seq<char>, b: Seq<char>, c: Seq<char>, d: Seq<char>, x: Seq<char>)
    ensures
        (a + x + b) + x + (c + x + d) == a + x + (b + x + (c + x + d)),
{
}

/// Four fields with colons between them.
proof fn lemma_four_fields(a: Seq<char>, b: Seq<char>, c: Seq<char>, d: Seq<char>)
    requires
        is_field(a),
        is_field(b),
        is_field(c),
        is_field(d),
    ensures
        fields((a + ":"@ + b) + ":"@ + (c + ":"@ + d)) == seq![a, b, c, d],
{
    lemma_rejoin(a, b, c, d, ":"@);
    lemma_field_then(a, b + ":"@ + (c + ":"@ + d));
    lemma_field_then(b, c + ":"@ + d);
    lemma_field_then(c, d);
    lemma_field_alone(d);
    assert(seq![a] + (seq![b] + (seq![c] + seq![d])) == seq![a, b, c, d]);
}

/// Writing a forward's two socket addresses with a colon between them and reading the text gives
/// the forward back.
pub proof fn law_forward_round_trip(f: ForwardView)
    requires
        is_forward_host(f.bind_host),
        is_forward_host(f.dest_host),
        f.dest_port != 0,
        f.bind_port != 0 || f.kind == ForwardKind::Remote,
    ensures
        forward_value(
            host_port(f.bind_host, f.bind_port) + ":"@ + host_port(f.dest_host, f.dest_port),
            f.kind,
        ) == Some(f),
{
    let a = host_field(f.bind_host);
    let b = crate::text::decimal(f.bind_port as nat);
    let c = host_field(f.dest_host);
    let d = crate::text::decimal(f.dest_port as nat);
    lemma_host_field(f.bind_host);
    lemma_host_field(f.dest_host);
    lemma_port_field(f.bind_port);
    lemma_port_field(f.dest_port);
    lemma_host_port_fields(f.bind_host, f.bind_port);
    lemma_host_port_fields(f.dest_host, f.dest_port);
    lemma_four_fields(a, b, c, d);
}

/// A forward without a host to listen on listens on `127.0.0.1` only.
pub proof fn law_default_bind_host(kind: ForwardKind, bind_port: u16, dest_host: Seq<char>, dest_port: u16)
    requires
        is_forward_host(dest_host),
        dest_port != 0,
        bind_port != 0 || kind == ForwardKind::Remote,
    ensures
        forward_value(
            crate::text::decimal(bind_port as nat) + ":"@ + host_port(dest_host, dest_port),
            kind,
        ) == Some(
            ForwardView { kind, bind_host: "127.0.0.1"@, bind_port, dest_host, dest_port },
        ),
{
    let b = crate::text::decimal(bind_port as nat);
    let c = host_field(dest_host);
    let d = crate::text::decimal(dest_port as nat);
    lemma_host_field(dest_host);
    lemma_port_field(bind_port);
    lemma_port_field(dest_port);
    lemma_host_port_fields(dest_host, dest_port);
    lemma_field_then(b, c + ":"@ + d);
    lemma_field_then(c, d);
    lemma_field_alone(d);
    assert(fields(b + ":"@ + (c + ":"@ + d)) == seq![b, c, d]);
}

/// A field that does not start with a bracket holds no colon.
proof fn lemma_fields_have_no_colon(s: Seq<char>, i: int)
    requires
        0 <= i < fields(s).len(),
    ensures
        fields(s)[i].len() > 0 && fields(s)[i][0] != '[' ==> !fields(s)[i].contains(':'),
    decreases s.len(),
{
    let close = crate::text::index_from(s, ']', 0);
    let end = field_end(s);
    crate::text::lemma_index_from(s, ']', 0);
    crate::text::lemma_index_from(s, ':', 0);
    if close < s.len() {
        crate::text::lemma_index_from(s, ':', close);
    }
    if end < s.len() {
        if i > 0 {
            lemma_fields_have_no_colon(s.skip(end + 1), i - 1);
            assert(fields(s)[i] == fields(s.skip(end + 1))[i - 1]);
        } else {
            assert(fields(s)[0] == s.take(end));
        }
    }
}

/// A host that was read can be written.
proof fn lemma_host_value_is_forward_host(s: Seq<char>, i: int)
    requires
        0 <= i < fields(s).len(),
        host_value(fields(s)[i]) is Some,
    ensures
        is_forward_host(host_value(fields(s)[i])->Some_0),
{
    lemma_fields_have_no_colon(s, i);
    let f = fields(s)[i];
    if f[0] == '[' {
        let inner = f.subrange(1, f.len() - 1);
        assert(inner.contains(inner[0]));
    }
}

/// Every forward that is read can be written: its hosts and ports are fit to be, and what is
/// written reads as the same forward, however the first text was spelled.
pub proof fn law_forward_normal_form(s: Seq<char>, kind: ForwardKind)
    requires
        forward_value(s, kind) is Some,
    ensures
        ({
            let f = forward_value(s, kind)->Some_0;
            &&& f.kind == kind
            &&& is_forward_host(f.bind_host)
            &&& is_forward_host(f.dest_host)
            &&& f.dest_port != 0
            &&& f.bind_port != 0 || kind == ForwardKind::Remote
            &&& forward_value(
                host_port(f.bind_host, f.bind_port) + ":"@ + host_port(f.dest_host, f.dest_port),
                kind,
            ) == Some(f)
        }),
{
    let f = forward_value(s, kind)->Some_0;
    if fields(s).len() == 4 {
        lemma_host_value_is_forward_host(s, 0);
        lemma_host_value_is_forward_host(s, 2);
    } else {
        lemma_host_value_is_forward_host(s, 1);
        reveal_strlit("127.0.0.1");
        assert(!"127.0.0.1"@.contains(':'));
    }
    law_forward_round_trip(f);
}

/// A socket address ends in a colon and the port; what stands before is the host itself or, where
/// the host has colons and no bracket at its start, the host between brackets.
pub proof fn law_socket_address(host: Seq<char>, port: u16)
    ensures
        ({
            let s = host_port(host, port);
            let digits = crate::text::decimal(port as nat);
            let n = s.len() - digits.len() - 1;
            let front = s.take(n);
            &&& n >= 0
            &&& s.skip(n + 1) == digits
            &&& s[n] == ':'
            &&& if host.contains(':') && host[0] != '[' {
                &&& front.len() == host.len() + 2
                &&& front[0] == '['
                &&& front.last() == ']'
                &&& front.subrange(1, front.len() - 1) == host
            } else {
                front == host
            }
        }),
{
    reveal_strlit(":");
    reveal_strlit("[");
    reveal_strlit("]:");
    let s = host_port(host, port);
    let digits = crate::text::decimal(port as nat);
    let n = s.len() - digits.len() - 1;
    assert(s.skip(n + 1) == digits);
    let front = s.take(n);
    if host.contains(':') && host[0] != '[' {
        assert(front.subrange(1, front.len() - 1) == host);
    } else {
        assert(front == host);
    }
}

/// Whether a field spells a host: as it is, where it has no colon and no bracket at its start, or
/// between brackets, where it has none itself.
pub open spec fn spells_host(field: Seq<char>, host: Seq<char>) -> bool {
    &&& host.len() > 0
    &&& {
        ||| field == host && host[0] != '[' && !host.contains(':')
        ||| field == "["@ + host + "]"@ && !host.contains('[') && !host.contains(']')
    }
}

/// A spelled host is one field, and is read as the host.
proof fn lemma_spelled_host(field: Seq<char>, host: Seq<char>)
    requires
        spells_host(field, host),
    ensures
        is_field(field),
        host_value(field) == Some(host),
{
    reveal_strlit("[");
    reveal_strlit("]");
    if field == "["@ + host + "]"@ {
        assert(field.subrange(1, field.len() - 1) == host);
    }
}

/// A text that is a port is one field.
proof fn lemma_port_text(field: Seq<char>)
    requires
        crate::text::port_value(field) is Some,
    ensures
        is_field(field),
{
    assert(crate::text::is_digit(field[0]));
    if field.contains(':') {
        let i = choose|i: int| 0 <= i < field.len() && field[i] == ':';
        assert(crate::text::is_digit(field[i]));
    }
}

/// A host to listen on, a port, a host and a port, with colons between them, are the forward that
/// has just these, whatever the hosts and ports and however they are spelled; where the forward
/// cannot be had, they are none.
pub proof fn law_four_fields_are_a_forward(
    f: ForwardView,
    bind_host: Seq<char>,
    bind_port: Seq<char>,
    dest_host: Seq<char>,
    dest_port: Seq<char>,
)
    requires
        spells_host(bind_host, f.bind_host),
        crate::text::port_value(bind_port) == Some(f.bind_port),
        spells_host(dest_host, f.dest_host),
        crate::text::port_value(dest_port) == Some(f.dest_port),
    ensures
        forward_value(
            bind_host + ":"@ + bind_port + ":"@ + (dest_host + ":"@ + dest_port),
            f.kind,
        ) == (if f.dest_port != 0 && (f.bind_port != 0 || f.kind == ForwardKind::Remote) {
            Some(f)
        } else {
            None
        }),
{
    lemma_spelled_host(bind_host, f.bind_host);
    lemma_spelled_host(dest_host, f.dest_host);
    lemma_port_text(bind_port);
    lemma_port_text(dest_port);
    lemma_four_fields(bind_host, bind_port, dest_host, dest_port);
}

/// A port to listen on, a host and a port, with colons between them, are the forward that has
/// just these and listens on `127.0.0.1`; where the forward cannot be had, they are none.
pub proof fn law_three_fields_are_a_forward(
    f: ForwardView,
    bind_port: Seq<char>,
    dest_host: Seq<char>,
    dest_port: Seq<char>,
)
    requires
        f.bind_host == "127.0.0.1"@,
        crate::text::port_value(bind_port) == Some(f.bind_port),
        spells_host(dest_host, f.dest_host),
        crate::text::port_value(dest_port) == Some(f.dest_port),
    ensures
        forward_value(bind_port + ":"@ + (dest_host + ":"@ + dest_port), f.kind) == (if f.dest_port
            != 0 && (f.bind_port != 0 || f.kind == ForwardKind::Remote) {
            Some(f)
        } else {
            None
        }),
{
    lemma_spelled_host(dest_host, f.dest_host);
    lemma_port_text(bind_port);
    lemma_port_text(dest_port);
    lemma_field_then(bind_port, dest_host + ":"@ + dest_port);
    lemma_field_then(dest_host, dest_port);
    lemma_field_alone(dest_port);
    assert(fields(bind_port + ":"@ + (dest_host + ":"@ + dest_port)) == seq![
        bind_port,
        dest_host,
        dest_port,
    ]);
}

/// Whether a text is a host to listen on, a port, a host and a port, with colons between them.
pub open spec fn is_four_fields(
    s: Seq<char>,
    f: ForwardView,
    bind_host: Seq<char>,
    bind_port: Seq<char>,
    dest_host: Seq<char>,
    dest_port: Seq<char>,
) -> bool {
    &&& s == bind_host + ":"@ + bind_port + ":"@ + (dest_host + ":"@ + dest_port)
    &&& spells_host(bind_host, f.bind_host)
    &&& crate::text::port_value(bind_port) == Some(f.bind_port)
    &&& spells_host(dest_host, f.dest_host)
    &&& crate::text::port_value(dest_port) == Some(f.dest_port)
}

/// Whether a text is a port, a host and a port, with colons between them.
pub open spec fn is_three_fields(
    s: Seq<char>,
    f: ForwardView,
    bind_port: Seq<char>,
    dest_host: Seq<char>,
    dest_port: Seq<char>,
) -> bool {
    &&& s == bind_port + ":"@ + (dest_host + ":"@ + dest_port)
    &&& f.bind_host == "127.0.0.1"@
    &&& crate::text::port_value(bind_port) == Some(f.bind_port)
    &&& spells_host(dest_host, f.dest_host)
    &&& crate::text::port_value(dest_port) == Some(f.dest_port)
}

/// The first field of a text, a colon and the rest are the text.
proof fn lemma_first_field(s: Seq<char>)
    requires
        fields(s).len() > 1,
    ensures
        ({
            let end = field_end(s);
            &&& 0 <= end < s.len()
            &&& s == s.take(end) + ":"@ + s.skip(end + 1)
            &&& fields(s) == seq![s.take(end)] + fields(s.skip(end + 1))
        }),
{
    reveal_strlit(":");
    let end = field_end(s);
    let close = crate::text::index_from(s, ']', 0);
    crate::text::lemma_index_from(s, ']', 0);
    crate::text::lemma_index_from(s, ':', 0);
    if close < s.len() {
        crate::text::lemma_index_from(s, ':', close);
    }
    assert(s[end] == ':');
    assert(s == s.take(end) + ":"@ + s.skip(end + 1));
}

/// The only field of a text is the text.
proof fn lemma_only_field(s: Seq<char>)
    requires
        fields(s).len() == 1,
    ensures
        fields(s)[0] == s,
{
    let end = field_end(s);
    if 0 <= end < s.len() {
        assert(fields(s.skip(end + 1)).len() > 0) by {
            lemma_some_field(s.skip(end + 1));
        }
    }
}

/// Every text has a field.
proof fn lemma_some_field(s: Seq<char>)
    ensures
        fields(s).len() > 0,
{
}

/// A field that was read as a host spells it.
proof fn lemma_read_host_is_spelled(s: Seq<char>, i: int)
    requires
        0 <= i < fields(s).len(),
        host_value(fields(s)[i]) is Some,
    ensures
        spells_host(fields(s)[i], host_value(fields(s)[i])->Some_0),
{
    reveal_strlit("[");
    reveal_strlit("]");
    lemma_fields_have_no_colon(s, i);
    let f = fields(s)[i];
    if f[0] == '[' {
        let inner = f.subrange(1, f.len() - 1);
        assert(f == "["@ + inner + "]"@);
    }
}

/// Nothing else is a forward: a text that is read as one is four fields or three that spell it,
/// with colons between them, and it is one of the kind that was asked for and can be had.
pub proof fn law_forwards_are_fields(s: Seq<char>, kind: ForwardKind)
    requires
        forward_value(s, kind) is Some,
    ensures
        ({
            let f = forward_value(s, kind)->Some_0;
            &&& f.kind == kind
            &&& f.dest_port != 0
            &&& f.bind_port != 0 || kind == ForwardKind::Remote
            &&& {
                ||| exists|a: Seq<char>, b: Seq<char>, c: Seq<char>, d: Seq<char>|
                    is_four_fields(s, f, a, b, c, d)
                ||| exists|b: Seq<char>, c: Seq<char>, d: Seq<char>| is_three_fields(s, f, b, c, d)
            }
        }),
{
    let f = forward_value(s, kind)->Some_0;
    let all = fields(s);
    lemma_first_field(s);
    let s1 = s.skip(field_end(s) + 1);
    assert(forall|i: int| 0 <= i < fields(s1).len() ==> fields(s1)[i] == all[i + 1]);
    lemma_first_field(s1);
    let s2 = s1.skip(field_end(s1) + 1);
    assert(forall|i: int| 0 <= i < fields(s2).len() ==> fields(s2)[i] == fields(s1)[i + 1]);
    if all.len() == 4 {
        lemma_first_field(s2);
        let s3 = s2.skip(field_end(s2) + 1);
        assert(forall|i: int| 0 <= i < fields(s3).len() ==> fields(s3)[i] == fields(s2)[i + 1]);
        lemma_only_field(s3);
        assert(fields(s3)[0] == all[3]);
        assert(fields(s2)[0] == all[2]);
        assert(fields(s1)[0] == all[1]);
        lemma_rejoin(all[0], all[1], all[2], all[3], ":"@);
        lemma_read_host_is_spelled(s, 0);
        lemma_read_host_is_spelled(s, 2);
        assert(is_four_fields(s, f, all[0], all[1], all[2], all[3]));
    } else {
        lemma_only_field(s2);
        assert(fields(s2)[0] == all[2]);
        assert(fields(s1)[0] == all[1]);
        lemma_read_host_is_spelled(s, 1);
        assert(is_three_fields(s, f, all[0], all[1], all[2]));
    }
}

/// A forward as a value has all that the forward has.
pub proof fn law_forward_views(f: SshForward)
    ensures
        f@.kind == f.kind,
        f@.bind_host == f.bind_host@,
        f@.bind_port == f.bind_port,
        f@.dest_host == f.dest_host@,
        f@.dest_port == f.dest_port,
        f.deep_view() == f@,
{
}

} // verus!
