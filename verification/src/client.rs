//! What the client answers when the SSH server asks: for a forwarded connection, and about its
//! host key.

use crate::ssh_forward::{ForwardKind, ForwardView, SshForward};
use crate::text::{concat3, decimal_text, same_text};
use std::sync::Arc;
use vstd::prelude::*;

verus! {

/// The client's side of an SSH session.
#[derive(Debug)]
pub struct ClientHandler {
    remote_forwards: Arc<Vec<SshForward>>,
}

/// A connection came in on an address that was never asked for.
#[derive(Debug)]
pub struct UnknownForward {
    pub address: String,
    pub port: u32,
}

/// What the known hosts say of a host key.
#[derive(Debug, Clone, Copy, PartialEq, Eq, Structural)]
pub enum HostKeyStatus {
    /// The key is on record for the host.
    Known,
    /// No key is on record for the host.
    Unknown,
    /// Another key is on record for the host.
    Changed,
}

/// What becomes of a host key.
#[derive(Debug, Clone, Copy, PartialEq, Eq, Structural)]
pub enum HostKeyDecision {
    /// Go on.
    Accept,
    /// Put the key on record, and go on.
    Record,
    /// End the session.
    Refuse,
}

impl View for ClientHandler {
    type V = Seq<ForwardView>;

    closed spec fn view(&self) -> Seq<ForwardView> {
        (*self.remote_forwards).deep_view()
    }
}

/// Whether a forward makes the server listen on `port`.
pub open spec fn listens_on(f: ForwardView, port: u32) -> bool {
    f.kind == ForwardKind::Remote && f.bind_port == port
}

/// Whether a forward makes the server listen on `port` of this very address.
pub open spec fn listens_at(f: ForwardView, address: Seq<char>, port: u32) -> bool {
    listens_on(f, port) && f.bind_host == address
}

/// Whether one of several forwards makes the server listen on `port` of this very address.
pub open spec fn some_listens_at(forwards: Seq<ForwardView>, address: Seq<char>, port: u32) -> bool {
    exists|j: int| 0 <= j < forwards.len() && listens_at(#[trigger] forwards[j], address, port)
}

/// Whether the forward at index `i` serves a connection that came in on `port` of `address`: it
/// is the first one that listens on that port of that address or, where none does, the first one
/// that listens on that port, since a server may name an address otherwise than it was asked to.
pub open spec fn serves(
    forwards: Seq<ForwardView>,
    address: Seq<char>,
    port: u32,
    i: int,
) -> bool {
    &&& 0 <= i < forwards.len()
    &&& if some_listens_at(forwards, address, port) {
        &&& listens_at(forwards[i], address, port)
        &&& forall|j: int| 0 <= j < i ==> !listens_at(#[trigger] forwards[j], address, port)
    } else {
        &&& listens_on(forwards[i], port)
        &&& forall|j: int| 0 <= j < i ==> !listens_on(#[trigger] forwards[j], port)
    }
}

/// What becomes of a host key: one on record is accepted, one that replaces another is refused,
/// and an unknown one is put on record, unless the user asked for strictness.
pub open spec fn host_key_decision(strict: bool, status: HostKeyStatus) -> HostKeyDecision {
    match status {
        HostKeyStatus::Known => HostKeyDecision::Accept,
        HostKeyStatus::Changed => HostKeyDecision::Refuse,
        HostKeyStatus::Unknown => if strict {
            HostKeyDecision::Refuse
        } else {
            HostKeyDecision::Record
        },
    }
}

impl ClientHandler {
    /// A client that asked for these remote forwards.
    pub fn new(remote_forwards: Arc<Vec<SshForward>>) -> (r: Self)
        ensures
            r@ == (*remote_forwards).deep_view(),
    {
        Self { remote_forwards }
    }

    /// Decides about the server's host key.
    pub fn check_server_key(&self, strict_host_keys: bool, status: HostKeyStatus) -> (r:
        HostKeyDecision)
        ensures
            r == host_key_decision(strict_host_keys, status),
    {
        match status {
            HostKeyStatus::Known => HostKeyDecision::Accept,
            HostKeyStatus::Changed => HostKeyDecision::Refuse,
            HostKeyStatus::Unknown => if strict_host_keys {
                HostKeyDecision::Refuse
            } else {
                HostKeyDecision::Record
            },
        }
    }

    /// Where to connect for a connection that the server accepted on `connected_address` and
    /// `connected_port`: to the target of the forward that serves it.
    pub fn forward_target(&self, connected_address: &str, connected_port: u32) -> (r: Result<
        String,
        UnknownForward,
    >)
        ensures
            match r {
                Ok(target) => exists|i: int| #[trigger]
                    serves(self@, connected_address@, connected_port, i) && target@
                        == crate::ssh_forward::host_port(self@[i].dest_host, self@[i].dest_port),
                Err(e) => {
                    &&& forall|i: int|
                        0 <= i < self@.len() ==> !listens_on(#[trigger] self@[i], connected_port)
                    &&& e.address@ == connected_address@
                    &&& e.port == connected_port
                },
            },
    {
        let forwards: &Vec<SshForward> = &self.remote_forwards;
        let mut on_port: Option<usize> = None;
        let mut i: usize = 0;
        while i < forwards.len()
            invariant
                forwards.deep_view() == self@,
                i <= forwards@.len(),
                forall|j: int|
                    0 <= j < i ==> !listens_at(
                        #[trigger] self@[j],
                        connected_address@,
                        connected_port,
                    ),
                match on_port {
                    Some(k) => {
                        &&& k < i
                        &&& listens_on(self@[k as int], connected_port)
                        &&& forall|j: int|
                            0 <= j < k ==> !listens_on(#[trigger] self@[j], connected_port)
                    },
                    None => forall|j: int|
                        0 <= j < i ==> !listens_on(#[trigger] self@[j], connected_port),
                },
            decreases forwards@.len() - i,
        {
            let f = &forwards[i];
            assert(self@[i as int] == f@);
            let remote = match f.kind {
                ForwardKind::Local => false,
                ForwardKind::Remote => true,
            };
            if remote && f.bind_port as u32 == connected_port {
                if same_text(&f.bind_host, connected_address) {
                    assert(listens_at(self@[i as int], connected_address@, connected_port));
                    assert(serves(self@, connected_address@, connected_port, i as int));
                    return Ok(SshForward::socket_addr(&f.dest_host, f.dest_port));
                }
                if on_port.is_none() {
                    on_port = Some(i);
                }
            }
            i += 1;
        }
        match on_port {
            Some(k) => {
                assert(self@[k as int] == forwards@[k as int]@);
                assert(serves(self@, connected_address@, connected_port, k as int));
                Ok(SshForward::socket_addr(&forwards[k].dest_host, forwards[k].dest_port))
            },
            None => Err(
                UnknownForward { address: connected_address.to_owned(), port: connected_port },
            ),
        }
    }
}

impl UnknownForward {
    /// The sentence that tells a user what went wrong.
    pub fn message(&self) -> (r: String)
        ensures
            r@ == "no remote forward registered for "@ + self.address@ + ":"@
                + crate::text::decimal(self.port as nat),
    {
        concat3("no remote forward registered for ", &self.address, ":").concat(
            &decimal_text(self.port as u64),
        )
    }
}

/// The sentence that tells a user that the target of a remote forward cannot be reached.
pub fn unreachable_target_message(target: &str) -> (r: String)
    ensures
        r@ == "Failed to connect local target "@ + target@,
{
    "Failed to connect local target ".to_owned().concat(target)
}

/// Two forwards never serve one connection, and one does whenever a remote forward listens on
/// the port.
pub proof fn law_one_forward_serves_a_connection(
    forwards: Seq<ForwardView>,
    address: Seq<char>,
    port: u32,
    i: int,
    j: int,
)
    ensures
        serves(forwards, address, port, i) && serves(forwards, address, port, j) ==> i == j,
        0 <= i < forwards.len() && listens_on(forwards[i], port) ==> exists|k: int|
            serves(forwards, address, port, k),
{
    if serves(forwards, address, port, i) && serves(forwards, address, port, j) {
        if i < j {
            assert(!listens_at(forwards[i], address, port));
        } else if j < i {
            assert(!listens_at(forwards[j], address, port));
        }
    }
    if 0 <= i < forwards.len() && listens_on(forwards[i], port) {
        if some_listens_at(forwards, address, port) {
            let at = |f: ForwardView| listens_at(f, address, port);
            let n = choose|n: int| 0 <= n < forwards.len() && listens_at(#[trigger] forwards[n], address, port);
            let k = lemma_first(forwards, at, n);
            assert(serves(forwards, address, port, k));
        } else {
            let on = |f: ForwardView| listens_on(f, port);
            let k = lemma_first(forwards, on, i);
            assert(serves(forwards, address, port, k));
        }
    }
}

/// Where there is one of a kind, there is a first one.
proof fn lemma_first(
    forwards: Seq<ForwardView>,
    wanted: spec_fn(ForwardView) -> bool,
    n: int,
) -> (k: int)
    requires
        0 <= n < forwards.len(),
        wanted(forwards[n]),
    ensures
        0 <= k <= n,
        wanted(forwards[k]),
        forall|j: int| 0 <= j < k ==> !wanted(#[trigger] forwards[j]),
    decreases n,
{
    if exists|m: int| 0 <= m < n && wanted(#[trigger] forwards[m]) {
        let m = choose|m: int| 0 <= m < n && wanted(#[trigger] forwards[m]);
        lemma_first(forwards, wanted, m)
    } else {
        n
    }
}

/// A connection that came in on an address that a forward listens on goes to such a forward,
/// whatever other forwards share its port: a host to listen on is listened on alone.
pub proof fn law_each_address_has_its_own_forward(
    forwards: Seq<ForwardView>,
    address: Seq<char>,
    port: u32,
    own: int,
    i: int,
)
    requires
        0 <= own < forwards.len(),
        listens_at(forwards[own], address, port),
        serves(forwards, address, port, i),
    ensures
        forwards[i].bind_host == address,
        forwards[i].bind_port == port,
{
    assert(some_listens_at(forwards, address, port));
}

/// With strict host keys the session goes on only with a key that is on record, and nothing is
/// put on record; without, an unknown key is put on record. A changed key never passes.
pub proof fn law_host_keys(status: HostKeyStatus)
    ensures
        host_key_decision(true, status) != HostKeyDecision::Record,
        host_key_decision(true, status) == HostKeyDecision::Accept <==> status
            == HostKeyStatus::Known,
        host_key_decision(false, status) == HostKeyDecision::Record <==> status
            == HostKeyStatus::Unknown,
        forall|strict: bool|
            #[trigger] host_key_decision(strict, HostKeyStatus::Changed) == HostKeyDecision::Refuse,
{
}

/// The forward that serves a connection is a remote one on its port. It listens on the very
/// address of the connection, and no earlier remote forward listens on that address and port; or
/// no remote forward at all does, and no earlier one is on the port. Every such forward serves.
pub proof fn law_serving_forwards(
    forwards: Seq<ForwardView>,
    address: Seq<char>,
    port: u32,
    i: int,
)
    requires
        0 <= i < forwards.len(),
    ensures
        serves(forwards, address, port, i) <==> {
            &&& forwards[i].kind == ForwardKind::Remote
            &&& forwards[i].bind_port as u32 == port
            &&& {
                ||| {
                    &&& forwards[i].bind_host == address
                    &&& forall|j: int|
                        0 <= j < i && (#[trigger] forwards[j]).kind == ForwardKind::Remote
                            && forwards[j].bind_port as u32 == port ==> forwards[j].bind_host
                            != address
                }
                ||| {
                    &&& forall|j: int|
                        0 <= j < forwards.len() && (#[trigger] forwards[j]).kind
                            == ForwardKind::Remote && forwards[j].bind_port as u32 == port
                            ==> forwards[j].bind_host != address
                    &&& forall|j: int|
                        0 <= j < i && (#[trigger] forwards[j]).kind == ForwardKind::Remote
                            ==> forwards[j].bind_port as u32 != port
                }
            }
        },
{
    if forall|j: int|
        0 <= j < forwards.len() && (#[trigger] forwards[j]).kind == ForwardKind::Remote
            && forwards[j].bind_port as u32 == port ==> forwards[j].bind_host != address {
        assert(!some_listens_at(forwards, address, port));
    } else {
        let j = choose|j: int|
            0 <= j < forwards.len() && (#[trigger] forwards[j]).kind == ForwardKind::Remote
                && forwards[j].bind_port as u32 == port && forwards[j].bind_host == address;
        assert(listens_at(forwards[j], address, port));
        assert(some_listens_at(forwards, address, port));
    }
    if serves(forwards, address, port, i) {
        assert forall|j: int|
            some_listens_at(forwards, address, port) && 0 <= j < i && (#[trigger] forwards[j]).kind
                == ForwardKind::Remote && forwards[j].bind_port as u32
                == port implies forwards[j].bind_host != address by {
            assert(!listens_at(forwards[j], address, port));
        }
        assert forall|j: int|
            !some_listens_at(forwards, address, port) && 0 <= j < i && (#[trigger] forwards[j]).kind
                == ForwardKind::Remote implies forwards[j].bind_port as u32 != port by {
            assert(!listens_on(forwards[j], port));
        }
    }
}

/// A forward listens on a port if and only if it is a remote one with that port to listen on.
pub proof fn law_listening_forwards(f: ForwardView, port: u32)
    ensures
        listens_on(f, port) <==> f.kind == ForwardKind::Remote && f.bind_port as u32 == port,
{
}

/// A key on record is accepted, strict or not; a changed one is refused, strict or not; and
/// strictness refuses the unknown key that would else be put on record.
pub proof fn law_host_keys_in_full(strict: bool)
    ensures
        host_key_decision(strict, HostKeyStatus::Known) == HostKeyDecision::Accept,
        host_key_decision(strict, HostKeyStatus::Changed) == HostKeyDecision::Refuse,
        host_key_decision(strict, HostKeyStatus::Unknown) == HostKeyDecision::Refuse <==> strict,
        host_key_decision(strict, HostKeyStatus::Unknown) == HostKeyDecision::Record <==> !strict,
{
}

} // verus!
