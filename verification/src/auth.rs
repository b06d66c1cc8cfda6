//! Logging in: which key or password to offer next.

use crate::text::{concat3, decimal_text};
use vstd::prelude::*;

verus! {

/// What a login can use: a number of key files, and maybe a password.
#[derive(Debug, Clone, Copy)]
pub struct Authenticator {
    pub keys: usize,
    pub has_password: bool,
}

/// What to do next to log in.
#[derive(Debug, Clone, Copy, PartialEq, Eq, Structural)]
pub enum AuthAction {
    /// Look for the key file at `index`, and load it.
    LoadKey { index: usize },
    /// Ask the server which hash it takes with RSA keys.
    QueryRsaHash { index: usize },
    /// Offer the loaded key, with the hash that the server named or with none.
    OfferKey { index: usize, with_server_hash: bool },
    /// Offer the password.
    OfferPassword,
    /// Logged in.
    Succeed,
    /// Not logged in.
    Fail { failure: AuthFailure },
}

/// Why a login failed.
#[derive(Debug, Clone, Copy, PartialEq, Eq, Structural)]
pub enum AuthFailure {
    /// The server rejected the password.
    PasswordRejected,
    /// The password could not be offered.
    PasswordError,
    /// No key was accepted, and there is no password.
    NothingWorked,
}

/// What came of loading a key file.
#[derive(Debug, Clone, Copy, PartialEq, Eq, Structural)]
pub enum KeyLoad {
    /// There is no such file.
    Missing,
    /// The file holds no key that can be read.
    Unreadable,
    /// The key was loaded.
    Loaded { rsa: bool },
}

/// What the server said of RSA hashes.
#[derive(Debug, Clone, Copy, PartialEq, Eq, Structural)]
pub enum RsaAnswer {
    /// It takes RSA keys, and said how.
    Supported,
    /// It takes no RSA keys.
    Unsupported,
    /// It could not be asked.
    Failed,
}

/// What came of an offer.
#[derive(Debug, Clone, Copy, PartialEq, Eq, Structural)]
pub enum OfferResult {
    Accepted,
    Rejected,
    /// The offer could not be made.
    Failed,
}

impl Authenticator {
    /// What to do once the keys before `index` are of no use.
    pub open spec fn from_key(self, index: int) -> AuthAction {
        if 0 <= index < self.keys {
            AuthAction::LoadKey { index: index as usize }
        } else if self.has_password {
            AuthAction::OfferPassword
        } else {
            AuthAction::Fail { failure: AuthFailure::NothingWorked }
        }
    }

    /// What to do once the key at `index` was loaded, or was not.
    pub open spec fn loaded(self, index: usize, load: KeyLoad) -> AuthAction {
        match load {
            KeyLoad::Missing => self.from_key(index + 1),
            KeyLoad::Unreadable => self.from_key(index + 1),
            KeyLoad::Loaded { rsa } => if rsa {
                AuthAction::QueryRsaHash { index }
            } else {
                AuthAction::OfferKey { index, with_server_hash: false }
            },
        }
    }

    /// What to do once the server was asked about RSA hashes.
    pub open spec fn answered(self, index: usize, answer: RsaAnswer) -> AuthAction {
        match answer {
            RsaAnswer::Supported => AuthAction::OfferKey { index, with_server_hash: true },
            RsaAnswer::Unsupported => self.from_key(index + 1),
            RsaAnswer::Failed => AuthAction::OfferKey { index, with_server_hash: false },
        }
    }

    /// What to do once the key at `index` was offered.
    pub open spec fn offered(self, index: usize, result: OfferResult) -> AuthAction {
        match result {
            OfferResult::Accepted => AuthAction::Succeed,
            _ => self.from_key(index + 1),
        }
    }

    /// Goes on to the key at `index`, or past the keys.
    fn try_key(&self, index: usize) -> (r: AuthAction)
        ensures
            r == self.from_key(index as int),
    {
        if index < self.keys {
            AuthAction::LoadKey { index }
        } else if self.has_password {
            AuthAction::OfferPassword
        } else {
            AuthAction::Fail { failure: AuthFailure::NothingWorked }
        }
    }

    /// Goes on to the key after `index`, or past the keys.
    fn skip_key(&self, index: usize) -> (r: AuthAction)
        ensures
            r == self.from_key(index + 1),
    {
        if index < self.keys {
            self.try_key(index + 1)
        } else {
            self.try_key(self.keys)
        }
    }

    /// The first thing to do.
    pub fn start(&self) -> (r: AuthAction)
        ensures
            r == self.from_key(0),
    {
        self.try_key(0)
    }

    /// What to do once the key at `index` was loaded, or was not.
    pub fn after_load(&self, index: usize, load: KeyLoad) -> (r: AuthAction)
        ensures
            r == self.loaded(index, load),
    {
        match load {
            KeyLoad::Missing => self.skip_key(index),
            KeyLoad::Unreadable => self.skip_key(index),
            KeyLoad::Loaded { rsa } => if rsa {
                AuthAction::QueryRsaHash { index }
            } else {
                AuthAction::OfferKey { index, with_server_hash: false }
            },
        }
    }

    /// What to do once the server was asked about RSA hashes.
    pub fn after_rsa_query(&self, index: usize, answer: RsaAnswer) -> (r: AuthAction)
        ensures
            r == self.answered(index, answer),
    {
        match answer {
            RsaAnswer::Supported => AuthAction::OfferKey { index, with_server_hash: true },
            RsaAnswer::Unsupported => self.skip_key(index),
            RsaAnswer::Failed => AuthAction::OfferKey { index, with_server_hash: false },
        }
    }

    /// What to do once the key at `index` was offered.
    pub fn after_key_offer(&self, index: usize, result: OfferResult) -> (r: AuthAction)
        ensures
            r == self.offered(index, result),
    {
        match result {
            OfferResult::Accepted => AuthAction::Succeed,
            OfferResult::Rejected => self.skip_key(index),
            OfferResult::Failed => self.skip_key(index),
        }
    }

    /// What to do once the password was offered.
    pub fn after_password(&self, result: OfferResult) -> (r: AuthAction)
        ensures
            r == password_outcome(result),
    {
        match result {
            OfferResult::Accepted => AuthAction::Succeed,
            OfferResult::Rejected => AuthAction::Fail { failure: AuthFailure::PasswordRejected },
            OfferResult::Failed => AuthAction::Fail { failure: AuthFailure::PasswordError },
        }
    }

    /// The sentence that tells a user why the login failed.
    pub fn failure_message(&self, user: &str, failure: AuthFailure) -> (r: String)
        ensures
            r@ == failure_sentence(user@, *self, failure),
    {
        match failure {
            AuthFailure::PasswordRejected => "Password authentication rejected by server".to_owned(),
            AuthFailure::PasswordError => "Password authentication failed".to_owned(),
            AuthFailure::NothingWorked => {
                let end = if self.has_password {
                    " key(s) and password."
                } else {
                    " key(s)."
                };
                concat3(
                    "All authentication methods failed for user '",
                    user,
                    "'. Tried ",
                ).concat(&decimal_text(self.keys as u64)).concat(end)
            },
        }
    }
}

/// What an offered password comes to: nothing is tried after it.
pub open spec fn password_outcome(result: OfferResult) -> AuthAction {
    match result {
        OfferResult::Accepted => AuthAction::Succeed,
        OfferResult::Rejected => AuthAction::Fail { failure: AuthFailure::PasswordRejected },
        OfferResult::Failed => AuthAction::Fail { failure: AuthFailure::PasswordError },
    }
}

/// The sentence that tells a user why the login failed.
pub open spec fn failure_sentence(user: Seq<char>, auth: Authenticator, failure: AuthFailure) -> Seq<
    char,
> {
    match failure {
        AuthFailure::PasswordRejected => "Password authentication rejected by server"@,
        AuthFailure::PasswordError => "Password authentication failed"@,
        AuthFailure::NothingWorked => "All authentication methods failed for user '"@ + user
            + "'. Tried "@ + crate::text::decimal(auth.keys as nat) + (if auth.has_password {
            " key(s) and password."@
        } else {
            " key(s)."@
        }),
    }
}

/// All that would happen with one key, were it come to.
pub struct KeyStory {
    pub load: KeyLoad,
    pub answer: RsaAnswer,
    pub offer: OfferResult,
}

/// Whether a key logs in: it loads, the server takes its kind, and accepts it.
pub open spec fn logs_in(key: KeyStory) -> bool {
    &&& key.load is Loaded
    &&& key.load->rsa ==> key.answer != RsaAnswer::Unsupported
    &&& key.offer == OfferResult::Accepted
}

/// How far an action is from the end of a login.
pub open spec fn remaining(auth: Authenticator, action: AuthAction) -> nat {
    match action {
        AuthAction::LoadKey { index } => (4 * (auth.keys - index) + 4) as nat,
        AuthAction::QueryRsaHash { index } => (4 * (auth.keys - index) + 3) as nat,
        AuthAction::OfferKey { index, .. } => (4 * (auth.keys - index) + 2) as nat,
        AuthAction::OfferPassword => 1,
        _ => 0,
    }
}

/// Whether an action speaks of a key that there is.
pub open spec fn is_action_of(auth: Authenticator, action: AuthAction) -> bool {
    match action {
        AuthAction::LoadKey { index } => index < auth.keys,
        AuthAction::QueryRsaHash { index } => index < auth.keys,
        AuthAction::OfferKey { index, .. } => index < auth.keys,
        _ => true,
    }
}

/// How a login ends that does what it is told, from `action` on.
pub open spec fn login_end(
    auth: Authenticator,
    keys: Seq<KeyStory>,
    password: OfferResult,
    action: AuthAction,
) -> AuthAction
    decreases remaining(auth, action),
    when is_action_of(auth, action)
{
    match action {
        AuthAction::LoadKey { index } => login_end(
            auth,
            keys,
            password,
            auth.loaded(index, keys[index as int].load),
        ),
        AuthAction::QueryRsaHash { index } => login_end(
            auth,
            keys,
            password,
            auth.answered(index, keys[index as int].answer),
        ),
        AuthAction::OfferKey { index, .. } => login_end(
            auth,
            keys,
            password,
            auth.offered(index, keys[index as int].offer),
        ),
        AuthAction::OfferPassword => password_outcome(password),
        _ => action,
    }
}

/// How a login ends that has come to the key at `index`.
proof fn lemma_login_from(
    auth: Authenticator,
    keys: Seq<KeyStory>,
    password: OfferResult,
    index: int,
)
    requires
        keys.len() == auth.keys,
        0 <= index <= auth.keys,
    ensures
        login_end(auth, keys, password, auth.from_key(index)) == (if exists|i: int|
            index <= i < keys.len() && logs_in(#[trigger] keys[i]) {
            AuthAction::Succeed
        } else if auth.has_password {
            password_outcome(password)
        } else {
            AuthAction::Fail { failure: AuthFailure::NothingWorked }
        }),
    decreases auth.keys - index,
{
    reveal_with_fuel(login_end, 4);
    if index < auth.keys {
        lemma_login_from(auth, keys, password, index + 1);
        let key = keys[index];
        if logs_in(key) {
            assert(login_end(auth, keys, password, auth.from_key(index)) == AuthAction::Succeed);
        } else {
            assert(login_end(auth, keys, password, auth.from_key(index)) == login_end(
                auth,
                keys,
                password,
                auth.from_key(index + 1),
            ));
            if exists|i: int| index <= i < keys.len() && logs_in(#[trigger] keys[i]) {
                let i = choose|i: int| index <= i < keys.len() && logs_in(#[trigger] keys[i]);
                assert(index + 1 <= i && logs_in(keys[i]));
            }
        }
    }
}

/// A login succeeds if one of its keys does, whatever becomes of the others. Only where none
/// does, the password decides; and where there is no password either, nothing worked.
pub proof fn law_login_end(auth: Authenticator, keys: Seq<KeyStory>, password: OfferResult)
    requires
        keys.len() == auth.keys,
    ensures
        login_end(auth, keys, password, auth.from_key(0)) == (if exists|i: int|
            0 <= i < keys.len() && logs_in(#[trigger] keys[i]) {
            AuthAction::Succeed
        } else if auth.has_password {
            password_outcome(password)
        } else {
            AuthAction::Fail { failure: AuthFailure::NothingWorked }
        }),
{
    lemma_login_from(auth, keys, password, 0);
}

/// Whether `next` is what follows where the key at `index` is of no use: the key after it, where
/// there is one; else the password, where there is one; else the end.
pub open spec fn goes_past(auth: Authenticator, index: usize, next: AuthAction) -> bool {
    &&& index + 1 < auth.keys ==> next == (AuthAction::LoadKey { index: (index + 1) as usize })
    &&& index + 1 >= auth.keys && auth.has_password ==> next == AuthAction::OfferPassword
    &&& index + 1 >= auth.keys && !auth.has_password ==> next == (AuthAction::Fail {
        failure: AuthFailure::NothingWorked,
    })
}

/// A login starts with its first key, or with the password where there are no keys.
pub proof fn law_logins_start_with_the_first_key(auth: Authenticator)
    ensures
        auth.keys > 0 ==> auth.from_key(0) == (AuthAction::LoadKey { index: 0 }),
        auth.keys == 0 && auth.has_password ==> auth.from_key(0) == AuthAction::OfferPassword,
        auth.keys == 0 && !auth.has_password ==> auth.from_key(0) == (AuthAction::Fail {
            failure: AuthFailure::NothingWorked,
        }),
{
}

/// A key that is missing, cannot be read, is of a kind that the server does not take, or is not
/// accepted is passed over, to the very next one. A key that was loaded is offered: an RSA key
/// once the server was asked, with its hash where it named one and without where it could not be
/// asked; any other at once and without. A key that is accepted ends the login.
pub proof fn law_keys_are_tried_in_order(auth: Authenticator, index: usize)
    ensures
        goes_past(auth, index, auth.loaded(index, KeyLoad::Missing)),
        goes_past(auth, index, auth.loaded(index, KeyLoad::Unreadable)),
        goes_past(auth, index, auth.answered(index, RsaAnswer::Unsupported)),
        goes_past(auth, index, auth.offered(index, OfferResult::Rejected)),
        goes_past(auth, index, auth.offered(index, OfferResult::Failed)),
        auth.loaded(index, KeyLoad::Loaded { rsa: true }) == (AuthAction::QueryRsaHash { index }),
        auth.loaded(index, KeyLoad::Loaded { rsa: false }) == (AuthAction::OfferKey {
            index,
            with_server_hash: false,
        }),
        auth.answered(index, RsaAnswer::Supported) == (AuthAction::OfferKey {
            index,
            with_server_hash: true,
        }),
        auth.answered(index, RsaAnswer::Failed) == (AuthAction::OfferKey {
            index,
            with_server_hash: false,
        }),
        auth.offered(index, OfferResult::Accepted) == AuthAction::Succeed,
{
}

/// A password is the last thing tried: accepted, it logs in; else the login has failed, and tells
/// a password that was rejected from one that could not be offered.
pub proof fn law_the_password_is_last(result: OfferResult)
    ensures
        password_outcome(result) == AuthAction::Succeed <==> result == OfferResult::Accepted,
        password_outcome(result) == (AuthAction::Fail { failure: AuthFailure::PasswordRejected })
            <==> result == OfferResult::Rejected,
        password_outcome(result) == (AuthAction::Fail { failure: AuthFailure::PasswordError })
            <==> result == OfferResult::Failed,
{
}

/// The sentence about a login for which nothing worked names the user and the number of keys as
/// they are, and the password if and only if there was one; the other two sentences are the same
/// for every login.
pub proof fn law_failed_logins_are_explained(user: Seq<char>, auth: Authenticator)
    ensures
        ({
            let s = failure_sentence(user, auth, AuthFailure::NothingWorked);
            let before = "All authentication methods failed for user '"@;
            let between = "'. Tried "@;
            let count = crate::text::decimal(auth.keys as nat);
            let after = if auth.has_password {
                " key(s) and password."@
            } else {
                " key(s)."@
            };
            let a = before.len() as int;
            let b = a + user.len();
            let c = b + between.len();
            let d = c + count.len();
            &&& s.len() == d + after.len()
            &&& s.take(a) == before
            &&& s.subrange(a, b) == user
            &&& s.subrange(b, c) == between
            &&& s.subrange(c, d) == count
            &&& s.skip(d) == after
        }),
        failure_sentence(user, auth, AuthFailure::PasswordRejected)
            == "Password authentication rejected by server"@,
        failure_sentence(user, auth, AuthFailure::PasswordError)
            == "Password authentication failed"@,
{
    let s = failure_sentence(user, auth, AuthFailure::NothingWorked);
    let before = "All authentication methods failed for user '"@;
    let between = "'. Tried "@;
    let count = crate::text::decimal(auth.keys as nat);
    let a = before.len() as int;
    let b = a + user.len();
    let c = b + between.len();
    let d = c + count.len();
    let after = if auth.has_password {
        " key(s) and password."@
    } else {
        " key(s)."@
    };
    assert(s.take(a) == before);
    assert(s.subrange(a, b) == user);
    assert(s.subrange(b, c) == between);
    assert(s.subrange(c, d) == count);
    assert(s.skip(d) == after);
}

} // verus!
