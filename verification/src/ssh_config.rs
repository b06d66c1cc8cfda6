//! Which host to connect to, as whom and with which keys: defaults, `~/.ssh/config` and the
//! command line, in that order.

use ssh2_config::{ParseRule, SshConfig};
use vstd::prelude::*;

verus! {

/// The error of the configuration parser; it is carried, never looked into.
#[verifier::external_type_specification]
#[verifier::external_body]
pub struct ExSshParserError(ssh2_config::SshParserError);

/// How to reach a host.
#[derive(Debug)]
pub struct HostConfig {
    pub hostname: String,
    pub port: u16,
    pub user: String,
    pub identity_files: Vec<String>,
    /// The jump hosts that the configuration names.
    pub proxy_jump: Vec<String>,
}

/// [`HostConfig`] as a value.
#[verifier::ext_equal]
pub struct HostConfigView {
    pub hostname: Seq<char>,
    pub port: u16,
    pub user: Seq<char>,
    pub identity_files: Seq<Seq<char>>,
    pub proxy_jump: Seq<Seq<char>>,
}

impl View for HostConfig {
    type V = HostConfigView;

    open spec fn view(&self) -> HostConfigView {
        HostConfigView {
            hostname: self.hostname@,
            port: self.port,
            user: self.user@,
            identity_files: self.identity_files.deep_view(),
            proxy_jump: self.proxy_jump.deep_view(),
        }
    }
}

impl Clone for HostConfig {
    fn clone(&self) -> (r: Self)
        ensures
            r@ == self@,
    {
        let r = HostConfig {
            hostname: self.hostname.clone(),
            port: self.port,
            user: self.user.clone(),
            identity_files: self.identity_files.clone(),
            proxy_jump: self.proxy_jump.clone(),
        };
        assert(r.identity_files.deep_view() =~= self.identity_files.deep_view());
        assert(r.proxy_jump.deep_view() =~= self.proxy_jump.deep_view());
        r
    }
}

/// What `~/.ssh/config` says of a host.
#[derive(Debug)]
pub struct ConfigParams {
    pub host_name: Option<String>,
    pub port: Option<u16>,
    pub user: Option<String>,
    pub identity_file: Option<Vec<String>>,
    pub proxy_jump: Option<Vec<String>>,
}

/// [`ConfigParams`] as a value.
#[verifier::ext_equal]
pub struct ParamsView {
    pub host_name: Option<Seq<char>>,
    pub port: Option<u16>,
    pub user: Option<Seq<char>>,
    pub identity_file: Option<Seq<Seq<char>>>,
    pub proxy_jump: Option<Seq<Seq<char>>>,
}

impl View for ConfigParams {
    type V = ParamsView;

    open spec fn view(&self) -> ParamsView {
        ParamsView {
            host_name: self.host_name.deep_view(),
            port: self.port,
            user: self.user.deep_view(),
            identity_file: self.identity_file.deep_view(),
            proxy_jump: self.proxy_jump.deep_view(),
        }
    }
}

/// A configuration that cannot be read.
#[derive(Debug)]
pub struct ConfigError {
    pub source: ssh2_config::SshParserError,
}

/// What the command line says of a host; it overrides everything else.
#[verifier::ext_equal]
pub struct Overrides {
    pub port: Option<u16>,
    pub user: Option<Seq<char>>,
    pub identity: Option<Seq<char>>,
}

/// A text that may be missing, as a value.
pub open spec fn text_of(text: Option<&str>) -> Option<Seq<char>> {
    match text {
        Some(text) => Some(text@),
        None => None,
    }
}

/// What the machine says: its user, its home directory and what is in it.
#[derive(Debug)]
pub struct LocalSetup {
    /// The environment variable `USER`.
    pub user: Option<String>,
    /// The environment variable `USERNAME`.
    pub username: Option<String>,
    pub home: Option<String>,
    /// Which of the usual key files there are, in the order of [`identity_candidates`].
    pub identity_exists: [bool; 4],
    /// The content of `~/.ssh/config`.
    pub ssh_config: Option<Vec<u8>>,
}

/// A path below a directory; an absolute path stays what it is. All paths are Unix paths.
pub open spec fn joined(base: Seq<char>, path: Seq<char>) -> Seq<char> {
    if base.len() == 0 || (path.len() > 0 && path[0] == '/') {
        path
    } else if base.last() == '/' {
        base + path
    } else {
        base + "/"@ + path
    }
}

/// A path with a leading `~/` replaced by the home directory, where there is one.
pub open spec fn tilde_expanded(path: Seq<char>, home: Option<Seq<char>>) -> Seq<char> {
    match home {
        Some(home) => if path.len() >= 2 && path[0] == '~' && path[1] == '/' {
            joined(home, path.skip(2))
        } else {
            path
        },
        None => path,
    }
}

/// The usual key files of a home directory.
pub open spec fn candidates(home: Seq<char>) -> Seq<Seq<char>> {
    let dir = joined(home, ".ssh"@);
    seq![
        joined(dir, "id_ed25519"@),
        joined(dir, "id_rsa"@),
        joined(dir, "id_ecdsa"@),
        joined(dir, "id_dsa"@),
    ]
}

/// Those of `paths` whose place in `exists` is set.
pub open spec fn those_that_exist(paths: Seq<Seq<char>>, exists: Seq<bool>) -> Seq<Seq<char>>
    decreases paths.len(),
{
    if paths.len() == 0 {
        Seq::<Seq<char>>::empty()
    } else {
        let before = those_that_exist(paths.drop_last(), exists.take(paths.len() - 1));
        if exists[paths.len() - 1] {
            before.push(paths.last())
        } else {
            before
        }
    }
}

/// The key files to try where nothing else names any.
pub open spec fn default_identities(home: Option<Seq<char>>, exists: Seq<bool>) -> Seq<Seq<char>> {
    match home {
        Some(home) => those_that_exist(candidates(home), exists),
        None => Seq::<Seq<char>>::empty(),
    }
}

/// The name of the user: `USER`, or else `USERNAME`, or else `root`.
pub open spec fn user_name(user: Option<Seq<char>>, username: Option<Seq<char>>) -> Seq<char> {
    match (user, username) {
        (Some(user), _) => user,
        (None, Some(username)) => username,
        (None, None) => "root"@,
    }
}

impl LocalSetup {
    /// How a host is reached that neither the configuration nor the command line says anything of.
    pub open spec fn defaults(self, host: Seq<char>) -> HostConfigView {
        HostConfigView {
            hostname: host,
            port: 22,
            user: user_name(self.user.deep_view(), self.username.deep_view()),
            identity_files: default_identities(self.home.deep_view(), self.identity_exists@),
            proxy_jump: Seq::<Seq<char>>::empty(),
        }
    }
}

/// A host as the configuration has it: what the configuration says replaces what was.
pub open spec fn configured(
    config: HostConfigView,
    params: ParamsView,
    home: Option<Seq<char>>,
) -> HostConfigView {
    HostConfigView {
        hostname: match params.host_name {
            Some(hostname) => hostname,
            None => config.hostname,
        },
        port: match params.port {
            Some(port) => port,
            None => config.port,
        },
        user: match params.user {
            Some(user) => user,
            None => config.user,
        },
        identity_files: match params.identity_file {
            Some(files) => if files.len() > 0 {
                files.map_values(|f: Seq<char>| tilde_expanded(f, home))
            } else {
                config.identity_files
            },
            None => config.identity_files,
        },
        proxy_jump: match params.proxy_jump {
            Some(hosts) => hosts,
            None => config.proxy_jump,
        },
    }
}

impl Overrides {
    /// A host as the command line has it: what the command line says replaces what was.
    pub open spec fn applied(self, config: HostConfigView) -> HostConfigView {
        HostConfigView {
            port: match self.port {
                Some(port) => port,
                None => config.port,
            },
            user: match self.user {
                Some(user) => user,
                None => config.user,
            },
            identity_files: match self.identity {
                Some(identity) => seq![identity],
                None => config.identity_files,
            },
            ..config
        }
    }
}

/// How a host is reached: the command line over the configuration over the defaults.
pub open spec fn resolved(
    host: Seq<char>,
    overrides: Overrides,
    local: LocalSetup,
    params: Option<ParamsView>,
) -> HostConfigView {
    overrides.applied(
        match params {
            Some(params) => configured(local.defaults(host), params, local.home.deep_view()),
            None => local.defaults(host),
        },
    )
}

/// The letter `b` stands for, in lower case.
pub open spec fn lower(b: u8) -> int {
    if 65 <= b <= 90 {
        b + 32
    } else {
        b as int
    }
}

/// Whether a text holds a word at index `i`, in whatever letter case.
pub open spec fn lower_at(text: Seq<u8>, i: int, word: Seq<char>) -> bool {
    &&& 0 <= i <= text.len() - word.len()
    &&& forall|j: int| 0 <= j < word.len() ==> lower(text[i + j]) == #[trigger] word[j] as int
}

/// Whether a byte is a visible ASCII character. Every byte of white space is not.
pub open spec fn is_visible(b: u8) -> bool {
    33 <= b <= 126
}

/// Whether nothing visible stands from `s` up to `i`.
pub open spec fn is_blank(text: Seq<u8>, s: int, i: int) -> bool {
    forall|j: int| s <= j < i ==> !is_visible(#[trigger] text[j])
}

/// Whether nothing visible stands before `i` on its line.
pub open spec fn opens_line(text: Seq<u8>, i: int) -> bool {
    exists|s: int|
        0 <= s <= i && (s == 0 || text[s - 1] == 10) && #[trigger] is_blank(text, s, i)
}

/// Whether what ends at `i` may be the name of a setting that has a value: an equals sign or
/// something that is not visible follows it on its line.
pub open spec fn ends_name(text: Seq<u8>, i: int) -> bool {
    0 <= i < text.len() && text[i] != 10 && (text[i] == 61 || !is_visible(text[i]))
}

/// Whether a line may give a value to the setting `name`, with the name at index `i`.
///
/// Every line that does so passes; one that has bytes before or behind the name that are neither
/// visible nor white space passes too.
pub open spec fn sets_at(text: Seq<u8>, i: int, name: Seq<char>) -> bool {
    lower_at(text, i, name) && opens_line(text, i) && ends_name(text, i + name.len())
}

/// Whether `i` and a later index `k` are on one line.
pub open spec fn on_one_line(text: Seq<u8>, i: int, k: int) -> bool {
    i <= k && forall|j: int| i <= j < k ==> #[trigger] text[j] != 10
}

/// Whether a text holds ten decimal digits in a row at index `i`, which may denote a number that
/// some machines cannot hold.
pub open spec fn is_long_number_at(text: Seq<u8>, i: int) -> bool {
    &&& 0 <= i <= text.len() - 10
    &&& forall|j: int| i <= j < i + 10 ==> 48 <= #[trigger] text[j] <= 57
}

/// Whether no line that may set `name` holds a long number.
pub open spec fn has_short_numbers(text: Seq<u8>, name: Seq<char>) -> bool {
    forall|i: int, k: int| #[trigger]
        sets_at(text, i, name) && #[trigger] is_long_number_at(text, k) ==> !on_one_line(text, i, k)
}

/// Whether a configuration is sure to take in no other file: no line may set `Include`.
///
/// This is a sufficient test: a configuration that fails it may still take in none.
pub open spec fn is_self_contained(text: Seq<u8>) -> bool {
    forall|i: int| !#[trigger] sets_at(text, i, "include"@)
}

/// Whether only spaces and tabs stand from `s` up to `i`.
pub open spec fn is_gap(text: Seq<u8>, s: int, i: int) -> bool {
    forall|j: int| s <= j < i ==> #[trigger] text[j] == 32 || text[j] == 9
}

/// Whether only equals signs stand from `s` up to `i`.
pub open spec fn is_equals(text: Seq<u8>, s: int, i: int) -> bool {
    forall|j: int| s <= j < i ==> #[trigger] text[j] == 61
}

/// Whether a text holds a word at index `i`, and a value ends with it.
pub open spec fn is_value_at(text: Seq<u8>, i: int, word: Seq<char>) -> bool {
    let end = i + word.len();
    &&& lower_at(text, i, word)
    &&& end == text.len() || text[end] == 9 || text[end] == 10 || text[end] == 13 || text[end]
        == 32 || text[end] == 35
}

/// Whether the name that ends at `e` is given yes, no, true or false: behind spaces and tabs,
/// with or without equals signs among them.
pub open spec fn has_truth_value(text: Seq<u8>, e: int) -> bool {
    exists|a: int, b: int, c: int|
        {
            &&& e <= a <= b <= c
            &&& e < c
            &&& #[trigger] is_gap(text, e, a)
            &&& #[trigger] is_equals(text, a, b)
            &&& #[trigger] is_gap(text, b, c)
            &&& is_value_at(text, c, "yes"@) || is_value_at(text, c, "no"@) || is_value_at(
                text,
                c,
                "true"@,
            ) || is_value_at(text, c, "false"@)
        }
}

/// Whether a line may set `UseKeychain`, with the name at index `i`. The letter in its middle is
/// one byte long or, where it is the Kelvin sign, three.
pub open spec fn sets_keychain_at(text: Seq<u8>, i: int, letter: int) -> bool {
    &&& letter == 1 || letter == 3
    &&& lower_at(text, i, "use"@)
    &&& lower_at(text, i + 3 + letter, "eychain"@)
    &&& opens_line(text, i)
    &&& ends_name(text, i + 3 + letter + 7)
}

/// Whether a configuration is sure to be read on every machine that it can be read on at all.
///
/// This is a sufficient test. The parser knows `UseKeychain` on macOS only, so it has to have a
/// value that macOS takes; and the parser reads three settings with the width of the machine, so
/// they must have no long numbers.
pub open spec fn is_portable(text: Seq<u8>) -> bool {
    &&& forall|i: int, letter: int| #[trigger]
        sets_keychain_at(text, i, letter) ==> has_truth_value(text, i + 3 + letter + 7)
    &&& has_short_numbers(text, "connectionattempts"@)
    &&& has_short_numbers(text, "connecttimeout"@)
    &&& has_short_numbers(text, "serveraliveinterval"@)
}

/// Whether a tilde stands at index `i`, on a line that may name key files.
pub open spec fn is_key_tilde(text: Seq<u8>, i: int) -> bool {
    &&& 0 <= i < text.len()
    &&& text[i] == 126
    &&& exists|s: int| #[trigger] sets_at(text, s, "identityfile"@) && on_one_line(text, s, i)
}

/// Whether the tilde at index `i` is read alike on every machine: no backslash and no second
/// slash follows it, and no drive letter.
pub open spec fn is_plain_at(text: Seq<u8>, i: int) -> bool {
    i + 1 < text.len() ==> {
        &&& text[i + 1] != 92
        &&& text[i + 1] == 47 && i + 2 < text.len() ==> text[i + 2] != 47 && text[i + 2] != 92
        &&& text[i + 1] == 47 && i + 3 < text.len() ==> text[i + 3] != 58
    }
}

/// Whether the key files that a configuration names are sure to be spelled alike on every
/// machine: those below the home directory are named plainly, and the home directory is joined
/// without a separator of the machine's own. This is a sufficient test.
pub open spec fn has_plain_paths(text: Seq<u8>, home: Seq<char>) -> bool {
    forall|i: int| #[trigger]
        is_key_tilde(text, i) ==> is_plain_at(text, i) && (home.len() == 0 || home.last() == '/'
            && home[0] != '\\')
}

/// The settings of a configuration that are no paths.
#[verifier::ext_equal]
pub struct Settings {
    pub host_name: Option<Seq<char>>,
    pub port: Option<u16>,
    pub user: Option<Seq<char>>,
    pub proxy_jump: Option<Seq<Seq<char>>>,
}

impl ParamsView {
    /// What is said, but for paths.
    pub open spec fn settings(self) -> Settings {
        Settings {
            host_name: self.host_name,
            port: self.port,
            user: self.user,
            proxy_jump: self.proxy_jump,
        }
    }
}

/// What `ssh2_config` says of `host` by a self-contained configuration, but for paths, or nothing
/// where the text cannot be read.
pub uninterp spec fn settings_of(text: Seq<u8>, host: Seq<char>) -> Option<Settings>;

/// The key files that `ssh2_config` gives for `host` by a self-contained configuration with plain
/// paths, under a home directory.
pub uninterp spec fn identity_files_of(
    text: Seq<u8>,
    host: Seq<char>,
    home: Seq<char>,
) -> Option<Seq<Seq<char>>>;

/// Whether a configuration can be read so, under a home directory; `None` stands for one that
/// cannot be read.
///
/// A self-contained configuration that can be read says what it says, and a portable one can be
/// read if and only if there is something that it says. An empty one says nothing.
pub open spec fn is_answer(
    text: Seq<u8>,
    host: Seq<char>,
    home: Seq<char>,
    params: Option<ParamsView>,
) -> bool {
    &&& is_self_contained(text) ==> match params {
        Some(params) => {
            &&& settings_of(text, host) == Some(params.settings())
            &&& has_plain_paths(text, home) ==> params.identity_file == identity_files_of(
                text,
                host,
                home,
            )
        },
        None => is_portable(text) ==> settings_of(text, host) is None,
    }
    &&& text.len() == 0 ==> params is Some && says_nothing(params->Some_0)
}

/// Calls `ssh2_config::SshConfig::home_dir`, then `SshConfig::parse`, allowing unknown fields,
/// and `SshConfig::query`.
///
/// Trusted: the parser takes in other files for `Include` lines only, and the name of a setting
/// is what comes first on a line. So, of a text that passes for self-contained, what is said of a
/// host but for paths is a function of the text and the host, on every machine that can read the
/// text. A text that passes for portable is read by all machines or by none. The key files are a
/// function of text, host and home directory where the paths pass for plain. An empty
/// configuration can be read and says nothing.
///
/// Left unsaid: what a configuration with an `Include` line comes to, which rests on other files;
/// whether one can be read that gives `UseKeychain` no truth value or one of three settings a
/// long number; and how paths below the home directory are spelled where machines differ in that.
#[verifier::external_body]
fn query_config(text: &[u8], host: &str, home: &str) -> (r: Result<
    ConfigParams,
    ssh2_config::SshParserError,
>)
    ensures
        is_self_contained(text@) ==> match r {
            Ok(params) => settings_of(text@, host@) == Some(params@.settings()),
            Err(_) => is_portable(text@) ==> settings_of(text@, host@) is None,
        },
        is_self_contained(text@) && has_plain_paths(text@, home@) && r is Ok
            ==> r->Ok_0@.identity_file == identity_files_of(text@, host@, home@),
        text@.len() == 0 ==> r is Ok && says_nothing(r->Ok_0@),
{
    let mut reader = text;
    let config = SshConfig::default().home_dir(home).parse(
        &mut reader,
        ParseRule::ALLOW_UNKNOWN_FIELDS,
    )?;
    let params = config.query(host);
    Ok(ConfigParams {
        host_name: params.host_name,
        port: params.port,
        user: params.user,
        identity_file: params.identity_file.map(|files| {
            files.iter().map(|f| f.to_string_lossy().into_owned()).collect()
        }),
        proxy_jump: params.proxy_jump,
    })
}

/// Whether a configuration says nothing of a host.
pub open spec fn says_nothing(params: ParamsView) -> bool {
    &&& params.host_name is None
    &&& params.port is None
    &&& params.user is None
    &&& params.identity_file is None
    &&& params.proxy_jump is None
}

/// A path below a directory.
fn join_path(base: &str, path: &str) -> (r: String)
    ensures
        r@ == joined(base@, path@),
{
    let n = base.unicode_len();
    if n == 0 || (!path.is_empty() && path.get_char(0) == '/') {
        path.to_owned()
    } else if base.get_char(n - 1) == '/' {
        base.to_owned().concat(path)
    } else {
        base.to_owned().concat("/").concat(path)
    }
}

/// Replaces a leading `~/` by the home directory.
pub fn expand_tilde(path: &str, home: Option<&str>) -> (r: String)
    ensures
        r@ == tilde_expanded(path@, text_of(home)),
{
    match home {
        Some(home) => {
            let n = path.unicode_len();
            if n >= 2 && path.get_char(0) == '~' && path.get_char(1) == '/' {
                let rest = path.substring_char(2, n);
                assert(rest@ == path@.skip(2));
                join_path(home, rest)
            } else {
                path.to_owned()
            }
        },
        None => path.to_owned(),
    }
}

/// The name of the user: `USER`, or else `USERNAME`, or else `root`.
pub fn current_user(user: &Option<String>, username: &Option<String>) -> (r: String)
    ensures
        r@ == user_name(user.deep_view(), username.deep_view()),
{
    match (user, username) {
        (Some(user), _) => user.clone(),
        (None, Some(username)) => username.clone(),
        (None, None) => "root".to_owned(),
    }
}

/// The usual key files of a home directory, best first.
pub fn identity_candidates(home: &str) -> (r: Vec<String>)
    ensures
        r.deep_view() == candidates(home@),
{
    let dir = join_path(home, ".ssh");
    let r = vec![
        join_path(&dir, "id_ed25519"),
        join_path(&dir, "id_rsa"),
        join_path(&dir, "id_ecdsa"),
        join_path(&dir, "id_dsa"),
    ];
    assert(r.deep_view() =~= candidates(home@));
    r
}

/// There are four usual key files.
proof fn lemma_candidates(home: Seq<char>, paths: Vec<String>)
    requires
        paths.deep_view() == candidates(home),
    ensures
        paths@.len() == 4,
        forall|i: int| 0 <= i < 4 ==> candidates(home)[i] == (#[trigger] paths@[i])@,
{
    assert(candidates(home).len() == 4);
    assert(paths.deep_view().len() == paths@.len());
    assert forall|i: int| 0 <= i < 4 implies candidates(home)[i] == (#[trigger] paths@[i])@ by {
        assert(paths.deep_view()[i] == paths@[i]@);
    }
}

/// The key files to try where nothing else names any: the usual ones that exist.
pub fn default_identity_files(home: &Option<String>, exists: &[bool; 4]) -> (r: Vec<String>)
    ensures
        r.deep_view() == default_identities(home.deep_view(), exists@),
{
    let mut out: Vec<String> = Vec::new();
    let home = match home {
        Some(home) => home,
        None => {
            assert(out.deep_view() =~= Seq::<Seq<char>>::empty());
            return out;
        },
    };
    let paths = identity_candidates(home);
    let ghost all = candidates(home@);
    proof {
        lemma_candidates(home@, paths);
    }
    let mut i: usize = 0;
    assert(out.deep_view() =~= those_that_exist(all.take(0), exists@.take(0)));
    while i < 4
        invariant
            all.len() == 4,
            paths@.len() == 4,
            forall|j: int| 0 <= j < 4 ==> all[j] == (#[trigger] paths@[j])@,
            i <= 4,
            out.deep_view() == those_that_exist(all.take(i as int), exists@.take(i as int)),
        decreases 4 - i,
    {
        let ghost before = out.deep_view();
        proof {
            assert(all.take(i as int + 1).drop_last() == all.take(i as int));
            assert(all.take(i as int + 1).last() == paths@[i as int]@);
            assert(exists@.take(i as int + 1).take(i as int) == exists@.take(i as int));
            assert(exists@.take(i as int + 1)[i as int] == exists@[i as int]);
        }
        if exists[i] {
            out.push(paths[i].clone());
            assert(out.deep_view() =~= before.push(paths@[i as int]@));
        }
        i += 1;
    }
    assert(all.take(4) == all);
    assert(exists@.take(4) == exists@);
    out
}

/// Lets what a configuration says of a host replace what was.
pub fn apply_params(config: &mut HostConfig, params: ConfigParams, home: Option<&str>)
    ensures
        final(config)@ == configured(old(config)@, params@, text_of(home)),
{
    if let Some(hostname) = params.host_name {
        config.hostname = hostname;
    }
    if let Some(port) = params.port {
        config.port = port;
    }
    if let Some(user) = params.user {
        config.user = user;
    }
    if let Some(files) = params.identity_file {
        if files.len() > 0 {
            config.identity_files = expand_all(&files, home);
        }
    }
    if let Some(hosts) = params.proxy_jump {
        config.proxy_jump = hosts;
    }
}

/// Replaces a leading `~/` in each of several paths.
fn expand_all(files: &Vec<String>, home: Option<&str>) -> (r: Vec<String>)
    ensures
        r.deep_view() == files.deep_view().map_values(
            |f: Seq<char>| tilde_expanded(f, text_of(home)),
        ),
{
    let mut out: Vec<String> = Vec::new();
    let mut i: usize = 0;
    while i < files.len()
        invariant
            i <= files@.len(),
            out@.len() == i,
            forall|j: int|
                0 <= j < i ==> (#[trigger] out@[j])@ == tilde_expanded(files@[j]@, text_of(home)),
        decreases files@.len() - i,
    {
        out.push(expand_tilde(&files[i], home));
        i += 1;
    }
    assert(out.deep_view() =~= files.deep_view().map_values(
        |f: Seq<char>| tilde_expanded(f, text_of(home)),
    ));
    out
}

/// A directory as the parser is told of it: with a slash at its end.
pub open spec fn directory(home: Seq<char>) -> Seq<char> {
    if home.len() == 0 || home.last() == '/' {
        home
    } else {
        home + "/"@
    }
}

/// Puts a slash at the end of a directory.
fn as_directory(home: &str) -> (r: String)
    ensures
        r@ == directory(home@),
{
    let n = home.unicode_len();
    if n == 0 || home.get_char(n - 1) == '/' {
        home.to_owned()
    } else {
        home.to_owned().concat("/")
    }
}

/// Reads the configuration of a home directory and lets what it says of `host` replace what was.
/// A configuration that cannot be read changes nothing.
pub fn apply_ssh_config(config: &mut HostConfig, host: &str, text: &[u8], home: &str) -> (r: Result<
    (),
    ConfigError,
>)
    ensures
        r is Ok ==> exists|params: ParamsView| #[trigger]
            is_answer(text@, host@, directory(home@), Some(params)) && final(config)@
                == configured(old(config)@, params, Some(home@)),
        r is Err ==> is_answer(text@, host@, directory(home@), None) && final(config)@ == old(
            config,
        )@,
{
    let home_dir = as_directory(home);
    match query_config(text, host, &home_dir) {
        Ok(params) => {
            assert(is_answer(text@, host@, directory(home@), Some(params@)));
            apply_params(config, params, Some(home));
            Ok(())
        },
        Err(source) => Err(ConfigError { source }),
    }
}

/// How a host is reached that nothing is known of.
pub fn default_config(host: &str, local: &LocalSetup) -> (r: HostConfig)
    ensures
        r@ == local.defaults(host@),
{
    let r = HostConfig {
        hostname: host.to_owned(),
        port: 22,
        user: current_user(&local.user, &local.username),
        identity_files: default_identity_files(&local.home, &local.identity_exists),
        proxy_jump: Vec::new(),
    };
    assert(r.proxy_jump.deep_view() =~= Seq::<Seq<char>>::empty());
    r
}

/// Lets the command line replace what was.
pub fn apply_overrides(
    config: &mut HostConfig,
    port_override: Option<u16>,
    user_override: Option<&str>,
    identity_override: Option<&str>,
)
    ensures
        final(config)@ == (Overrides {
            port: port_override,
            user: text_of(user_override),
            identity: text_of(identity_override),
        }).applied(old(config)@),
{
    if let Some(port) = port_override {
        config.port = port;
    }
    if let Some(user) = user_override {
        config.user = user.to_owned();
    }
    if let Some(identity) = identity_override {
        config.identity_files = vec![identity.to_owned()];
        assert(config.identity_files.deep_view() =~= seq![identity@]);
    }
}

/// Whether a host is reached so on a machine: by the command line over the configuration over the
/// defaults. Only a home directory has a configuration.
pub open spec fn is_resolution(
    host: Seq<char>,
    overrides: Overrides,
    local: LocalSetup,
    config: HostConfigView,
) -> bool {
    match (local.home, local.ssh_config) {
        (Some(home), Some(text)) => exists|params: Option<ParamsView>| #[trigger]
            is_answer(text@, host, directory(home@), params) && config == resolved(
                host,
                overrides,
                local,
                params,
            ),
        _ => config == resolved(host, overrides, local, None),
    }
}

/// How a host is reached: the command line over the configuration over the defaults. A
/// configuration that cannot be read is as good as none.
pub fn resolve(
    host: &str,
    port_override: Option<u16>,
    user_override: Option<&str>,
    identity_override: Option<&str>,
    local: &LocalSetup,
) -> (r: HostConfig)
    ensures
        is_resolution(
            host@,
            (Overrides {
                port: port_override,
                user: text_of(user_override),
                identity: text_of(identity_override),
            }),
            *local,
            r@,
        ),
{
    let mut config = default_config(host, local);
    if let (Some(home), Some(text)) = (&local.home, &local.ssh_config) {
        let ghost before = config@;
        let applied = apply_ssh_config(&mut config, host, text.as_slice(), home);
        proof {
            if applied is Ok {
                let params = choose|params: ParamsView| #[trigger]
                    is_answer(text@, host@, directory(home@), Some(params)) && config@
                        == configured(before, params, Some(home@));
                assert(is_answer(text@, host@, directory(home@), Some(params)));
            } else {
                assert(is_answer(text@, host@, directory(home@), None));
            }
        }
    }
    apply_overrides(&mut config, port_override, user_override, identity_override);
    config
}

/// A configuration that cannot be read is as good as none, whatever its text: nothing of it is
/// applied. A portable one cannot be read if and only if there is nothing that it says.
pub proof fn law_unreadable_configuration(
    host: Seq<char>,
    overrides: Overrides,
    local: LocalSetup,
    without: LocalSetup,
    params: Option<ParamsView>,
)
    requires
        local.home is Some,
        local.ssh_config is Some,
        without == (LocalSetup { ssh_config: None, ..local }),
        is_answer(local.ssh_config->Some_0@, host, directory(local.home->Some_0@), params),
    ensures
        params is None ==> is_resolution(
            host,
            overrides,
            without,
            resolved(host, overrides, local, params),
        ),
        is_self_contained(local.ssh_config->Some_0@) && is_portable(local.ssh_config->Some_0@) ==> (
        params is None <==> settings_of(local.ssh_config->Some_0@, host) is None),
{
}

/// A self-contained configuration means one thing: two machines that can read it take the same
/// host name, port, user and jump hosts from it.
pub proof fn law_configuration_means_one_thing(
    text: Seq<u8>,
    host: Seq<char>,
    home: Seq<char>,
    other_home: Seq<char>,
    a: ParamsView,
    b: ParamsView,
)
    requires
        is_self_contained(text),
        is_answer(text, host, home, Some(a)),
        is_answer(text, host, other_home, Some(b)),
    ensures
        a.settings() == b.settings(),
        home == other_home && has_plain_paths(text, home) ==> a == b,
{
}

/// What the command line says always holds, whatever the configuration and the machine say; an
/// identity file that it names is the only one.
pub proof fn law_command_line_wins(
    host: Seq<char>,
    overrides: Overrides,
    local: LocalSetup,
    params: Option<ParamsView>,
)
    ensures
        ({
            let config = resolved(host, overrides, local, params);
            &&& overrides.port is Some ==> config.port == overrides.port->Some_0
            &&& overrides.user is Some ==> config.user == overrides.user->Some_0
            &&& overrides.identity is Some ==> config.identity_files
                == seq![overrides.identity->Some_0]
        }),
{
}

/// What the command line leaves open, the configuration decides; jump hosts and the name of the
/// host are its alone.
pub proof fn law_configuration_over_defaults(
    host: Seq<char>,
    overrides: Overrides,
    local: LocalSetup,
    params: ParamsView,
)
    ensures
        ({
            let config = resolved(host, overrides, local, Some(params));
            &&& params.host_name is Some ==> config.hostname == params.host_name->Some_0
            &&& params.proxy_jump is Some ==> config.proxy_jump == params.proxy_jump->Some_0
            &&& params.port is Some && overrides.port is None ==> config.port
                == params.port->Some_0
            &&& params.user is Some && overrides.user is None ==> config.user
                == params.user->Some_0
            &&& params.identity_file is Some && params.identity_file->Some_0.len() > 0
                && overrides.identity is None ==> config.identity_files
                == params.identity_file->Some_0.map_values(
                |f: Seq<char>| tilde_expanded(f, local.home.deep_view()),
            )
        }),
{
}

/// A configuration that says nothing of a host is as good as none.
pub proof fn law_silent_configuration(
    host: Seq<char>,
    overrides: Overrides,
    local: LocalSetup,
    params: ParamsView,
)
    requires
        says_nothing(params),
    ensures
        resolved(host, overrides, local, Some(params)) == resolved(host, overrides, local, None),
{
}

/// Where nothing is said of a host, it is reached under the name that was typed, on port 22, as
/// the current user, with the usual key files that exist, and directly.
pub proof fn law_defaults(host: Seq<char>, overrides: Overrides, local: LocalSetup)
    requires
        overrides.port is None,
        overrides.user is None,
        overrides.identity is None,
    ensures
        ({
            let config = resolved(host, overrides, local, None);
            &&& config.hostname == host
            &&& config.port == 22
            &&& config.user == user_name(local.user.deep_view(), local.username.deep_view())
            &&& config.identity_files == default_identities(
                local.home.deep_view(),
                local.identity_exists@,
            )
            &&& config.proxy_jump.len() == 0
        }),
{
}

/// Where neither the command line nor the configuration names a user, the user is the value of
/// `USER` where that is set, whether or not `USERNAME` is; else the value of `USERNAME` where that
/// is set; and `root` only where neither is.
pub proof fn law_the_environment_names_the_user(
    host: Seq<char>,
    overrides: Overrides,
    local: LocalSetup,
    params: Option<ParamsView>,
)
    requires
        overrides.user is None,
        params is None || params->Some_0.user is None,
    ensures
        ({
            let user = resolved(host, overrides, local, params).user;
            &&& local.user is Some ==> user == local.user->Some_0@
            &&& local.user is None && local.username is Some ==> user == local.username->Some_0@
            &&& local.user is None && local.username is None ==> user == "root"@
        }),
{
}

/// Each part of how a host is reached is decided by itself: by the command line where it speaks of
/// that part, else by the configuration where it does, else by the machine. The name of the host
/// is never the command line's, beyond what was typed, and a configuration without key files
/// leaves the usual ones.
pub proof fn law_each_part_is_decided_by_itself(
    host: Seq<char>,
    overrides: Overrides,
    local: LocalSetup,
    params: Option<ParamsView>,
)
    ensures
        ({
            let r = resolved(host, overrides, local, params);
            let said = params is Some;
            let p = params->Some_0;
            &&& said && p.host_name is Some ==> r.hostname == p.host_name->Some_0
            &&& !(said && p.host_name is Some) ==> r.hostname == host
            &&& overrides.port is Some ==> r.port == overrides.port->Some_0
            &&& overrides.port is None && said && p.port is Some ==> r.port == p.port->Some_0
            &&& overrides.port is None && !(said && p.port is Some) ==> r.port == 22
            &&& overrides.user is Some ==> r.user == overrides.user->Some_0
            &&& overrides.user is None && said && p.user is Some ==> r.user == p.user->Some_0
            &&& said && p.proxy_jump is Some ==> r.proxy_jump == p.proxy_jump->Some_0
            &&& !(said && p.proxy_jump is Some) ==> r.proxy_jump.len() == 0
        }),
{
}

/// A path with a leading `~/` is the rest of it below the home directory, where there is one:
/// the home directory, a slash that is not doubled, and the rest, unless the rest is absolute or
/// the home directory is empty, which leave the rest alone. Every other path stays as it is.
pub proof fn law_tildes_stand_for_home(path: Seq<char>, home: Seq<char>)
    ensures
        tilde_expanded(path, None) == path,
        path.len() < 2 || path[0] != '~' || path[1] != '/' ==> tilde_expanded(path, Some(home))
            == path,
        path.len() >= 2 && path[0] == '~' && path[1] == '/' ==> {
            let rest = path.skip(2);
            let r = tilde_expanded(path, Some(home));
            &&& home.len() == 0 || (rest.len() > 0 && rest[0] == '/') ==> r == rest
            &&& home.len() > 0 && !(rest.len() > 0 && rest[0] == '/') ==> {
                let n = if home.last() == '/' {
                    home.len() as int
                } else {
                    (home.len() + 1) as int
                };
                &&& r.len() == n + rest.len()
                &&& r.take(home.len() as int) == home
                &&& r[n - 1] == '/'
                &&& r.skip(n) == rest
            }
        },
{
    reveal_strlit("/");
    if path.len() >= 2 && path[0] == '~' && path[1] == '/' {
        let rest = path.skip(2);
        let r = tilde_expanded(path, Some(home));
        if home.len() > 0 && !(rest.len() > 0 && rest[0] == '/') {
            let n = if home.last() == '/' {
                home.len() as int
            } else {
                (home.len() + 1) as int
            };
            assert(r.take(home.len() as int) == home);
            assert(r.skip(n) == rest);
        }
    }
}

/// Key files that the configuration names are used in its order, each with its tilde expanded by
/// itself, unless the command line names one, which is then the only one and stays as it was
/// typed. The usual ones are used if and only if neither names any.
pub proof fn law_which_key_files_are_used(
    host: Seq<char>,
    overrides: Overrides,
    local: LocalSetup,
    params: Option<ParamsView>,
    i: int,
)
    ensures
        ({
            let r = resolved(host, overrides, local, params).identity_files;
            let named = params is Some && params->Some_0.identity_file is Some
                && params->Some_0.identity_file->Some_0.len() > 0;
            let files = params->Some_0.identity_file->Some_0;
            let usual = default_identities(local.home.deep_view(), local.identity_exists@);
            &&& overrides.identity is Some ==> r.len() == 1 && r[0] == overrides.identity->Some_0
            &&& overrides.identity is None && named ==> r.len() == files.len() && (0 <= i
                < files.len() ==> r[i] == tilde_expanded(files[i], local.home.deep_view()))
            &&& overrides.identity is None && !named ==> r == usual
        }),
{
}

/// How many of the places before `k` are set.
pub open spec fn set_before(exists: Seq<bool>, k: int) -> nat
    decreases k,
{
    if k <= 0 {
        0
    } else {
        set_before(exists, k - 1) + (if exists[k - 1] {
            1nat
        } else {
            0nat
        })
    }
}

/// The paths that exist are as many as their places that are set, and each is found behind just
/// those before it.
proof fn lemma_those_that_exist(paths: Seq<Seq<char>>, exists: Seq<bool>, k: int)
    requires
        paths.len() <= exists.len(),
        0 <= k < paths.len(),
    ensures
        those_that_exist(paths, exists).len() == set_before(exists, paths.len() as int),
        exists[k] ==> set_before(exists, k) < those_that_exist(paths, exists).len()
            && those_that_exist(paths, exists)[set_before(exists, k) as int] == paths[k],
    decreases paths.len(),
{
    let front = paths.drop_last();
    let places = exists.take(paths.len() - 1);
    lemma_set_before(exists, places, paths.len() - 1);
    if front.len() > 0 {
        let j = if k < front.len() {
            k
        } else {
            0
        };
        lemma_those_that_exist(front, places, j);
        lemma_set_before(exists, places, j);
        lemma_set_before(exists, places, front.len() as int);
    } else {
        assert(those_that_exist(front, places).len() == 0);
    }
}

/// Only the places before count.
proof fn lemma_set_before(a: Seq<bool>, b: Seq<bool>, k: int)
    requires
        0 <= k <= a.len(),
        k <= b.len(),
        forall|i: int| 0 <= i < k ==> a[i] == b[i],
    ensures
        set_before(a, k) == set_before(b, k),
    decreases k,
{
    if k > 0 {
        lemma_set_before(a, b, k - 1);
    }
}

/// The usual key files are those of the four that exist, best first: `id_ed25519`, `id_rsa`,
/// `id_ecdsa` and `id_dsa` in `.ssh` below the home directory. Each that exists is there, behind
/// just those before it that exist, and no other is; without a home directory there is none.
pub proof fn law_usual_key_files(home: Seq<char>, exists: Seq<bool>, k: int)
    requires
        exists.len() == 4,
        0 <= k < 4,
    ensures
        default_identities(None, exists).len() == 0,
        ({
            let r = default_identities(Some(home), exists);
            let name = if k == 0 {
                "id_ed25519"@
            } else if k == 1 {
                "id_rsa"@
            } else if k == 2 {
                "id_ecdsa"@
            } else {
                "id_dsa"@
            };
            let dir = if home.len() == 0 || home.last() == '/' {
                home
            } else {
                home.push('/')
            };
            let path = dir + ".ssh/"@ + name;
            &&& candidates(home).len() == 4
            &&& candidates(home)[k] == path
            &&& r.len() == set_before(exists, 4)
            &&& exists[k] ==> set_before(exists, k) < r.len() && r[set_before(exists, k) as int]
                == path
        }),
        set_before(exists, 0) == 0,
        set_before(exists, k + 1) == set_before(exists, k) + (if exists[k] {
            1int
        } else {
            0int
        }),
{
    reveal_strlit("/");
    reveal_strlit(".ssh");
    reveal_strlit(".ssh/");
    reveal_strlit("id_ed25519");
    reveal_strlit("id_rsa");
    reveal_strlit("id_ecdsa");
    reveal_strlit("id_dsa");
    assert(".ssh/"@ == ".ssh"@.push('/'));
    let dir = if home.len() == 0 || home.last() == '/' {
        home
    } else {
        home.push('/')
    };
    let ssh = joined(home, ".ssh"@);
    assert(ssh == dir + ".ssh"@);
    assert(ssh.last() == 'h');
    assert(joined(ssh, "id_ed25519"@) == dir + ".ssh/"@ + "id_ed25519"@);
    assert(joined(ssh, "id_rsa"@) == dir + ".ssh/"@ + "id_rsa"@);
    assert(joined(ssh, "id_ecdsa"@) == dir + ".ssh/"@ + "id_ecdsa"@);
    assert(joined(ssh, "id_dsa"@) == dir + ".ssh/"@ + "id_dsa"@);
    lemma_those_that_exist(candidates(home), exists, k);
}

/// The parser is told of the home directory itself, with one slash at its end: a path below the
/// one is the same path below the other.
pub proof fn law_the_parser_has_the_same_home(home: Seq<char>, path: Seq<char>)
    ensures
        home.len() == 0 || home.last() == '/' ==> directory(home) == home,
        home.len() > 0 && home.last() != '/' ==> directory(home) == home.push('/'),
        joined(directory(home), path) == joined(home, path),
{
    reveal_strlit("/");
    assert(home + "/"@ == home.push('/'));
    assert(home.push('/') + path == home + "/"@ + path);
}

/// A configuration that can be read and takes in no other file gives its host name, port, user and
/// jump hosts, each as the parser has it, and its key files where they are spelled alike
/// everywhere. A portable one that cannot be read is one of which the parser says nothing, and an
/// empty one can be read.
pub proof fn law_answers_are_the_parsers(
    text: Seq<u8>,
    host: Seq<char>,
    home: Seq<char>,
    params: ParamsView,
)
    ensures
        is_answer(text, host, home, Some(params)) && is_self_contained(text) ==> {
            let s = settings_of(text, host);
            &&& s is Some
            &&& s->Some_0.host_name == params.host_name
            &&& s->Some_0.port == params.port
            &&& s->Some_0.user == params.user
            &&& s->Some_0.proxy_jump == params.proxy_jump
            &&& has_plain_paths(text, home) ==> identity_files_of(text, host, home)
                == params.identity_file
        },
        is_answer(text, host, home, None) && is_self_contained(text) && is_portable(text)
            ==> settings_of(text, host) is None,
        is_answer(text, host, home, None) ==> text.len() > 0,
        is_answer(text, host, home, Some(params)) && text.len() == 0 ==> params.host_name is None
            && params.port is None && params.user is None && params.identity_file is None
            && params.proxy_jump is None,
{
}

/// A resolution with a home directory and a configuration follows from some way in which that
/// configuration can be read for that host under that home directory, or from none of it; without
/// either, the machine and the command line decide alone.
pub proof fn law_resolutions_come_from_the_configuration(
    host: Seq<char>,
    overrides: Overrides,
    local: LocalSetup,
    config: HostConfigView,
)
    requires
        is_resolution(host, overrides, local, config),
    ensures
        local.home is None || local.ssh_config is None ==> config == resolved(
            host,
            overrides,
            local,
            None,
        ),
        local.home is Some && local.ssh_config is Some ==> exists|params: Option<ParamsView>|
            #[trigger]
            is_answer(
                local.ssh_config->Some_0@,
                host,
                directory(local.home->Some_0@),
                params,
            ) && config == resolved(host, overrides, local, params),
{
}

/// A text in which the word does not occur takes in no other file, and one in which none of the
/// words occurs that machines read differently is portable; one without a tilde has plain paths.
pub proof fn law_ordinary_texts_pass(text: Seq<u8>, home: Seq<char>)
    ensures
        (forall|i: int| !#[trigger] lower_at(text, i, "include"@)) ==> is_self_contained(text),
        (forall|i: int| !#[trigger] lower_at(text, i, "eychain"@)) && (forall|i: int|
            !#[trigger] is_long_number_at(text, i)) ==> is_portable(text),
        (forall|i: int| 0 <= i < text.len() ==> #[trigger] text[i] != 126) ==> has_plain_paths(
            text,
            home,
        ),
{
}

/// A line that something visible opens before the word takes in no other file.
pub proof fn law_words_inside_lines_take_in_nothing(text: Seq<u8>)
    requires
        forall|i: int| #[trigger]
            lower_at(text, i, "include"@) ==> exists|s: int|
                0 <= s < i && 33 <= #[trigger] text[s] <= 126 && forall|j: int|
                    s <= j < i ==> #[trigger] text[j] != 10,
    ensures
        is_self_contained(text),
{
    assert forall|i: int| !#[trigger] sets_at(text, i, "include"@) by {
        if sets_at(text, i, "include"@) {
            let s = choose|s: int|
                0 <= s < i && 33 <= #[trigger] text[s] <= 126 && forall|j: int|
                    s <= j < i ==> #[trigger] text[j] != 10;
            let start = choose|start: int|
                0 <= start <= i && (start == 0 || text[start - 1] == 10) && #[trigger] is_blank(
                    text,
                    start,
                    i,
                );
            if start <= s {
                assert(is_visible(text[s]));
            } else {
                assert(text[start - 1] != 10);
            }
        }
    }
}

/// Whether a value of a truth setting stands behind one space at `e`, at the end of its line.
pub open spec fn ends_in_truth(text: Seq<u8>, e: int) -> bool {
    &&& e + 1 < text.len()
    &&& text[e] == 32
    &&& {
        ||| lower_at(text, e + 1, "yes"@) && (e + 4 == text.len() || text[e + 4] == 10)
        ||| lower_at(text, e + 1, "true"@) && (e + 5 == text.len() || text[e + 5] == 10)
        ||| lower_at(text, e + 1, "no"@) && (e + 3 == text.len() || text[e + 3] == 10)
        ||| lower_at(text, e + 1, "false"@) && (e + 6 == text.len() || text[e + 6] == 10)
    }
}

/// `UseKeychain yes`, and the same with no, true or false, is read on every machine; and so is any
/// number, however long, in a text that names none of the settings that are numbers.
pub proof fn law_keychain_lines_pass(text: Seq<u8>)
    requires
        forall|i: int| #[trigger]
            lower_at(text, i, "eychain"@) ==> ends_in_truth(text, i + 7),
        forall|i: int| !#[trigger] lower_at(text, i, "connectionattempts"@),
        forall|i: int| !#[trigger] lower_at(text, i, "connecttimeout"@),
        forall|i: int| !#[trigger] lower_at(text, i, "serveraliveinterval"@),
    ensures
        is_portable(text),
{
    reveal_strlit("yes");
    reveal_strlit("no");
    reveal_strlit("true");
    reveal_strlit("false");
    assert forall|i: int, letter: int| #[trigger]
        sets_keychain_at(text, i, letter) implies has_truth_value(text, i + 3 + letter + 7) by {
        let e = i + 3 + letter + 7;
        assert(ends_in_truth(text, i + 3 + letter + 7));
        let c = e + 1;
        assert(is_gap(text, e, c));
        assert(is_equals(text, c, c));
        assert(is_gap(text, c, c));
        assert(is_value_at(text, c, "yes"@) || is_value_at(text, c, "no"@) || is_value_at(
            text,
            c,
            "true"@,
        ) || is_value_at(text, c, "false"@));
    }
}

/// Key files named by a tilde, a slash and a name that starts with two of the usual characters
/// have plain paths below every home directory that ends in a slash and starts with one.
pub proof fn law_tilde_paths_pass(text: Seq<u8>, home: Seq<char>)
    requires
        home.len() > 0,
        home[0] == '/',
        home.last() == '/',
        forall|i: int|
            0 <= i < text.len() && #[trigger] text[i] == 126 ==> i + 3 < text.len() && text[i + 1]
                == 47 && text[i + 2] != 47 && text[i + 2] != 92 && text[i + 3] != 58,
    ensures
        has_plain_paths(text, home),
{
}

/// A text of the command line as a value is the text, and a missing one is missing.
pub proof fn law_texts_of_the_command_line(text: Option<&str>)
    ensures
        text_of(text) is Some <==> text is Some,
        text is Some ==> text_of(text)->Some_0 == text->Some_0@,
{
}

/// A host as a value, and what a configuration says of one, have all that these have.
pub proof fn law_host_views(config: HostConfig, params: ConfigParams)
    ensures
        config@.hostname == config.hostname@,
        config@.port == config.port,
        config@.user == config.user@,
        config@.identity_files == config.identity_files.deep_view(),
        config@.proxy_jump == config.proxy_jump.deep_view(),
        params@.host_name == params.host_name.deep_view(),
        params@.port == params.port,
        params@.user == params.user.deep_view(),
        params@.identity_file == params.identity_file.deep_view(),
        params@.proxy_jump == params.proxy_jump.deep_view(),
{
}

/// What a configuration says replaces what was, part by part; the rest stays as it was.
pub proof fn law_configurations_replace_part_by_part(
    config: HostConfigView,
    params: ParamsView,
    home: Option<Seq<char>>,
    i: int,
)
    ensures
        ({
            let r = configured(config, params, home);
            let named = params.identity_file is Some && params.identity_file->Some_0.len() > 0;
            &&& params.host_name is Some ==> r.hostname == params.host_name->Some_0
            &&& params.host_name is None ==> r.hostname == config.hostname
            &&& params.port is Some ==> r.port == params.port->Some_0
            &&& params.port is None ==> r.port == config.port
            &&& params.user is Some ==> r.user == params.user->Some_0
            &&& params.user is None ==> r.user == config.user
            &&& params.proxy_jump is Some ==> r.proxy_jump == params.proxy_jump->Some_0
            &&& params.proxy_jump is None ==> r.proxy_jump == config.proxy_jump
            &&& !named ==> r.identity_files == config.identity_files
            &&& named ==> r.identity_files.len() == params.identity_file->Some_0.len() && (0 <= i
                < r.identity_files.len() ==> r.identity_files[i] == tilde_expanded(
                params.identity_file->Some_0[i],
                home,
            ))
        }),
{
}

/// What the command line says replaces what was, part by part; the rest stays as it was.
pub proof fn law_the_command_line_replaces_part_by_part(overrides: Overrides, config: HostConfigView)
    ensures
        ({
            let r = overrides.applied(config);
            &&& r.hostname == config.hostname
            &&& r.proxy_jump == config.proxy_jump
            &&& overrides.port is Some ==> r.port == overrides.port->Some_0
            &&& overrides.port is None ==> r.port == config.port
            &&& overrides.user is Some ==> r.user == overrides.user->Some_0
            &&& overrides.user is None ==> r.user == config.user
            &&& overrides.identity is Some ==> r.identity_files.len() == 1 && r.identity_files[0]
                == overrides.identity->Some_0
            &&& overrides.identity is None ==> r.identity_files == config.identity_files
        }),
{
}

} // verus!
