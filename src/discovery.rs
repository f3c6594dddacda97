//! Finding the running client or game among the processes, choosing how to
//! recover its credentials, and building the address and header from them.
use vstd::prelude::*;
use vstd::string::StringExecFns;

use crate::codec::{encode, encoded_token};
use crate::error::Error;
use crate::lockfile::{parse_lock_file, parse_lock_spec};
use crate::registry::PlatformIdentities;

verus! {

/// Argument of the client's command line that carries the auth token.
pub const AUTH_TOKEN_PREFIX: &'static str = "--remoting-auth-token=";

/// Argument of the client's command line that carries the port.
pub const APP_PORT_PREFIX: &'static str = "--app-port=";

/// One running process, as the operating system reports it.
pub struct ProcessRecord {
    /// The process name.
    pub name: String,
    /// The path of its executable, where the platform reports one.
    pub exe: Option<String>,
    /// Its command-line arguments; empty where they were not fetched.
    pub cmd: Vec<String>,
}

/// What the logic reads of a process.
pub struct ProcessView {
    pub name: Seq<char>,
    pub exe: Option<Seq<char>>,
    pub cmd: Seq<Seq<char>>,
}

impl View for ProcessRecord {
    type V = ProcessView;

    open spec fn view(&self) -> ProcessView {
        ProcessView {
            name: self.name@,
            exe: match self.exe {
                Some(e) => Some(e@),
                None => None,
            },
            cmd: string_views(self.cmd@),
        }
    }
}

/// The views of a sequence of strings.
pub open spec fn string_views(s: Seq<String>) -> Seq<Seq<char>> {
    s.map_values(|a: String| a@)
}

/// The views of a sequence of process records.
pub open spec fn process_views(procs: Seq<ProcessRecord>) -> Seq<ProcessView> {
    procs.map_values(|p: ProcessRecord| p@)
}

/// Which of the two known processes was found.
#[derive(Debug, Clone, Copy, PartialEq, Eq, Structural)]
pub enum MatchKind {
    /// The client, whose command line holds the credentials and whose
    /// directory holds the lock file.
    Client,
    /// The game, whose executable lies one directory below the lock file's.
    Game,
}

/// How the credentials are recovered.
#[derive(Debug, Clone, Copy, PartialEq, Eq, Structural)]
pub enum Strategy {
    /// From the matched process's command-line arguments.
    CommandLine,
    /// From the lock file in the directory of the executable.
    LockFileBesideExe,
    /// From the lock file in the directory above the executable's.
    LockFileAboveExe,
}

/// Whether `name` is one of the two process names looked for.
pub open spec fn is_target(ids: PlatformIdentities, name: Seq<char>) -> bool {
    name == ids.client@ || name == ids.game@
}

/// The index of the first process whose name is looked for.
pub open spec fn first_match(ids: PlatformIdentities, procs: Seq<ProcessView>) -> Option<int>
    decreases procs.len(),
{
    if procs.len() == 0 {
        None
    } else {
        match first_match(ids, procs.drop_last()) {
            Some(i) => Some(i),
            None => if is_target(ids, procs.last().name) {
                Some(procs.len() - 1)
            } else {
                None
            },
        }
    }
}

/// The first match is a target, and no process before it is; there is no
/// match exactly when no process is a target.
pub proof fn lemma_first_match(ids: PlatformIdentities, procs: Seq<ProcessView>)
    ensures
        match first_match(ids, procs) {
            Some(i) => 0 <= i < procs.len() && is_target(ids, procs[i].name) && forall|j: int|
                0 <= j < i ==> !is_target(ids, #[trigger] procs[j].name),
            None => forall|j: int| 0 <= j < procs.len() ==> !is_target(ids, #[trigger] procs[j].name),
        },
    decreases procs.len(),
{
    if procs.len() > 0 {
        let prev = procs.drop_last();
        lemma_first_match(ids, prev);
        assert forall|j: int| 0 <= j < prev.len() implies prev[j] == procs[j] by {}
    }
}

/// Which process a name denotes, the client's name taking precedence.
pub open spec fn kind_of(ids: PlatformIdentities, name: Seq<char>) -> MatchKind {
    if name == ids.client@ {
        MatchKind::Client
    } else {
        MatchKind::Game
    }
}

/// The strategy for a matched process: the command line only for the client,
/// and only when the lock file is not forced.
pub open spec fn strategy_spec(kind: MatchKind, force_lock_file: bool) -> Strategy {
    match kind {
        MatchKind::Client => if force_lock_file {
            Strategy::LockFileBesideExe
        } else {
            Strategy::CommandLine
        },
        MatchKind::Game => Strategy::LockFileAboveExe,
    }
}

/// Chooses how to recover the credentials of the matched process.
pub fn select_strategy(kind: MatchKind, force_lock_file: bool) -> (r: Strategy)
    ensures
        r == strategy_spec(kind, force_lock_file),
{
    match kind {
        MatchKind::Client => if force_lock_file {
            Strategy::LockFileBesideExe
        } else {
            Strategy::CommandLine
        },
        MatchKind::Game => Strategy::LockFileAboveExe,
    }
}

/// Finds the first process whose name is the client's or the game's.
pub fn find_process(ids: &PlatformIdentities, procs: &Vec<ProcessRecord>) -> (r: Option<usize>)
    ensures
        match r {
            Some(i) => first_match(*ids, process_views(procs@)) == Some(i as int),
            None => first_match(*ids, process_views(procs@)) is None,
        },
{
    let ghost views = process_views(procs@);
    let mut i: usize = 0;
    while i < procs.len()
        invariant
            views == process_views(procs@),
            i <= procs.len(),
            first_match(*ids, views.take(i as int)) is None,
        decreases procs.len() - i,
    {
        let name = &procs[i].name;
        assert(views.take(i + 1).drop_last() =~= views.take(i as int));
        if *name == ids.client || *name == ids.game {
            proof {
                lemma_first_match_extends(*ids, views, i as int);
            }
            return Some(i);
        }
        i = i + 1;
    }
    assert(views.take(i as int) =~= views);
    None
}

/// A match within a prefix stays the first match of the whole sequence.
proof fn lemma_first_match_extends(ids: PlatformIdentities, procs: Seq<ProcessView>, i: int)
    requires
        0 <= i < procs.len(),
        first_match(ids, procs.take(i + 1)) == Some(i),
    ensures
        first_match(ids, procs) == Some(i),
    decreases procs.len(),
{
    if procs.len() > i + 1 {
        assert(procs.drop_last().take(i + 1) =~= procs.take(i + 1));
        lemma_first_match_extends(ids, procs.drop_last(), i);
    } else {
        assert(procs.take(i + 1) =~= procs);
    }
}

/// Whether `s` begins with `prefix`.
pub open spec fn has_prefix(s: Seq<char>, prefix: Seq<char>) -> bool {
    prefix.len() <= s.len() && s.take(prefix.len() as int) == prefix
}

/// What follows `prefix` in the first argument that begins with it.
pub open spec fn first_with_prefix(args: Seq<Seq<char>>, prefix: Seq<char>) -> Option<Seq<char>>
    decreases args.len(),
{
    if args.len() == 0 {
        None
    } else {
        match first_with_prefix(args.drop_last(), prefix) {
            Some(v) => Some(v),
            None => if has_prefix(args.last(), prefix) {
                Some(args.last().skip(prefix.len() as int))
            } else {
                None
            },
        }
    }
}

/// There is an argument with the prefix exactly when some argument begins with it.
pub proof fn lemma_first_with_prefix(args: Seq<Seq<char>>, prefix: Seq<char>)
    ensures
        first_with_prefix(args, prefix) is Some <==> exists|k: int|
            0 <= k < args.len() && has_prefix(#[trigger] args[k], prefix),
    decreases args.len(),
{
    if args.len() > 0 {
        let prev = args.drop_last();
        lemma_first_with_prefix(prev, prefix);
        if first_with_prefix(prev, prefix) is Some {
            let k = choose|k: int| 0 <= k < prev.len() && has_prefix(#[trigger] prev[k], prefix);
            assert(args[k] == prev[k]);
        } else {
            assert forall|k: int| 0 <= k < prev.len() implies !has_prefix(
                #[trigger] args[k],
                prefix,
            ) by {
                assert(args[k] == prev[k]);
            }
        }
    }
}

/// The port and the token that the client's command line gives: the token
/// is looked for first, then the port, each in the first argument that
/// carries its prefix.
pub open spec fn command_line_spec(args: Seq<Seq<char>>) -> Result<(Seq<char>, Seq<char>), Error> {
    match first_with_prefix(args, AUTH_TOKEN_PREFIX@) {
        None => Err(Error::AuthTokenNotFound),
        Some(token) => match first_with_prefix(args, APP_PORT_PREFIX@) {
            None => Err(Error::PortNotFound),
            Some(port) => Ok((port, token)),
        },
    }
}

/// What follows `prefix` in `s`, where `s` begins with it.
pub fn strip_prefix(s: &str, prefix: &str) -> (r: Option<String>)
    ensures
        has_prefix(s@, prefix@) ==> r is Some && r->Some_0@ == s@.skip(prefix@.len() as int),
        !has_prefix(s@, prefix@) ==> r is None,
{
    let n = s.unicode_len();
    let m = prefix.unicode_len();
    if m > n {
        return None;
    }
    let mut i: usize = 0;
    while i < m
        invariant
            n == s@.len(),
            m == prefix@.len(),
            m <= n,
            i <= m,
            forall|j: int| 0 <= j < i ==> s@[j] == prefix@[j],
        decreases m - i,
    {
        if s.get_char(i) != prefix.get_char(i) {
            assert(s@.take(m as int)[i as int] != prefix@[i as int]);
            return None;
        }
        i = i + 1;
    }
    assert(s@.take(m as int) =~= prefix@);
    Some(s.substring_char(m, n).to_owned())
}

/// Reads the port and the token from the client's command line, in one pass
/// over the arguments.
pub fn scan_command_line(args: &Vec<String>) -> (r: Result<(String, String), Error>)
    ensures
        match command_line_spec(string_views(args@)) {
            Ok((port, token)) => r is Ok && r->Ok_0.0@ == port && r->Ok_0.1@ == token,
            Err(e) => r == Err::<(String, String), Error>(e),
        },
{
    let ghost views = string_views(args@);
    let mut token: Option<String> = None;
    let mut port: Option<String> = None;
    let mut i: usize = 0;
    while i < args.len()
        invariant
            views == string_views(args@),
            i <= args.len(),
            match first_with_prefix(views.take(i as int), AUTH_TOKEN_PREFIX@) {
                Some(v) => token is Some && token->Some_0@ == v,
                None => token is None,
            },
            match first_with_prefix(views.take(i as int), APP_PORT_PREFIX@) {
                Some(v) => port is Some && port->Some_0@ == v,
                None => port is None,
            },
        decreases args.len() - i,
    {
        assert(views.take(i + 1).drop_last() =~= views.take(i as int));
        assert(views.take(i + 1).last() == args[i as int]@);
        if token.is_none() {
            token = strip_prefix(args[i].as_str(), AUTH_TOKEN_PREFIX);
        }
        if port.is_none() {
            port = strip_prefix(args[i].as_str(), APP_PORT_PREFIX);
        }
        i = i + 1;
    }
    assert(views.take(i as int) =~= views);
    match token {
        None => Err(Error::AuthTokenNotFound),
        Some(token) => match port {
            None => Err(Error::PortNotFound),
            Some(port) => Ok((port, token)),
        },
    }
}

/// The directory that holds `path`, as `std::path::Path::parent` gives it.
pub uninterp spec fn parent_of(path: Seq<char>) -> Option<Seq<char>>;

/// Relies on `std::path::Path::parent`: the path without its last
/// component, or none where the path ends in a root or a prefix, or is empty.
#[verifier::external_body]
fn parent_dir(path: &str) -> (r: Option<String>)
    ensures
        match r {
            Some(d) => parent_of(path@) == Some(d@),
            None => parent_of(path@) is None,
        },
{
    match std::path::Path::new(path).parent() {
        Some(d) => Some(d.to_string_lossy().into_owned()),
        None => None,
    }
}

/// The directory that holds the lock file, for a lock-file strategy and the
/// path of the matched executable.
pub open spec fn install_root(strategy: Strategy, exe: Option<Seq<char>>) -> Option<Seq<char>> {
    match exe {
        None => None,
        Some(e) => match parent_of(e) {
            None => None,
            Some(d) => if strategy == Strategy::LockFileAboveExe {
                parent_of(d)
            } else {
                Some(d)
            },
        },
    }
}

/// Finds the directory that holds the lock file.
pub fn find_install_root(strategy: Strategy, exe: &Option<String>) -> (r: Result<String, Error>)
    ensures
        match install_root(
            strategy,
            match exe {
                Some(e) => Some(e@),
                None => None,
            },
        ) {
            Some(d) => r is Ok && r->Ok_0@ == d,
            None => r == Err::<String, Error>(Error::LockFileNotFound),
        },
{
    let exe = match exe {
        Some(e) => e,
        None => return Err(Error::LockFileNotFound),
    };
    let dir = match parent_dir(exe.as_str()) {
        Some(d) => d,
        None => return Err(Error::LockFileNotFound),
    };
    if strategy == Strategy::LockFileAboveExe {
        match parent_dir(dir.as_str()) {
            Some(d) => Ok(d),
            None => Err(Error::LockFileNotFound),
        }
    } else {
        Ok(dir)
    }
}

/// The address of the client's control plane on `port`.
pub open spec fn address_of(port: Seq<char>) -> Seq<char> {
    "127.0.0.1:"@ + port
}

/// The authorization header value for `token`.
pub open spec fn auth_header_of(token: Seq<char>) -> Seq<char> {
    "Basic "@ + encoded_token(token)
}

/// Builds the address and the authorization header value from the port and
/// the token.
pub fn credentials(port: &str, token: &str) -> (r: (String, String))
    ensures
        r.0@ == address_of(port@),
        r.1@ == auth_header_of(token@),
{
    let address = String::from_str("127.0.0.1:").concat(port);
    let encoded = encode(token);
    let header = String::from_str("Basic ").concat(encoded.as_str());
    (address, header)
}

/// The outcome of looking at the processes: the credentials, or the
/// directory whose lock file must be read to get them.
pub enum Lookup {
    /// The address and the authorization header value.
    Ready(String, String),
    /// The install directory that holds the lock file.
    ReadLockFile(String),
}

/// What the logic reads of a [`Lookup`].
pub enum LookupView {
    Ready(Seq<char>, Seq<char>),
    ReadLockFile(Seq<char>),
}

impl View for Lookup {
    type V = LookupView;

    open spec fn view(&self) -> LookupView {
        match self {
            Lookup::Ready(a, h) => LookupView::Ready(a@, h@),
            Lookup::ReadLockFile(d) => LookupView::ReadLockFile(d@),
        }
    }
}

/// The view of a lookup's result.
pub open spec fn lookup_result_view(r: Result<Lookup, Error>) -> Result<LookupView, Error> {
    match r {
        Ok(l) => Ok(l@),
        Err(e) => Err(e),
    }
}

/// What looking at the processes `procs` gives: the first process that is
/// the client or the game decides, and only it.
pub open spec fn discovery_spec(
    ids: PlatformIdentities,
    procs: Seq<ProcessView>,
    force_lock_file: bool,
) -> Result<LookupView, Error> {
    match first_match(ids, procs) {
        None => Err(Error::LCUProcessNotRunning),
        Some(i) => {
            let p = procs[i];
            let strategy = strategy_spec(kind_of(ids, p.name), force_lock_file);
            if strategy == Strategy::CommandLine {
                match command_line_spec(p.cmd) {
                    Err(e) => Err(e),
                    Ok((port, token)) => Ok(
                        LookupView::Ready(address_of(port), auth_header_of(token)),
                    ),
                }
            } else {
                match install_root(strategy, p.exe) {
                    None => Err(Error::LockFileNotFound),
                    Some(d) => Ok(LookupView::ReadLockFile(d)),
                }
            }
        },
    }
}

/// Looks at a snapshot of the processes: gives the credentials where the
/// client's command line holds them, or else the directory whose lock file
/// holds them.
pub fn start_discovery(
    ids: &PlatformIdentities,
    procs: &Vec<ProcessRecord>,
    force_lock_file: bool,
) -> (r: Result<Lookup, Error>)
    ensures
        lookup_result_view(r) == discovery_spec(
            *ids,
            process_views(procs@),
            force_lock_file,
        ),
{
    let i = match find_process(ids, procs) {
        Some(i) => i,
        None => return Err(Error::LCUProcessNotRunning),
    };
    proof {
        lemma_first_match(*ids, process_views(procs@));
    }
    let p = &procs[i];
    let kind = if p.name == ids.client {
        MatchKind::Client
    } else {
        MatchKind::Game
    };
    let strategy = select_strategy(kind, force_lock_file);
    assert(process_views(procs@)[i as int] == p@);
    if strategy == Strategy::CommandLine {
        match scan_command_line(&p.cmd) {
            Err(e) => Err(e),
            Ok((port, token)) => {
                let (address, header) = credentials(port.as_str(), token.as_str());
                Ok(Lookup::Ready(address, header))
            },
        }
    } else {
        match find_install_root(strategy, &p.exe) {
            Err(e) => Err(e),
            Ok(d) => Ok(Lookup::ReadLockFile(d)),
        }
    }
}

/// Finishes discovery from the lock file's contents, or from the failure to
/// read it (`None`).
pub fn credentials_from_lock_file(contents: Option<&str>) -> (r: Result<(String, String), Error>)
    ensures
        match contents {
            None => r == Err::<(String, String), Error>(Error::StdIo),
            Some(c) => match parse_lock_spec(c@) {
                Ok((port, token)) => r is Ok && r->Ok_0.0@ == address_of(port) && r->Ok_0.1@
                    == auth_header_of(token),
                Err(e) => r == Err::<(String, String), Error>(e),
            },
        },
{
    match contents {
        None => Err(Error::StdIo),
        Some(c) => match parse_lock_file(c) {
            Err(e) => Err(e),
            Ok((port, token)) => Ok(credentials(port.as_str(), token.as_str())),
        },
    }
}

/// The first process of `procs` that is the client or the game is the one at `i`.
pub open spec fn is_first_target(ids: PlatformIdentities, procs: Seq<ProcessView>, i: int) -> bool {
    &&& 0 <= i < procs.len()
    &&& is_target(ids, procs[i].name)
    &&& forall|j: int| 0 <= j < i ==> !is_target(ids, #[trigger] procs[j].name)
}

proof fn lemma_first_target(ids: PlatformIdentities, procs: Seq<ProcessView>, i: int)
    requires
        is_first_target(ids, procs, i),
    ensures
        first_match(ids, procs) == Some(i),
{
    lemma_first_match(ids, procs);
    match first_match(ids, procs) {
        Some(k) => {
            if k < i {
                assert(!is_target(ids, procs[k].name));
            } else if k > i {
                assert(!is_target(ids, procs[i].name));
            }
        },
        None => {
            assert(!is_target(ids, procs[i].name));
        },
    }
}

/// Where no process is the client or the game, discovery fails with
/// `LCUProcessNotRunning`, whether the lock file is forced or not.
pub proof fn lemma_not_running(ids: PlatformIdentities, procs: Seq<ProcessView>, force_lock_file: bool)
    requires
        forall|j: int| 0 <= j < procs.len() ==> !is_target(ids, #[trigger] procs[j].name),
    ensures
        discovery_spec(ids, procs, force_lock_file) == Err::<LookupView, Error>(
            Error::LCUProcessNotRunning,
        ),
{
    lemma_first_match(ids, procs);
    if let Some(i) = first_match(ids, procs) {
        assert(!is_target(ids, procs[i].name));
    }
}

/// With the lock file forced, a matched client is looked up by the lock file
/// in the directory of its executable, whatever its command line holds.
pub proof fn lemma_forced_client_uses_lock_file(
    ids: PlatformIdentities,
    procs: Seq<ProcessView>,
    i: int,
)
    requires
        is_first_target(ids, procs, i),
        procs[i].name == ids.client@,
    ensures
        discovery_spec(ids, procs, true) == match procs[i].exe {
            None => Err(Error::LockFileNotFound),
            Some(e) => match parent_of(e) {
                None => Err(Error::LockFileNotFound),
                Some(d) => Ok(LookupView::ReadLockFile(d)),
            },
        },
{
    lemma_first_target(ids, procs, i);
}

/// Without the lock file forced, a matched client whose command line lacks
/// only the token fails with `AuthTokenNotFound`, and one that lacks only the
/// port fails with `PortNotFound`.
pub proof fn lemma_command_line_failures(ids: PlatformIdentities, procs: Seq<ProcessView>, i: int)
    requires
        is_first_target(ids, procs, i),
        procs[i].name == ids.client@,
    ensures
        ({
            let args = procs[i].cmd;
            let has_port = exists|k: int|
                0 <= k < args.len() && has_prefix(#[trigger] args[k], APP_PORT_PREFIX@);
            let has_token = exists|k: int|
                0 <= k < args.len() && has_prefix(#[trigger] args[k], AUTH_TOKEN_PREFIX@);
            &&& has_port && !has_token ==> discovery_spec(ids, procs, false) == Err::<
                LookupView,
                Error,
            >(Error::AuthTokenNotFound)
            &&& has_token && !has_port ==> discovery_spec(ids, procs, false) == Err::<
                LookupView,
                Error,
            >(Error::PortNotFound)
        }),
{
    lemma_first_target(ids, procs, i);
    lemma_first_with_prefix(procs[i].cmd, APP_PORT_PREFIX@);
    lemma_first_with_prefix(procs[i].cmd, AUTH_TOKEN_PREFIX@);
}

/// A matched game is always looked up by the lock file two directories above
/// its executable, never by its command line, whether the lock file is
/// forced or not.
pub proof fn lemma_game_uses_lock_file_above(
    ids: PlatformIdentities,
    procs: Seq<ProcessView>,
    i: int,
    force_lock_file: bool,
)
    requires
        is_first_target(ids, procs, i),
        procs[i].name == ids.game@,
        procs[i].name != ids.client@,
    ensures
        discovery_spec(ids, procs, force_lock_file) == match procs[i].exe {
            None => Err(Error::LockFileNotFound),
            Some(e) => match parent_of(e) {
                None => Err(Error::LockFileNotFound),
                Some(d) => match parent_of(d) {
                    None => Err(Error::LockFileNotFound),
                    Some(g) => Ok(LookupView::ReadLockFile(g)),
                },
            },
        },
{
    lemma_first_target(ids, procs, i);
}

} // verus!
