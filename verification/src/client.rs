//! Client (`ncap`): the request it sends, what it makes of each frame, host
//! signal and stdin chunk, and the exit code it reports.

use vstd::prelude::*;

use crate::environment::Environment;
use crate::json;
use crate::protocol::{DecodeError, EncodeError, Exit, Message, MessageModel, Request, SignalMsg};
use crate::text::{self, views};

verus! {

/// Number of the interrupt signal.
pub const SIGINT: u8 = 2;

/// Number of the termination signal.
pub const SIGTERM: u8 = 15;

/// Exit code for an orderly server shutdown: 128 + SIGTERM. `ServerStopping`
/// and a clean close without a terminal frame both carry it.
pub const SHUTDOWN_EXIT: i32 = 143;

/// Outcome of a session: the exit code the client process reports plus any
/// notice the entry point renders on stderr before exiting.
#[derive(Debug, Clone, PartialEq, Eq)]
pub struct Outcome {
    pub code: i32,
    pub notice: Option<String>,
}

impl Outcome {
    /// The outcome has this code and notice.
    pub open spec fn is(self, code: int, notice: Option<Seq<char>>) -> bool {
        self.code == code && match (self.notice, notice) {
            (Some(have), Some(want)) => have@ == want,
            (None, None) => true,
            _ => false,
        }
    }

    fn just(code: i32) -> (o: Self)
        ensures
            o.is(code as int, None),
    {
        Outcome { code, notice: None }
    }

    fn with_notice(code: i32, notice: String) -> (o: Self)
        ensures
            o.is(code as int, Some(notice@)),
    {
        Outcome { code, notice: Some(notice) }
    }
}

/// A host signal that the client relays.
#[derive(Debug, Clone, Copy, PartialEq, Eq, Structural)]
pub enum HostSignal {
    Interrupt,
    Terminate,
}

impl HostSignal {
    /// The signal's POSIX number.
    pub open spec fn number(self) -> u8 {
        match self {
            HostSignal::Interrupt => SIGINT,
            HostSignal::Terminate => SIGTERM,
        }
    }

    /// The signal's name.
    pub open spec fn title(self) -> Seq<char> {
        match self {
            HostSignal::Interrupt => "SIGINT"@,
            HostSignal::Terminate => "SIGTERM"@,
        }
    }
}

/// Which of the client's own streams a relayed chunk goes to.
#[derive(Debug, Clone, Copy, PartialEq, Eq, Structural)]
pub enum Stream {
    Stdout,
    Stderr,
}

/// Failure modes on the client's side of the connection. Causes from the
/// operating system come as their text.
#[allow(inconsistent_fields)]
#[derive(Debug, Clone, PartialEq, Eq)]
pub enum ClientError {
    Connect { socket: String, source: String },
    CurrentDir { source: String },
    WriteStdout { source: String },
    WriteStderr { source: String },
    SignalHandler { signal: HostSignal, source: String },
    ForwardEnv { source: String },
    EnvFlag { flag: String },
    MissingExitStatus,
    Receive { source: DecodeError },
    Send { source: EncodeError },
    ServerError { message: String },
}

impl ClientError {
    /// What `message` says.
    pub open spec fn text(self) -> Seq<char> {
        match self {
            ClientError::Connect { socket, source } => "cannot connect to socket `"@ + socket@
                + "`: "@ + source@,
            ClientError::CurrentDir { source } => "cannot resolve the current directory: "@
                + source@,
            ClientError::WriteStdout { source } => "cannot write to stdout: "@ + source@,
            ClientError::WriteStderr { source } => "cannot write to stderr: "@ + source@,
            ClientError::SignalHandler { signal, source } => "cannot install the `"@
                + signal.title() + "` handler: "@ + source@,
            ClientError::ForwardEnv {
                source,
            } => "`NCAP_ENV_FORWARD` is not a JSON array of variable names: "@ + source@,
            ClientError::EnvFlag { flag } => "`--env` `"@ + flag@ + "` has an empty key"@,
            ClientError::MissingExitStatus => "`Exit` frame carries neither `code` nor `signal`"@,
            ClientError::Receive { source } => "cannot read a frame from the socket: "@
                + source.text(),
            ClientError::Send { source } => "cannot send a frame to the socket: "@ + source.text(),
            ClientError::ServerError { message } => "server error: "@ + message@,
        }
    }

    /// The error for people, without the program's name.
    pub fn message(&self) -> (out: String)
        ensures
            out@ == self.text(),
    {
        let mut out: String = String::new();
        match self {
            ClientError::Connect { socket, source } => {
                out.append("cannot connect to socket `");
                out.append(socket.as_str());
                out.append("`: ");
                out.append(source.as_str());
            },
            ClientError::CurrentDir { source } => {
                out.append("cannot resolve the current directory: ");
                out.append(source.as_str());
            },
            ClientError::WriteStdout { source } => {
                out.append("cannot write to stdout: ");
                out.append(source.as_str());
            },
            ClientError::WriteStderr { source } => {
                out.append("cannot write to stderr: ");
                out.append(source.as_str());
            },
            ClientError::SignalHandler { signal, source } => {
                out.append("cannot install the `");
                match signal {
                    HostSignal::Interrupt => out.append("SIGINT"),
                    HostSignal::Terminate => out.append("SIGTERM"),
                }
                out.append("` handler: ");
                out.append(source.as_str());
            },
            ClientError::ForwardEnv { source } => {
                out.append("`NCAP_ENV_FORWARD` is not a JSON array of variable names: ");
                out.append(source.as_str());
            },
            ClientError::EnvFlag { flag } => {
                out.append("`--env` `");
                out.append(flag.as_str());
                out.append("` has an empty key");
            },
            ClientError::MissingExitStatus => {
                out.append("`Exit` frame carries neither `code` nor `signal`");
            },
            ClientError::Receive { source } => {
                out.append("cannot read a frame from the socket: ");
                out.append(source.message().as_str());
            },
            ClientError::Send { source } => {
                out.append("cannot send a frame to the socket: ");
                out.append(source.message().as_str());
            },
            ClientError::ServerError { message } => {
                out.append("server error: ");
                out.append(message.as_str());
            },
        }
        proof {
            assert(out@ =~= self.text());
        }
        out
    }
}

/// The exit code and the message on stderr that `result` comes to: an
/// unreachable server comes with the advice to start it.
pub fn report(result: Result<Outcome, ClientError>) -> (r: (i32, Option<String>))
    ensures
        match result {
            Ok(outcome) => r.0 == outcome.code && r.1 == outcome.notice,
            Err(err) => r.0 == 1 && r.1 is Some && r.1->0@ == if err is Connect {
                err.text() + "\nrun `ncap-ctl init` to start this project's container"@
            } else {
                err.text()
            },
        },
{
    match result {
        Ok(outcome) => (outcome.code, outcome.notice),
        Err(err) => {
            let mut message = err.message();
            if let ClientError::Connect { .. } = err {
                message.append("\nrun `ncap-ctl init` to start this project's container");
            }
            (1, Some(message))
        },
    }
}

// ---------------------------------------------------------------------------
// The request's environment
// ---------------------------------------------------------------------------

/// Position of the entry for `key`, the number of entries when there is none.
pub open spec fn key_index(entries: Seq<(Seq<char>, Seq<char>)>, key: Seq<char>) -> int
    decreases entries.len(),
{
    if entries.len() == 0 || entries[0].0 == key {
        0
    } else {
        1 + key_index(entries.drop_first(), key)
    }
}

/// `entries` with `key` set to `value`: in place where the key is already
/// there, at the end otherwise.
pub open spec fn applied(
    entries: Seq<(Seq<char>, Seq<char>)>,
    key: Seq<char>,
    value: Seq<char>,
) -> Seq<(Seq<char>, Seq<char>)> {
    let i = key_index(entries, key);
    if i < entries.len() {
        entries.update(i, (key, value))
    } else {
        entries.push((key, value))
    }
}

/// The names that are set, each with its value.
pub open spec fn forwarded(
    names: Seq<Seq<char>>,
    vars: Map<Seq<char>, Seq<char>>,
) -> Seq<(Seq<char>, Seq<char>)>
    decreases names.len(),
{
    if names.len() == 0 {
        Seq::empty()
    } else {
        let before = forwarded(names.drop_last(), vars);
        if vars.contains_key(names.last()) {
            applied(before, names.last(), vars[names.last()])
        } else {
            before
        }
    }
}

/// What one `--env` flag comes to.
pub enum FlagModel {
    /// Set the key to the value.
    Entry(Seq<char>, Seq<char>),
    /// A bare key that is not set: nothing.
    Unset,
    /// An empty key.
    Bad,
}

/// `KEY=VALUE` carries its value, a bare `KEY` copies the one that is set.
pub open spec fn flag_model(flag: Seq<char>, vars: Map<Seq<char>, Seq<char>>) -> FlagModel {
    let i = text::first_index(flag, '=');
    if i == 0 {
        // `=VALUE`, or nothing at all.
        FlagModel::Bad
    } else if i < flag.len() {
        FlagModel::Entry(flag.take(i), flag.skip(i + 1))
    } else if vars.contains_key(flag) {
        FlagModel::Entry(flag, vars[flag])
    } else {
        FlagModel::Unset
    }
}

/// `entries` with the flags applied in order, or the first flag whose key is
/// empty.
pub open spec fn flagged(
    entries: Seq<(Seq<char>, Seq<char>)>,
    flags: Seq<Seq<char>>,
    vars: Map<Seq<char>, Seq<char>>,
) -> Result<Seq<(Seq<char>, Seq<char>)>, Seq<char>>
    decreases flags.len(),
{
    if flags.len() == 0 {
        Ok(entries)
    } else {
        match flagged(entries, flags.drop_last(), vars) {
            Err(flag) => Err(flag),
            Ok(before) => match flag_model(flags.last(), vars) {
                FlagModel::Entry(key, value) => Ok(applied(before, key, value)),
                FlagModel::Unset => Ok(before),
                FlagModel::Bad => Err(flags.last()),
            },
        }
    }
}

/// The forwarded names first, then the flags.
pub open spec fn merged(
    names: Seq<Seq<char>>,
    flags: Seq<Seq<char>>,
    vars: Map<Seq<char>, Seq<char>>,
) -> Result<Seq<(Seq<char>, Seq<char>)>, Seq<char>> {
    flagged(forwarded(names, vars), flags, vars)
}

/// `KEY=VALUE` for each entry.
pub open spec fn rendered(entries: Seq<(Seq<char>, Seq<char>)>) -> Seq<Seq<char>> {
    entries.map_values(|e: (Seq<char>, Seq<char>)| e.0 + "="@ + e.1)
}

/// The characters of keys and values.
pub open spec fn pair_views(entries: Seq<(String, String)>) -> Seq<(Seq<char>, Seq<char>)> {
    entries.map_values(|e: (String, String)| (e.0@, e.1@))
}

/// `key_index` finds the first entry for `key`.
proof fn lemma_key_index(entries: Seq<(Seq<char>, Seq<char>)>, key: Seq<char>)
    ensures
        0 <= key_index(entries, key) <= entries.len(),
        key_index(entries, key) < entries.len() ==> entries[key_index(entries, key)].0 == key,
        forall|j: int| 0 <= j < key_index(entries, key) ==> (#[trigger] entries[j]).0 != key,
    decreases entries.len(),
{
    if entries.len() > 0 && entries[0].0 != key {
        lemma_key_index(entries.drop_first(), key);
        assert forall|j: int| 0 <= j < key_index(entries, key) implies (#[trigger] entries[j]).0
            != key by {
            if j > 0 {
                assert(entries[j] == entries.drop_first()[j - 1]);
            }
        }
    }
}

/// A position that holds `key`, with none before it, is the first.
proof fn lemma_key_index_is(entries: Seq<(Seq<char>, Seq<char>)>, key: Seq<char>, i: int)
    requires
        0 <= i <= entries.len(),
        i < entries.len() ==> entries[i].0 == key,
        forall|j: int| 0 <= j < i ==> (#[trigger] entries[j]).0 != key,
    ensures
        key_index(entries, key) == i,
{
    lemma_key_index(entries, key);
    let k = key_index(entries, key);
    if k < i {
        assert(entries[k].0 != key);
    } else if i < k {
        assert(entries[i].0 != key);
    }
}

/// Set `key` to `value`, replacing in place when the key already arrived:
/// later wins with the first occurrence's position kept.
pub fn apply_entry(entries: &mut Vec<(String, String)>, key: &str, value: String)
    ensures
        pair_views(final(entries)@) == applied(pair_views(old(entries)@), key@, value@),
{
    let ghost before = pair_views(entries@);
    let mut i: usize = 0;
    while i < entries.len()
        invariant
            i <= entries@.len(),
            pair_views(entries@) == before,
            before == pair_views(old(entries)@),
            forall|j: int| 0 <= j < i ==> (#[trigger] entries@[j]).0@ != key@,
        decreases entries@.len() - i,
    {
        if text::same(entries[i].0.as_str(), key) {
            proof {
                assert forall|j: int| 0 <= j < i implies (#[trigger] before[j]).0 != key@ by {
                    assert(entries@[j].0@ != key@);
                }
                lemma_key_index_is(before, key@, i as int);
            }
            entries.set(i, (key.to_owned(), value));
            proof {
                assert(pair_views(entries@) =~= before.update(i as int, (key@, value@)));
            }
            return ;
        }
        i = i + 1;
    }
    proof {
        assert forall|j: int| 0 <= j < i implies (#[trigger] before[j]).0 != key@ by {
            assert(entries@[j].0@ != key@);
        }
        lemma_key_index_is(before, key@, i as int);
    }
    entries.push((key.to_owned(), value));
    proof {
        assert(pair_views(entries@) =~= before.push((key@, value@)));
    }
}

/// One `--env` flag: `KEY=VALUE` carries an explicit value, bare `KEY` copies
/// from `env` when set. An empty key (`=VALUE`, or the empty string) is an
/// error.
fn resolve_flag(flag: &String, env: &Environment) -> (r: Result<
    Option<(String, String)>,
    ClientError,
>)
    ensures
        match flag_model(flag@, env@) {
            FlagModel::Entry(key, value) => r matches Ok(Some(e)) && e.0@ == key && e.1@ == value,
            FlagModel::Unset => r == Ok::<Option<(String, String)>, ClientError>(None),
            FlagModel::Bad => r matches Err(ClientError::EnvFlag { flag: f }) && f@
                == flag@,
        },
{
    let chars = text::chars_of(flag.as_str());
    let at: usize = text::find(&chars, '=');
    proof {
        text::lemma_first_index(chars@, '=');
    }
    if at == 0 {
        return Err(ClientError::EnvFlag { flag: flag.clone() });
    }
    if at < chars.len() {
        let key = text::substring(&chars, 0, at);
        let value = text::substring(&chars, at + 1, chars.len());
        proof {
            assert(key@ =~= flag@.take(at as int));
            assert(value@ =~= flag@.skip(at + 1));
        }
        return Ok(Some((key, value)));
    }
    match env.get(flag.as_str()) {
        Some(value) => Ok(Some((flag.clone(), value))),
        None => Ok(None),
    }
}

/// The request's environment: every name of `names` that `env` sets, then
/// the `--env` flags. Later wins by key, nothing occurs twice, unset names
/// are left out, an empty key is an error naming the flag.
pub fn merge_env(names: &Vec<String>, flags: &Vec<String>, env: &Environment) -> (r: Result<
    Vec<String>,
    ClientError,
>)
    ensures
        match merged(views(names@), views(flags@), env@) {
            Ok(entries) => r is Ok && views(r->Ok_0@) == rendered(entries),
            Err(flag) => r matches Err(ClientError::EnvFlag { flag: f }) && f@
                == flag,
        },
{
    let mut entries: Vec<(String, String)> = Vec::new();
    let mut i: usize = 0;
    proof {
        assert(pair_views(entries@) =~= forwarded(views(names@).take(0), env@));
    }
    while i < names.len()
        invariant
            i <= names@.len(),
            pair_views(entries@) == forwarded(views(names@).take(i as int), env@),
        decreases names@.len() - i,
    {
        proof {
            let t = views(names@).take(i + 1);
            assert(t.drop_last() =~= views(names@).take(i as int));
            assert(t.last() == names@[i as int]@);
        }
        if let Some(value) = env.get(names[i].as_str()) {
            apply_entry(&mut entries, names[i].as_str(), value);
        }
        i = i + 1;
    }
    let ghost base = forwarded(views(names@), env@);
    let mut k: usize = 0;
    proof {
        assert(views(names@).take(i as int) =~= views(names@));
    }
    while k < flags.len()
        invariant
            k <= flags@.len(),
            base == forwarded(views(names@), env@),
            flagged(base, views(flags@).take(k as int), env@) == Ok::<
                Seq<(Seq<char>, Seq<char>)>,
                Seq<char>,
            >(pair_views(entries@)),
        decreases flags@.len() - k,
    {
        proof {
            let t = views(flags@).take(k + 1);
            assert(t.drop_last() =~= views(flags@).take(k as int));
            assert(t.last() == flags@[k as int]@);
            if flagged(base, t, env@) is Err {
                lemma_flag_error_stays(base, views(flags@), env@, k + 1);
            }
        }
        match resolve_flag(&flags[k], env) {
            Err(err) => return Err(err),
            Ok(Some((key, value))) => apply_entry(&mut entries, key.as_str(), value),
            Ok(None) => {},
        }
        k = k + 1;
    }
    proof {
        assert(views(flags@).take(k as int) =~= views(flags@));
    }
    Ok(render_entries(&entries))
}

/// Once a flag is in error, so are all longer lists, and in the same flag.
proof fn lemma_flag_error_stays(
    base: Seq<(Seq<char>, Seq<char>)>,
    flags: Seq<Seq<char>>,
    vars: Map<Seq<char>, Seq<char>>,
    n: int,
)
    requires
        0 <= n <= flags.len(),
        flagged(base, flags.take(n), vars) is Err,
    ensures
        flagged(base, flags, vars) == flagged(base, flags.take(n), vars),
    decreases flags.len(),
{
    if n == flags.len() {
        assert(flags.take(n) =~= flags);
    } else {
        assert(flags.drop_last().take(n) =~= flags.take(n));
        lemma_flag_error_stays(base, flags.drop_last(), vars, n);
    }
}

/// `KEY=VALUE` for each entry.
fn render_entries(entries: &Vec<(String, String)>) -> (out: Vec<String>)
    ensures
        views(out@) == rendered(pair_views(entries@)),
{
    let mut out: Vec<String> = Vec::new();
    let mut i: usize = 0;
    while i < entries.len()
        invariant
            i <= entries@.len(),
            out@.len() == i,
            forall|j: int| 0 <= j < i ==> (#[trigger] out@[j])@ == entries@[j].0@ + "="@
                + entries@[j].1@,
        decreases entries@.len() - i,
    {
        let mut line = entries[i].0.clone();
        line.append("=");
        line.append(entries[i].1.as_str());
        out.push(line);
        i = i + 1;
    }
    proof {
        assert(views(out@) =~= rendered(pair_views(entries@)));
    }
    out
}

/// The request's environment, with the forward list still in its raw form: a
/// JSON array of names, or an error that says why it is none. Without a list
/// nothing is forwarded.
pub fn build_env(flags: &Vec<String>, forward: Option<&str>, env: &Environment) -> (r: Result<
    Vec<String>,
    ClientError,
>)
    ensures
        match forward_names(forward) {
            Err(message) => r matches Err(ClientError::ForwardEnv { source })
                && source@ == message,
            Ok(names) => match merged(names, views(flags@), env@) {
                Ok(entries) => r is Ok && views(r->Ok_0@) == rendered(entries),
                Err(flag) => r matches Err(ClientError::EnvFlag { flag: f }) && f@
                    == flag,
            },
        },
{
    let names = match forward {
        Some(raw) => match json::read_string_array(raw) {
            Ok(names) => names,
            Err(source) => return Err(ClientError::ForwardEnv { source }),
        },
        None => Vec::new(),
    };
    proof {
        if forward is None {
            assert(views(names@) =~= Seq::<Seq<char>>::empty());
        }
    }
    merge_env(&names, flags, env)
}

/// The names in a raw forward list.
pub open spec fn forward_names(forward: Option<&str>) -> Result<Seq<Seq<char>>, Seq<char>> {
    match forward {
        Some(raw) => json::string_array(raw@),
        None => Ok(Seq::empty()),
    }
}

/// The request for `command`, run in `cwd` or else in the directory that the
/// client itself is in. A client that cannot tell its directory fails first.
pub fn build_request(
    cwd: Option<String>,
    current_dir: Result<String, String>,
    flags: &Vec<String>,
    command: &Vec<String>,
    forward: Option<&str>,
    env: &Environment,
) -> (r: Result<Request, ClientError>)
    requires
        command@.len() > 0,
    ensures
        cwd is None && current_dir is Err ==> r is Err && r->Err_0 == (ClientError::CurrentDir {
            source: current_dir->Err_0,
        }),
        !(cwd is None && current_dir is Err) ==> match forward_names(forward) {
            Err(message) => r matches Err(ClientError::ForwardEnv { source })
                && source@ == message,
            Ok(names) => match merged(names, views(flags@), env@) {
                Err(flag) => r matches Err(ClientError::EnvFlag { flag: f }) && f@
                    == flag,
                Ok(entries) => r is Ok && {
                    let request = r->Ok_0@;
                    &&& request.command == command@[0]@
                    &&& request.args == views(command@.drop_first())
                    &&& request.cwd == if cwd is Some {
                        cwd->0@
                    } else {
                        current_dir->Ok_0@
                    }
                    &&& request.env == rendered(entries)
                },
            },
        },
{
    let cwd = match cwd {
        Some(cwd) => cwd,
        None => match current_dir {
            Ok(dir) => dir,
            Err(source) => return Err(ClientError::CurrentDir { source }),
        },
    };
    let env = match build_env(flags, forward, env) {
        Ok(env) => env,
        Err(err) => return Err(err),
    };
    let mut args: Vec<String> = Vec::new();
    let mut i: usize = 1;
    while i < command.len()
        invariant
            1 <= i <= command@.len(),
            args@.len() == i - 1,
            forall|j: int| 0 <= j < i - 1 ==> (#[trigger] args@[j])@ == command@[j + 1]@,
        decreases command@.len() - i,
    {
        args.push(command[i].clone());
        i = i + 1;
    }
    proof {
        assert(views(args@) =~= views(command@.drop_first()));
    }
    Ok(Request { command: command[0].clone(), args, cwd, env })
}

/// Setting a key changes that key's value and no other's, keeps the place of
/// a key that is already there, and keeps keys distinct.
pub proof fn law_later_entry_wins(
    entries: Seq<(Seq<char>, Seq<char>)>,
    key: Seq<char>,
    value: Seq<char>,
)
    ensures
        ({
            let after = applied(entries, key, value);
            let i = key_index(after, key);
            &&& 0 <= i < after.len()
            &&& after[i] == (key, value)
            &&& i == key_index(entries, key)
            &&& forall|j: int| 0 <= j < entries.len() && j != i ==> #[trigger] after[j]
                == entries[j]
            &&& keys_distinct(entries) ==> keys_distinct(after)
            &&& keys_distinct(entries) ==> forall|j: int|
                0 <= j < entries.len() && (#[trigger] entries[j]).0 == key ==> after
                    == entries.update(j, (key, value))
            &&& (forall|j: int| 0 <= j < entries.len() ==> (#[trigger] entries[j]).0 != key)
                ==> after == entries.push((key, value))
        }),
{
    lemma_key_index(entries, key);
    let i = key_index(entries, key);
    let after = applied(entries, key, value);
    if i < entries.len() {
        assert(entries[i].0 == key);
    }
    assert forall|j: int| 0 <= j < i implies (#[trigger] after[j]).0 != key by {
        assert(after[j] == entries[j]);
    }
    lemma_key_index_is(after, key, i);
}

/// No key stands in two entries.
pub open spec fn keys_distinct(entries: Seq<(Seq<char>, Seq<char>)>) -> bool {
    forall|i: int, j: int|
        0 <= i < j < entries.len() ==> (#[trigger] entries[i]).0 != (#[trigger] entries[j]).0
}

/// Whatever is forwarded and flagged, no key reaches the request twice.
pub proof fn law_request_keys_are_distinct(
    names: Seq<Seq<char>>,
    flags: Seq<Seq<char>>,
    vars: Map<Seq<char>, Seq<char>>,
)
    ensures
        merged(names, flags, vars) matches Ok(entries) ==> keys_distinct(entries),
{
    lemma_forwarded_distinct(names, vars);
    lemma_flagged_distinct(forwarded(names, vars), flags, vars);
}

proof fn lemma_forwarded_distinct(names: Seq<Seq<char>>, vars: Map<Seq<char>, Seq<char>>)
    ensures
        keys_distinct(forwarded(names, vars)),
    decreases names.len(),
{
    if names.len() > 0 {
        lemma_forwarded_distinct(names.drop_last(), vars);
        if vars.contains_key(names.last()) {
            law_later_entry_wins(
                forwarded(names.drop_last(), vars),
                names.last(),
                vars[names.last()],
            );
        }
    }
}

proof fn lemma_flagged_distinct(
    base: Seq<(Seq<char>, Seq<char>)>,
    flags: Seq<Seq<char>>,
    vars: Map<Seq<char>, Seq<char>>,
)
    requires
        keys_distinct(base),
    ensures
        flagged(base, flags, vars) matches Ok(entries) ==> keys_distinct(entries),
    decreases flags.len(),
{
    if flags.len() > 0 {
        lemma_flagged_distinct(base, flags.drop_last(), vars);
        if let Ok(before) = flagged(base, flags.drop_last(), vars) {
            if let FlagModel::Entry(key, value) = flag_model(flags.last(), vars) {
                law_later_entry_wins(before, key, value);
            }
        }
    }
}

/// The value that `entries` give `key`.
pub open spec fn entry_value(
    entries: Seq<(Seq<char>, Seq<char>)>,
    key: Seq<char>,
) -> Option<Seq<char>> {
    let i = key_index(entries, key);
    if i < entries.len() {
        Some(entries[i].1)
    } else {
        None
    }
}

/// The value that `key` is to have: that of the last flag that sets it, else
/// that of the variable if it is set and forwarded.
pub open spec fn decided(
    names: Seq<Seq<char>>,
    flags: Seq<Seq<char>>,
    vars: Map<Seq<char>, Seq<char>>,
    key: Seq<char>,
) -> Option<Seq<char>>
    decreases flags.len(),
{
    if flags.len() == 0 {
        if names.contains(key) && vars.contains_key(key) {
            Some(vars[key])
        } else {
            None
        }
    } else {
        match flag_model(flags.last(), vars) {
            FlagModel::Entry(k, value) => if k == key {
                Some(value)
            } else {
                decided(names, flags.drop_last(), vars, key)
            },
            _ => decided(names, flags.drop_last(), vars, key),
        }
    }
}

/// Setting one key leaves the value of every other as it is.
proof fn lemma_applied_value(
    entries: Seq<(Seq<char>, Seq<char>)>,
    set: Seq<char>,
    value: Seq<char>,
    key: Seq<char>,
)
    ensures
        entry_value(applied(entries, set, value), key) == if key == set {
            Some(value)
        } else {
            entry_value(entries, key)
        },
{
    let after = applied(entries, set, value);
    law_later_entry_wins(entries, set, value);
    lemma_key_index(entries, set);
    if key != set {
        lemma_key_index(entries, key);
        let i = key_index(entries, key);
        assert forall|j: int| 0 <= j < i implies (#[trigger] after[j]).0 != key by {
            assert(entries[j].0 != key);
        }
        if i < entries.len() {
            assert(after[i] == entries[i]);
            lemma_key_index_is(after, key, i);
        } else {
            lemma_key_index_is(after, key, after.len() as int);
        }
    }
}

proof fn lemma_forwarded_value(
    names: Seq<Seq<char>>,
    vars: Map<Seq<char>, Seq<char>>,
    key: Seq<char>,
)
    ensures
        entry_value(forwarded(names, vars), key) == decided(names, Seq::empty(), vars, key),
    decreases names.len(),
{
    if names.len() > 0 {
        let front = names.drop_last();
        lemma_forwarded_value(front, vars, key);
        assert(names =~= front.push(names.last()));
        assert(names.contains(key) <==> front.contains(key) || names.last() == key) by {
            if front.contains(key) {
                let i = choose|i: int| 0 <= i < front.len() && front[i] == key;
                assert(names[i] == key);
            }
            if names.last() == key {
                assert(names[names.len() - 1] == key);
            }
        }
        if vars.contains_key(names.last()) {
            lemma_applied_value(forwarded(front, vars), names.last(), vars[names.last()], key);
        }
    }
}

/// The last flag that sets a key decides its value, over earlier flags and
/// over the forwarded names; a key that no flag sets has the variable's value
/// if it is forwarded and set, and is left out otherwise.
pub proof fn law_last_flag_decides(
    names: Seq<Seq<char>>,
    flags: Seq<Seq<char>>,
    vars: Map<Seq<char>, Seq<char>>,
    key: Seq<char>,
)
    requires
        merged(names, flags, vars) is Ok,
    ensures
        entry_value(merged(names, flags, vars)->Ok_0, key) == decided(names, flags, vars, key),
    decreases flags.len(),
{
    if flags.len() == 0 {
        lemma_forwarded_value(names, vars, key);
        assert(flags =~= Seq::empty());
    } else {
        law_last_flag_decides(names, flags.drop_last(), vars, key);
        let before = merged(names, flags.drop_last(), vars)->Ok_0;
        if let FlagModel::Entry(set, value) = flag_model(flags.last(), vars) {
            lemma_applied_value(before, set, value, key);
        }
    }
}

// ---------------------------------------------------------------------------
// The session
// ---------------------------------------------------------------------------

/// What a terminal status comes to.
pub open spec fn is_exit_outcome(
    exit: Exit,
    command: Seq<char>,
    r: Result<Outcome, ClientError>,
) -> bool {
    match (exit.code, exit.signal) {
        (Some(code), _) => r is Ok && r->Ok_0.is(
            code as int,
            if code == 127 {
                Some(command + ": command not found"@)
            } else if code == 126 {
                Some(command + ": permission denied"@)
            } else {
                None
            },
        ),
        (None, Some(signal)) => r is Ok && r->Ok_0.is(signal + 128, None),
        (None, None) => r == Err::<Outcome, ClientError>(ClientError::MissingExitStatus),
    }
}

/// Classify the child's terminal status into an outcome. 127 and 126 come
/// with a notice the entry point renders; the raw codes alone say nothing
/// actionable.
pub fn exit_outcome(exit: &Exit, command: &str) -> (r: Result<Outcome, ClientError>)
    ensures
        is_exit_outcome(*exit, command@, r),
{
    match (exit.code, exit.signal) {
        (Some(code), _) => {
            if code == 127 {
                let mut notice = command.to_owned();
                notice.append(": command not found");
                Ok(Outcome::with_notice(127, notice))
            } else if code == 126 {
                let mut notice = command.to_owned();
                notice.append(": permission denied");
                Ok(Outcome::with_notice(126, notice))
            } else {
                Ok(Outcome::just(code as i32))
            }
        },
        (None, Some(signal)) => Ok(Outcome::just(signal as i32 + 128)),
        (None, None) => Err(ClientError::MissingExitStatus),
    }
}

/// How far a session is.
#[derive(Debug, Clone, Copy, PartialEq, Eq, Structural)]
pub enum SessionStage {
    /// Not connected yet.
    Connecting,
    /// The request is on its way; frames, stdin and signals flow.
    Streaming,
    /// Over.
    Done,
}

/// One run of a command against the server: a single request, then frames,
/// stdin chunks and host signals in the order they come.
pub struct Session {
    pub stage: SessionStage,
    pub request: Request,
    pub socket: String,
    /// Host stdin still delivers.
    pub stdin_open: bool,
    /// SIGINT is still relayed.
    pub sigint_open: bool,
    /// SIGTERM is still relayed.
    pub sigterm_open: bool,
}

/// What happens to a session.
#[derive(Debug)]
pub enum SessionEvent {
    /// The socket accepted the connection.
    Connected,
    /// The socket did not, and why.
    ConnectFailed(String),
    /// A relayed signal's handler could not be installed, and why.
    HandlerFailed(HostSignal, String),
    /// A frame arrived, or did not decode.
    Frame(Result<Message, DecodeError>),
    /// The server closed the connection.
    Closed,
    /// A chunk of host stdin.
    Stdin(Vec<u8>),
    /// End of host stdin.
    StdinEnd,
    /// A host signal.
    Raised(HostSignal),
    /// A signal will be delivered no more.
    SignalEnd(HostSignal),
    /// Writing to one of the client's own streams failed, and why.
    WriteFailed(Stream, String),
    /// Sending a frame failed.
    SendFailed(EncodeError),
}

/// What the session wants done next.
#[derive(Debug)]
pub enum SessionAction {
    /// Go on waiting.
    Wait,
    /// Write to one of the client's own streams and flush it.
    Write(Stream, Vec<u8>),
    /// Send a frame; a failure is to be reported back.
    Send(Message),
    /// Send a frame; a failure does not matter.
    SendAnyway(Message),
    /// Stop, with the result.
    Finish(Result<Outcome, ClientError>),
}

impl Session {
    /// The relay of `signal` is open.
    pub open spec fn relays(self, signal: HostSignal) -> bool {
        match signal {
            HostSignal::Interrupt => self.sigint_open,
            HostSignal::Terminate => self.sigterm_open,
        }
    }

    /// The event can happen now: a closed source delivers nothing.
    pub open spec fn accepts(self, event: SessionEvent) -> bool {
        match self.stage {
            SessionStage::Connecting => event is Connected || event is ConnectFailed,
            SessionStage::Streaming => match event {
                SessionEvent::Connected | SessionEvent::ConnectFailed(_) => false,
                SessionEvent::Stdin(_) | SessionEvent::StdinEnd => self.stdin_open,
                SessionEvent::Raised(signal) | SessionEvent::SignalEnd(signal) => self.relays(
                    signal,
                ),
                _ => true,
            },
            SessionStage::Done => false,
        }
    }

    /// The same run of the same command.
    pub open spec fn same_run(self, before: Session) -> bool {
        self.request == before.request && self.socket == before.socket
    }

    /// Every source is as open as it was.
    pub open spec fn same_sources(self, before: Session) -> bool {
        &&& self.stdin_open == before.stdin_open
        &&& self.sigint_open == before.sigint_open
        &&& self.sigterm_open == before.sigterm_open
    }

    /// The same session, with nothing closed.
    pub open spec fn unchanged(self, before: Session) -> bool {
        self.stage == before.stage && self.same_run(before) && self.same_sources(before)
    }
}

/// What the session does about an event.
pub open spec fn session_step(
    before: Session,
    event: SessionEvent,
    after: Session,
    action: SessionAction,
) -> bool {
    &&& after.same_run(before)
    &&& !(event is StdinEnd || event is SignalEnd) ==> after.same_sources(before)
    &&& match event {
        SessionEvent::Connected => after.stage == SessionStage::Streaming && (action matches
            SessionAction::Send(message) && message@ == MessageModel::Request(before.request@)),
        SessionEvent::ConnectFailed(source) => finishes(after, action) && (action matches
            SessionAction::Finish(Err(ClientError::Connect { socket, source: cause })) && socket@
            == before.socket@ && cause == source),
        SessionEvent::HandlerFailed(signal, source) => finishes(after, action) && action
            == SessionAction::Finish(Err(ClientError::SignalHandler { signal, source })),
        SessionEvent::Frame(Err(source)) => finishes(after, action) && action
            == SessionAction::Finish(Err(ClientError::Receive { source })),
        SessionEvent::Frame(Ok(message)) => match message {
            Message::Stdout(bytes) => after.unchanged(before) && action == SessionAction::Write(
                Stream::Stdout,
                bytes,
            ),
            Message::Stderr(bytes) => after.unchanged(before) && action == SessionAction::Write(
                Stream::Stderr,
                bytes,
            ),
            Message::Exit(exit) => finishes(after, action) && is_exit_outcome(
                exit,
                before.request.command@,
                action->Finish_0,
            ),
            Message::Error(err) => finishes(after, action) && action == SessionAction::Finish(
                Err(ClientError::ServerError { message: err.message }),
            ),
            Message::ServerStopping => finishes(after, action) && shuts_down(action),
            // Reserved frames and client-only frames carry nothing
            // actionable.
            _ => after.unchanged(before) && action is Wait,
        },
        SessionEvent::Closed => finishes(after, action) && shuts_down(action),
        SessionEvent::Stdin(bytes) => after.unchanged(before) && action == SessionAction::Send(
            Message::Stdin(bytes),
        ),
        SessionEvent::StdinEnd => {
            &&& after.stage == before.stage
            &&& !after.stdin_open
            &&& after.sigint_open == before.sigint_open
            &&& after.sigterm_open == before.sigterm_open
            &&& action matches SessionAction::SendAnyway(message)
            &&& message@ == MessageModel::Stdin(Seq::empty())
        },
        SessionEvent::Raised(signal) => after.unchanged(before) && action == SessionAction::Send(
            Message::Signal(SignalMsg { signal: signal.number() }),
        ),
        SessionEvent::SignalEnd(signal) => {
            &&& after.stage == before.stage
            &&& !after.relays(signal)
            &&& after.stdin_open == before.stdin_open
            &&& forall|other: HostSignal|
                other != signal ==> #[trigger] after.relays(other) == before.relays(other)
            &&& action is Wait
        },
        SessionEvent::WriteFailed(Stream::Stdout, source) => finishes(after, action) && action
            == SessionAction::Finish(Err(ClientError::WriteStdout { source })),
        SessionEvent::WriteFailed(Stream::Stderr, source) => finishes(after, action) && action
            == SessionAction::Finish(Err(ClientError::WriteStderr { source })),
        SessionEvent::SendFailed(source) => finishes(after, action) && action
            == SessionAction::Finish(Err(ClientError::Send { source })),
    }
}

/// The session is over with this action.
pub open spec fn finishes(after: Session, action: SessionAction) -> bool {
    after.stage == SessionStage::Done && action is Finish
}

/// The action reports an orderly server shutdown.
pub open spec fn shuts_down(action: SessionAction) -> bool {
    action matches SessionAction::Finish(Ok(outcome)) && outcome.is(SHUTDOWN_EXIT as int, None)
}

impl Session {
    /// A session that is about to connect to `socket` for `request`.
    pub fn new(socket: String, request: Request) -> (session: Self)
        ensures
            session.stage == SessionStage::Connecting,
            session.request == request,
            session.socket == socket,
            session.stdin_open && session.sigint_open && session.sigterm_open,
    {
        Session {
            stage: SessionStage::Connecting,
            request,
            socket,
            stdin_open: true,
            sigint_open: true,
            sigterm_open: true,
        }
    }

    /// Take in one event and say what to do about it.
    pub fn step(&mut self, event: SessionEvent) -> (action: SessionAction)
        requires
            old(self).accepts(event),
        ensures
            session_step(*old(self), event, *final(self), action),
    {
        match event {
            SessionEvent::Connected => {
                self.stage = SessionStage::Streaming;
                SessionAction::Send(Message::Request(copy_request(&self.request)))
            },
            SessionEvent::ConnectFailed(source) => {
                let socket = self.socket.clone();
                self.fail(ClientError::Connect { socket, source })
            },
            SessionEvent::HandlerFailed(signal, source) => {
                self.fail(ClientError::SignalHandler { signal, source })
            },
            SessionEvent::Frame(Err(source)) => self.fail(ClientError::Receive { source }),
            SessionEvent::Frame(Ok(message)) => self.receive(message),
            SessionEvent::Closed => {
                // A clean close without a terminal frame is the server's
                // orderly-shutdown signature, never a transport failure.
                self.stage = SessionStage::Done;
                SessionAction::Finish(Ok(Outcome::just(SHUTDOWN_EXIT)))
            },
            SessionEvent::Stdin(bytes) => SessionAction::Send(Message::Stdin(bytes)),
            SessionEvent::StdinEnd => {
                // One empty `Stdin` frame marks the end, keeping the write
                // half open for a later signal frame. A failed send means the
                // child finished first and the terminal frame is in flight.
                self.stdin_open = false;
                let end: Vec<u8> = Vec::new();
                SessionAction::SendAnyway(Message::Stdin(end))
            },
            SessionEvent::Raised(HostSignal::Interrupt) => {
                SessionAction::Send(Message::Signal(SignalMsg { signal: SIGINT }))
            },
            SessionEvent::Raised(HostSignal::Terminate) => {
                SessionAction::Send(Message::Signal(SignalMsg { signal: SIGTERM }))
            },
            SessionEvent::SignalEnd(HostSignal::Interrupt) => {
                self.sigint_open = false;
                SessionAction::Wait
            },
            SessionEvent::SignalEnd(HostSignal::Terminate) => {
                self.sigterm_open = false;
                SessionAction::Wait
            },
            SessionEvent::WriteFailed(Stream::Stdout, source) => {
                self.fail(ClientError::WriteStdout { source })
            },
            SessionEvent::WriteFailed(Stream::Stderr, source) => {
                self.fail(ClientError::WriteStderr { source })
            },
            SessionEvent::SendFailed(source) => self.fail(ClientError::Send { source }),
        }
    }

    /// What a frame from the server comes to.
    fn receive(&mut self, message: Message) -> (action: SessionAction)
        requires
            old(self).stage == SessionStage::Streaming,
        ensures
            session_step(*old(self), SessionEvent::Frame(Ok(message)), *final(self), action),
    {
        match message {
            Message::Stdout(bytes) => SessionAction::Write(Stream::Stdout, bytes),
            Message::Stderr(bytes) => SessionAction::Write(Stream::Stderr, bytes),
            Message::Exit(exit) => {
                self.stage = SessionStage::Done;
                SessionAction::Finish(exit_outcome(&exit, self.request.command.as_str()))
            },
            Message::Error(err) => self.fail(ClientError::ServerError { message: err.message }),
            Message::ServerStopping => {
                self.stage = SessionStage::Done;
                SessionAction::Finish(Ok(Outcome::just(SHUTDOWN_EXIT)))
            },
            _ => SessionAction::Wait,
        }
    }

    fn fail(&mut self, err: ClientError) -> (action: SessionAction)
        ensures
            final(self).stage == SessionStage::Done,
            final(self).same_run(*old(self)),
            final(self).same_sources(*old(self)),
            action == SessionAction::Finish(Err(err)),
    {
        self.stage = SessionStage::Done;
        SessionAction::Finish(Err(err))
    }
}

/// A request with the same command, arguments, directory and environment.
fn copy_request(request: &Request) -> (copy: Request)
    ensures
        copy@ == request@,
{
    let args = text::copy_texts(&request.args);
    let env = text::copy_texts(&request.env);
    Request { command: request.command.clone(), args, cwd: request.cwd.clone(), env }
}

/// A session sends its request once, as its first frame: no later event of a
/// streaming session makes it send another.
pub proof fn law_one_request_per_session(
    before: Session,
    event: SessionEvent,
    after: Session,
    action: SessionAction,
)
    requires
        before.accepts(event),
        session_step(before, event, after, action),
    ensures
        before.stage == SessionStage::Streaming ==> !(action matches SessionAction::Send(message)
            && message is Request) && !(action matches SessionAction::SendAnyway(message)
            && message is Request),
        before.stage == SessionStage::Connecting ==> after.stage != SessionStage::Connecting,
        before.stage == SessionStage::Streaming ==> after.stage != SessionStage::Connecting,
{
}

/// Host stdin and each relayed signal flow from the connection until the
/// source itself ends: no other event of a session closes one, and what an
/// open source of a streaming session delivers is taken in.
pub proof fn law_sources_flow_until_they_end(
    before: Session,
    event: SessionEvent,
    after: Session,
    action: SessionAction,
    bytes: Vec<u8>,
    signal: HostSignal,
)
    requires
        before.accepts(event),
        session_step(before, event, after, action),
    ensures
        after.stdin_open == (before.stdin_open && !(event is StdinEnd)),
        after.relays(signal) == (before.relays(signal) && event != SessionEvent::SignalEnd(signal)),
        after.stage == SessionStage::Streaming && after.stdin_open ==> after.accepts(
            SessionEvent::Stdin(bytes),
        ) && after.accepts(SessionEvent::StdinEnd),
        after.stage == SessionStage::Streaming && after.relays(signal) ==> after.accepts(
            SessionEvent::Raised(signal),
        ) && after.accepts(SessionEvent::SignalEnd(signal)),
        event is Connected ==> after.stage == SessionStage::Streaming,
{
}

/// A session ends exactly when it reports a result, and a terminal frame, an
/// orderly shutdown or a failure is what ends it.
pub proof fn law_session_ends_with_a_result(
    before: Session,
    event: SessionEvent,
    after: Session,
    action: SessionAction,
)
    requires
        before.accepts(event),
        session_step(before, event, after, action),
    ensures
        action is Finish <==> after.stage == SessionStage::Done,
        (event is Closed || event == SessionEvent::Frame(Ok(Message::ServerStopping)))
            ==> shuts_down(action),
{
}

// ---------------------------------------------------------------------------
// What a run of a command comes to
// ---------------------------------------------------------------------------

/// A flag is carried whole: a key that is not empty and holds no `=` comes,
/// with an `=` and any value behind it, to exactly that key and that value.
/// A lone flag reaches the request as it was written.
pub proof fn law_flag_is_carried_whole(
    key: Seq<char>,
    value: Seq<char>,
    vars: Map<Seq<char>, Seq<char>>,
)
    requires
        key.len() > 0,
        forall|i: int| 0 <= i < key.len() ==> key[i] != '=',
    ensures
        flag_model(key + "="@ + value, vars) == FlagModel::Entry(key, value),
        merged(Seq::empty(), seq![key + "="@ + value], vars) is Ok,
        merged(Seq::empty(), seq![key + "="@ + value], vars)->Ok_0 == seq![(key, value)],
        rendered(merged(Seq::empty(), seq![key + "="@ + value], vars)->Ok_0) == seq![
            key + "="@ + value,
        ],
{
    reveal_strlit("=");
    let flag = key + "="@ + value;
    let n = key.len() as int;
    assert(flag[n] == '=');
    assert forall|j: int| 0 <= j < n implies flag[j] != '=' by {
        assert(flag[j] == key[j]);
    }
    text::lemma_first_index_is(flag, '=', n);
    assert(flag.take(n) =~= key);
    assert(flag.skip(n + 1) =~= value);
    let none = Seq::<(Seq<char>, Seq<char>)>::empty();
    assert(seq![flag].drop_last() =~= Seq::empty());
    assert(seq![flag].last() == flag);
    assert(forwarded(Seq::empty(), vars) =~= none);
    assert(flagged(none, Seq::empty(), vars) == Ok::<
        Seq<(Seq<char>, Seq<char>)>,
        Seq<char>,
    >(none));
    assert(key_index(none, key) == 0);
    assert(none.push((key, value)) =~= seq![(key, value)]);
    assert(rendered(seq![(key, value)]) =~= seq![flag]);
}

/// A later flag for a key that is there changes its value in place, one for a
/// new key comes last, and every other entry stays as it is.
pub proof fn law_flag_sets_its_key(
    names: Seq<Seq<char>>,
    flags: Seq<Seq<char>>,
    key: Seq<char>,
    value: Seq<char>,
    vars: Map<Seq<char>, Seq<char>>,
)
    requires
        key.len() > 0,
        forall|i: int| 0 <= i < key.len() ==> key[i] != '=',
        merged(names, flags, vars) is Ok,
    ensures
        ({
            let before = merged(names, flags, vars)->Ok_0;
            let after = merged(names, flags.push(key + "="@ + value), vars);
            &&& after is Ok
            &&& (forall|j: int| 0 <= j < before.len() ==> (#[trigger] before[j]).0 != key)
                ==> after->Ok_0 == before.push((key, value))
            &&& forall|j: int|
                0 <= j < before.len() && (#[trigger] before[j]).0 == key ==> after->Ok_0
                    == before.update(j, (key, value))
        }),
{
    law_flag_is_carried_whole(key, value, vars);
    law_request_keys_are_distinct(names, flags, vars);
    law_later_entry_wins(merged(names, flags, vars)->Ok_0, key, value);
    let flag = key + "="@ + value;
    assert(flags.push(flag).drop_last() =~= flags);
    assert(flags.push(flag).last() == flag);
}

/// A bare key is the key with the value that the host's variable has; where
/// the host has no such variable it changes nothing.
pub proof fn law_bare_key_copies_the_variable(
    names: Seq<Seq<char>>,
    flags: Seq<Seq<char>>,
    key: Seq<char>,
    vars: Map<Seq<char>, Seq<char>>,
)
    requires
        key.len() > 0,
        forall|i: int| 0 <= i < key.len() ==> key[i] != '=',
    ensures
        merged(names, flags.push(key), vars) == if vars.contains_key(key) {
            merged(names, flags.push(key + "="@ + vars[key]), vars)
        } else {
            merged(names, flags, vars)
        },
{
    let n = key.len() as int;
    text::lemma_first_index_is(key, '=', n);
    assert(flags.push(key).drop_last() =~= flags);
    if vars.contains_key(key) {
        law_flag_is_carried_whole(key, vars[key], vars);
        assert(flags.push(key + "="@ + vars[key]).drop_last() =~= flags);
    }
}

/// The first flag with an empty key is what the request fails over, whatever
/// follows it; without such a flag the request never fails.
pub proof fn law_only_an_empty_key_is_refused(
    names: Seq<Seq<char>>,
    flags: Seq<Seq<char>>,
    bad: Seq<char>,
    more: Seq<Seq<char>>,
    vars: Map<Seq<char>, Seq<char>>,
)
    requires
        forall|i: int|
            0 <= i < flags.len() ==> (#[trigger] flags[i]).len() > 0 && flags[i][0] != '=',
        bad.len() == 0 || bad[0] == '=',
    ensures
        merged(names, flags, vars) is Ok,
        merged(names, flags.push(bad) + more, vars) == Err::<
            Seq<(Seq<char>, Seq<char>)>,
            Seq<char>,
        >(bad),
{
    lemma_no_empty_key(forwarded(names, vars), flags, vars);
    let upto = flags.push(bad);
    assert(upto.drop_last() =~= flags);
    assert(upto.last() == bad);
    let all = upto + more;
    assert(all.take(upto.len() as int) =~= upto);
    lemma_flag_error_stays(forwarded(names, vars), all, vars, upto.len() as int);
}

proof fn lemma_no_empty_key(
    base: Seq<(Seq<char>, Seq<char>)>,
    flags: Seq<Seq<char>>,
    vars: Map<Seq<char>, Seq<char>>,
)
    requires
        forall|i: int|
            0 <= i < flags.len() ==> (#[trigger] flags[i]).len() > 0 && flags[i][0] != '=',
    ensures
        flagged(base, flags, vars) is Ok,
    decreases flags.len(),
{
    if flags.len() > 0 {
        let front = flags.drop_last();
        assert forall|i: int| 0 <= i < front.len() implies (#[trigger] front[i]).len() > 0
            && front[i][0] != '=' by {
            assert(front[i] == flags[i]);
        }
        lemma_no_empty_key(base, front, vars);
        assert(flags.last() == flags[flags.len() - 1]);
        text::lemma_first_index(flags.last(), '=');
    }
}

/// The forward list adds one name after the other: a variable that is set and
/// not there yet comes last with its value, any other name changes nothing.
/// Without names and flags nothing is sent.
pub proof fn law_forwarded_names_come_in_order(
    names: Seq<Seq<char>>,
    name: Seq<char>,
    vars: Map<Seq<char>, Seq<char>>,
)
    ensures
        ({
            let before = merged(names, Seq::empty(), vars);
            let after = merged(names.push(name), Seq::empty(), vars);
            &&& before is Ok && after is Ok
            &&& after->Ok_0 == if vars.contains_key(name) && !names.contains(name) {
                before->Ok_0.push((name, vars[name]))
            } else {
                before->Ok_0
            }
        }),
        merged(Seq::empty(), Seq::empty(), vars) is Ok,
        merged(Seq::empty(), Seq::empty(), vars)->Ok_0 == Seq::<(Seq<char>, Seq<char>)>::empty(),
{
    let none = Seq::<Seq<char>>::empty();
    assert(forwarded(none, vars) =~= Seq::empty());
    let before = forwarded(names, vars);
    assert(names.push(name).drop_last() =~= names);
    if vars.contains_key(name) {
        law_later_entry_wins(before, name, vars[name]);
        lemma_forwarded_value(names, vars, name);
        lemma_key_index(before, name);
        let i = key_index(before, name);
        if names.contains(name) {
            assert(i < before.len());
            assert(before[i] == (name, vars[name]));
            assert(before.update(i, (name, vars[name])) =~= before);
        } else {
            assert(i >= before.len());
        }
    }
}

/// Each entry reaches the request as its key, an `=` and its value, in order.
pub proof fn law_entries_are_written_key_and_value(entries: Seq<(Seq<char>, Seq<char>)>)
    ensures
        rendered(entries).len() == entries.len(),
        forall|i: int|
            0 <= i < entries.len() ==> (#[trigger] rendered(entries)[i]) == entries[i].0 + seq!['=']
                + entries[i].1,
{
    reveal_strlit("=");
    assert("="@ =~= seq!['=']);
}

/// The child's streams are the client's: what the server sends of stdout and
/// stderr is written there, byte for byte, and the session goes on.
pub proof fn law_output_is_written_where_it_belongs(
    before: Session,
    bytes: Vec<u8>,
    after: Session,
    action: SessionAction,
)
    requires
        before.stage == SessionStage::Streaming,
    ensures
        session_step(before, SessionEvent::Frame(Ok(Message::Stdout(bytes))), after, action) ==> (
        action == SessionAction::Write(Stream::Stdout, bytes)) && after.stage
            == SessionStage::Streaming,
        session_step(before, SessionEvent::Frame(Ok(Message::Stderr(bytes))), after, action) ==> (
        action == SessionAction::Write(Stream::Stderr, bytes)) && after.stage
            == SessionStage::Streaming,
{
}

/// Host stdin is the child's: each chunk is sent as it is, the end of it as
/// one empty chunk whose loss does not matter, and the session goes on.
pub proof fn law_stdin_is_sent_as_it_comes(
    before: Session,
    bytes: Vec<u8>,
    after: Session,
    action: SessionAction,
)
    requires
        before.stage == SessionStage::Streaming,
    ensures
        session_step(before, SessionEvent::Stdin(bytes), after, action) ==> action
            == SessionAction::Send(Message::Stdin(bytes)) && after.stage
            == SessionStage::Streaming && after.stdin_open == before.stdin_open,
        session_step(before, SessionEvent::StdinEnd, after, action) ==> (action matches
            SessionAction::SendAnyway(Message::Stdin(end)) && end@.len() == 0) && after.stage
            == SessionStage::Streaming && !after.stdin_open,
{
}

/// Ctrl-C and a termination request are relayed by their POSIX numbers, 2 and
/// 15, and end nothing on the client's side.
pub proof fn law_host_signals_are_relayed(
    before: Session,
    after: Session,
    action: SessionAction,
)
    requires
        before.stage == SessionStage::Streaming,
    ensures
        session_step(before, SessionEvent::Raised(HostSignal::Interrupt), after, action) ==> (action
            matches SessionAction::Send(Message::Signal(sent)) && sent.signal == 2) && after.stage
            == SessionStage::Streaming,
        session_step(before, SessionEvent::Raised(HostSignal::Terminate), after, action) ==> (action
            matches SessionAction::Send(Message::Signal(sent)) && sent.signal == 15) && after.stage
            == SessionStage::Streaming,
{
}

/// The child's exit status is the client's: a code as it is, a signal as 128
/// plus its number. Only 126 and 127 come with a notice, which names the
/// command. A status that is neither is an error.
pub proof fn law_exit_status_comes_back(
    before: Session,
    exit: Exit,
    after: Session,
    action: SessionAction,
)
    requires
        session_step(before, SessionEvent::Frame(Ok(Message::Exit(exit))), after, action),
    ensures
        after.stage == SessionStage::Done,
        exit.code is Some ==> {
            let code = exit.code->0;
            let command = before.request.command@;
            &&& action matches SessionAction::Finish(Ok(outcome))
            &&& outcome.code == code
            &&& outcome.notice is Some <==> code == 126 || code == 127
            &&& code == 126 ==> outcome.notice->0@ == command + ": permission denied"@
            &&& code == 127 ==> outcome.notice->0@ == command + ": command not found"@
        },
        exit.code is None && exit.signal is Some ==> (action matches SessionAction::Finish(
            Ok(outcome),
        ) && outcome.code == 128 + exit.signal->0 && outcome.notice is None),
        exit.code is None && exit.signal is None ==> action == SessionAction::Finish(
            Err(ClientError::MissingExitStatus),
        ),
{
}

/// A server that stops, by its word or by closing, ends the session with 143
/// and no notice; what the server reports as an error, a frame that does not
/// decode and a failure of the client's own streams end it with that failure.
pub proof fn law_every_other_end_is_told_apart(
    before: Session,
    event: SessionEvent,
    after: Session,
    action: SessionAction,
)
    requires
        before.accepts(event),
        session_step(before, event, after, action),
    ensures
        event is Closed || event == SessionEvent::Frame(Ok(Message::ServerStopping)) ==> (action
            matches SessionAction::Finish(Ok(outcome)) && outcome.code == 143
            && outcome.notice is None),
        event matches SessionEvent::Frame(Ok(Message::Error(err))) ==> (action matches
            SessionAction::Finish(Err(ClientError::ServerError { message })) && message@
            == err.message@),
        event matches SessionEvent::Frame(Err(source)) ==> action == SessionAction::Finish(
            Err(ClientError::Receive { source }),
        ),
        event matches SessionEvent::ConnectFailed(cause) ==> (action matches SessionAction::Finish(
            Err(ClientError::Connect { socket, source }),
        ) && socket@ == before.socket@ && source@ == cause@),
        event matches SessionEvent::SendFailed(source) ==> action == SessionAction::Finish(
            Err(ClientError::Send { source }),
        ),
        event matches SessionEvent::WriteFailed(Stream::Stdout, source) ==> action
            == SessionAction::Finish(Err(ClientError::WriteStdout { source })),
        event matches SessionEvent::WriteFailed(Stream::Stderr, source) ==> action
            == SessionAction::Finish(Err(ClientError::WriteStderr { source })),
        event matches SessionEvent::HandlerFailed(signal, source) ==> action
            == SessionAction::Finish(Err(ClientError::SignalHandler { signal, source })),
        event is SignalEnd ==> action is Wait && after.stage == before.stage,
        event matches SessionEvent::Frame(Ok(message)) ==> ({
            ||| message is Stdout
            ||| message is Stderr
            ||| message is Exit
            ||| message is Error
            ||| message is ServerStopping
            ||| action is Wait && after.stage == before.stage
        }),
{
}

/// What connects is the request as it was built: the first frame carries the
/// same command, arguments, directory and environment.
pub proof fn law_request_is_sent_as_built(before: Session, after: Session, action: SessionAction)
    requires
        session_step(before, SessionEvent::Connected, after, action),
    ensures
        action matches SessionAction::Send(Message::Request(sent)) && sent.command@
            == before.request.command@ && views(sent.args@) == views(before.request.args@)
            && sent.cwd@ == before.request.cwd@ && views(sent.env@) == views(
            before.request.env@,
        ),
        after.stage == SessionStage::Streaming,
{
}

/// A failure names what it is about: the socket, the flag, the cause.
pub proof fn law_client_errors_name_their_cause(err: ClientError)
    ensures
        err matches ClientError::Connect { socket, source } ==> text::occurs(err.text(), socket@)
            && source@.is_suffix_of(err.text()),
        err matches ClientError::CurrentDir { source } ==> source@.is_suffix_of(err.text()),
        err matches ClientError::WriteStdout { source } ==> source@.is_suffix_of(err.text()),
        err matches ClientError::WriteStderr { source } ==> source@.is_suffix_of(err.text()),
        err matches ClientError::SignalHandler { signal, source } ==> source@.is_suffix_of(
            err.text(),
        ),
        err matches ClientError::ForwardEnv { source } ==> source@.is_suffix_of(err.text()),
        err matches ClientError::EnvFlag { flag } ==> text::occurs(err.text(), flag@),
        err matches ClientError::Receive { source } ==> source.text().is_suffix_of(err.text()),
        err matches ClientError::Send { source } ==> source.text().is_suffix_of(err.text()),
        err matches ClientError::ServerError { message } ==> message@.is_suffix_of(err.text()),
{
    let t = err.text();
    match err {
        ClientError::Connect { socket, source } => {
            text::law_occurrence_splits_the_text(
                "cannot connect to socket `"@,
                socket@,
                "`: "@ + source@,
            );
            assert("cannot connect to socket `"@ + socket@ + ("`: "@ + source@) =~= t);
            assert(source@ =~= t.subrange(t.len() - source@.len(), t.len() as int));
        },
        ClientError::EnvFlag { flag } => {
            text::law_occurrence_splits_the_text("`--env` `"@, flag@, "` has an empty key"@);
        },
        ClientError::CurrentDir { source }
        | ClientError::WriteStdout { source }
        | ClientError::WriteStderr { source }
        | ClientError::SignalHandler { source, .. }
        | ClientError::ForwardEnv { source } => {
            assert(source@ =~= t.subrange(t.len() - source@.len(), t.len() as int));
        },
        ClientError::Receive { source } => {
            let cause = source.text();
            assert(cause =~= t.subrange(t.len() - cause.len(), t.len() as int));
        },
        ClientError::Send { source } => {
            let cause = source.text();
            assert(cause =~= t.subrange(t.len() - cause.len(), t.len() as int));
        },
        ClientError::ServerError { message } => {
            assert(message@ =~= t.subrange(t.len() - message@.len(), t.len() as int));
        },
        ClientError::MissingExitStatus => {},
    }
}

/// The forward list is what its JSON array holds, and nothing where there is
/// no list.
pub proof fn law_forward_list_is_its_array(raw: &str)
    ensures
        forward_names(Some(raw)) == json::string_array(raw@),
        forward_names(None) == Ok::<Seq<Seq<char>>, Seq<char>>(Seq::empty()),
{
}

/// The signals by name and number.
pub proof fn law_signals_by_name_and_number()
    ensures
        HostSignal::Interrupt.number() == 2,
        HostSignal::Terminate.number() == 15,
        HostSignal::Interrupt.title() == "SIGINT"@,
        HostSignal::Terminate.title() == "SIGTERM"@,
{
}

/// A streaming session hears the server and its own failures at any time.
pub proof fn law_streaming_session_listens(session: Session, event: SessionEvent)
    requires
        session.stage == SessionStage::Streaming,
    ensures
        event is Frame || event is Closed || event is HandlerFailed || event is WriteFailed || event
            is SendFailed ==> session.accepts(event),
{
}

} // verus!
