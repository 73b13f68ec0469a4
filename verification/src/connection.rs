//! One connection to the server: from its first frame to the child's
//! terminal status, as decisions about events.

use vstd::prelude::*;

use crate::number;
use crate::protocol::{
    DecodeError, ErrorMsg, Exit, Message, MessageModel, Request, RequestModel, VersionMsg,
    CURRENT_VERSION,
};
use crate::server::LogLevel;
use crate::text::{self, views};

verus! {

/// Number of the signal that ends a child's group.
pub const SIGTERM: u8 = 15;

/// How far a connection is.
#[derive(Clone, Copy, Debug, PartialEq, Eq, Structural)]
pub enum ConnStage {
    /// Waiting for the first frame.
    First,
    /// Looking at the request's directory.
    Checking,
    /// Starting the child.
    Spawning,
    /// Both directions flow between client and child.
    Bridging,
    /// The child's pipes are closed; its status is awaited.
    Waiting,
    /// The client is lost; the child got its TERM and is awaited.
    Reaping,
    /// Over.
    Closed,
}

/// Why a child could not be started.
#[derive(Debug, PartialEq, Eq)]
pub enum SpawnFault {
    NotFound,
    PermissionDenied,
    Other(String),
}

/// Which of the child's pipes a chunk came from.
#[derive(Clone, Copy, Debug, PartialEq, Eq, Structural)]
pub enum Pipe {
    Stdout,
    Stderr,
}

/// What happens to a connection. Causes come as their text.
#[derive(Debug)]
pub enum ConnEvent {
    /// A frame arrived, or did not decode.
    Frame(Result<Message, DecodeError>),
    /// The client closed its half, or left.
    ClientClosed,
    /// The server is shutting down.
    Stopping,
    /// Whether the request's directory is one.
    CwdChecked(bool),
    /// The child runs.
    Spawned,
    /// The child does not, and why.
    SpawnFailed(SpawnFault),
    /// A chunk from the child.
    Output(Pipe, Vec<u8>),
    /// Both of the child's pipes are closed.
    OutputEnd,
    /// A relayed frame could not be sent.
    SendFailed,
    /// The child's stdin takes no more.
    StdinFailed,
    /// Signalling the child's group failed.
    KillFailed { pgid: u32, signal: u8, cause: String },
    /// The child's status.
    Exited { code: Option<i32>, signal: Option<i32> },
    /// The child's status cannot be had.
    WaitFailed(String),
    /// The child of a lost client ended.
    Reaped,
}

/// What the connection wants done, in order.
#[derive(Debug)]
pub enum ConnAction {
    /// Send a frame; a failure does not matter.
    Send(Message),
    /// Send a frame; a failure is to be reported back.
    Relay(Message),
    /// Look whether this is a directory.
    CheckCwd(String),
    /// Start the child in a process group of its own, all three streams
    /// piped, the variables set over the inherited ones.
    Spawn(SpawnPlan),
    /// Write to the child's stdin; a failure is to be reported back.
    WriteStdin(Vec<u8>),
    /// Give the child end of file.
    CloseStdin,
    /// Signal the child's whole group; a failure is to be reported back.
    Kill(u8),
    /// Signal the child's whole group; a failure does not matter.
    KillQuietly(u8),
    /// Wait for the child's status.
    Wait,
    /// Wait for the child and forget its status.
    Reap,
    /// Log a line.
    Log(LogLevel, String),
    /// Close the connection.
    Close,
}

/// What to start.
#[derive(Debug, PartialEq, Eq)]
pub struct SpawnPlan {
    pub command: String,
    pub args: Vec<String>,
    pub cwd: String,
    pub env: Vec<(String, String)>,
}

/// One connection.
pub struct Connection {
    pub stage: ConnStage,
    /// The request, once it arrived.
    pub request: Option<Request>,
    /// The child's stdin is open.
    pub stdin_open: bool,
    /// The client's half is open.
    pub client_open: bool,
    /// The shutdown is not announced yet.
    pub stopping_open: bool,
}

// ---------------------------------------------------------------------------
// Mathematical values
// ---------------------------------------------------------------------------

/// A connection as a mathematical value.
#[verifier::ext_equal]
pub struct ConnModel {
    pub stage: ConnStage,
    pub request: Option<RequestModel>,
    pub stdin_open: bool,
    pub client_open: bool,
    pub stopping_open: bool,
}

impl View for Connection {
    type V = ConnModel;

    open spec fn view(&self) -> ConnModel {
        ConnModel {
            stage: self.stage,
            request: match self.request {
                Some(request) => Some(request@),
                None => None,
            },
            stdin_open: self.stdin_open,
            client_open: self.client_open,
            stopping_open: self.stopping_open,
        }
    }
}

/// An action as a mathematical value.
#[verifier::ext_equal]
pub enum ActionModel {
    Send(MessageModel),
    Relay(MessageModel),
    CheckCwd(Seq<char>),
    Spawn {
        command: Seq<char>,
        args: Seq<Seq<char>>,
        cwd: Seq<char>,
        env: Seq<(Seq<char>, Seq<char>)>,
    },
    WriteStdin(Seq<u8>),
    CloseStdin,
    Kill(u8),
    KillQuietly(u8),
    Wait,
    Reap,
    Log(LogLevel, Seq<char>),
    Close,
}

/// The characters of names and values.
pub open spec fn env_views(env: Seq<(String, String)>) -> Seq<(Seq<char>, Seq<char>)> {
    env.map_values(|e: (String, String)| (e.0@, e.1@))
}

impl View for ConnAction {
    type V = ActionModel;

    open spec fn view(&self) -> ActionModel {
        match self {
            ConnAction::Send(m) => ActionModel::Send(m@),
            ConnAction::Relay(m) => ActionModel::Relay(m@),
            ConnAction::CheckCwd(cwd) => ActionModel::CheckCwd(cwd@),
            ConnAction::Spawn(plan) => ActionModel::Spawn {
                command: plan.command@,
                args: views(plan.args@),
                cwd: plan.cwd@,
                env: env_views(plan.env@),
            },
            ConnAction::WriteStdin(bytes) => ActionModel::WriteStdin(bytes@),
            ConnAction::CloseStdin => ActionModel::CloseStdin,
            ConnAction::Kill(signal) => ActionModel::Kill(*signal),
            ConnAction::KillQuietly(signal) => ActionModel::KillQuietly(*signal),
            ConnAction::Wait => ActionModel::Wait,
            ConnAction::Reap => ActionModel::Reap,
            ConnAction::Log(level, line) => ActionModel::Log(*level, line@),
            ConnAction::Close => ActionModel::Close,
        }
    }
}

/// The actions as mathematical values.
pub open spec fn action_views(actions: Seq<ConnAction>) -> Seq<ActionModel> {
    actions.map_values(|a: ConnAction| a@)
}

/// An event as a mathematical value.
#[verifier::ext_equal]
pub enum EventModel {
    Frame(MessageModel),
    BadFrame(Seq<char>),
    ClientClosed,
    Stopping,
    CwdChecked(bool),
    Spawned,
    NotFound,
    PermissionDenied,
    SpawnFailed(Seq<char>),
    Output(Pipe, Seq<u8>),
    OutputEnd,
    SendFailed,
    StdinFailed,
    KillFailed { pgid: u32, signal: u8, cause: Seq<char> },
    Exited { code: Option<i32>, signal: Option<i32> },
    WaitFailed(Seq<char>),
    Reaped,
}

impl View for ConnEvent {
    type V = EventModel;

    open spec fn view(&self) -> EventModel {
        match self {
            ConnEvent::Frame(Ok(message)) => EventModel::Frame(message@),
            ConnEvent::Frame(Err(err)) => EventModel::BadFrame(err.text()),
            ConnEvent::ClientClosed => EventModel::ClientClosed,
            ConnEvent::Stopping => EventModel::Stopping,
            ConnEvent::CwdChecked(is_dir) => EventModel::CwdChecked(*is_dir),
            ConnEvent::Spawned => EventModel::Spawned,
            ConnEvent::SpawnFailed(SpawnFault::NotFound) => EventModel::NotFound,
            ConnEvent::SpawnFailed(SpawnFault::PermissionDenied) => EventModel::PermissionDenied,
            ConnEvent::SpawnFailed(SpawnFault::Other(cause)) => EventModel::SpawnFailed(cause@),
            ConnEvent::Output(pipe, bytes) => EventModel::Output(*pipe, bytes@),
            ConnEvent::OutputEnd => EventModel::OutputEnd,
            ConnEvent::SendFailed => EventModel::SendFailed,
            ConnEvent::StdinFailed => EventModel::StdinFailed,
            ConnEvent::KillFailed { pgid, signal, cause } => EventModel::KillFailed {
                pgid: *pgid,
                signal: *signal,
                cause: cause@,
            },
            ConnEvent::Exited { code, signal } => EventModel::Exited {
                code: *code,
                signal: *signal,
            },
            ConnEvent::WaitFailed(cause) => EventModel::WaitFailed(cause@),
            ConnEvent::Reaped => EventModel::Reaped,
        }
    }
}

// ---------------------------------------------------------------------------
// The decisions
// ---------------------------------------------------------------------------

/// The event can happen now: a closed source delivers nothing.
pub open spec fn accepts(conn: ConnModel, event: EventModel) -> bool {
    match conn.stage {
        ConnStage::First => event is Frame || event is BadFrame || event is ClientClosed || event
            is Stopping,
        ConnStage::Checking => event is CwdChecked && conn.request is Some,
        ConnStage::Spawning => (event is Spawned || event is NotFound || event is PermissionDenied
            || event is SpawnFailed) && conn.request is Some,
        ConnStage::Bridging => match event {
            EventModel::Frame(_) | EventModel::BadFrame(_) | EventModel::ClientClosed => {
                conn.client_open
            },
            EventModel::Stopping => conn.stopping_open,
            EventModel::Output(..) | EventModel::OutputEnd | EventModel::SendFailed
                | EventModel::StdinFailed | EventModel::KillFailed { .. } => true,
            _ => false,
        },
        ConnStage::Waiting => (event is Exited || event is WaitFailed) && conn.request is Some,
        ConnStage::Reaping => event is Reaped,
        ConnStage::Closed => false,
    }
}

/// The variables of the request's entries, or the first entry that is no
/// `KEY=VALUE`.
pub open spec fn env_plan(entries: Seq<Seq<char>>) -> Result<
    Seq<(Seq<char>, Seq<char>)>,
    Seq<char>,
>
    decreases entries.len(),
{
    if entries.len() == 0 {
        Ok(Seq::empty())
    } else {
        match env_plan(entries.drop_last()) {
            Err(entry) => Err(entry),
            Ok(before) => {
                let entry = entries.last();
                let i = text::first_index(entry, '=');
                if i < entry.len() {
                    Ok(before.push((entry.take(i), entry.skip(i + 1))))
                } else {
                    Err(entry)
                }
            },
        }
    }
}

/// Report an error and close.
pub open spec fn refuse(message: Seq<char>) -> Seq<ActionModel> {
    seq![ActionModel::Send(MessageModel::Error(message)), ActionModel::Close]
}

/// Report a status and close.
pub open spec fn exit_with(exit: Exit) -> Seq<ActionModel> {
    seq![ActionModel::Send(MessageModel::Exit(exit)), ActionModel::Close]
}

/// An exit code and no signal.
pub open spec fn plain_exit(code: u8) -> Exit {
    Exit { code: Some(code), signal: None }
}

/// A status with its numbers cut to a byte.
pub open spec fn byte_exit(code: Option<i32>, signal: Option<i32>) -> Exit {
    Exit {
        code: match code {
            Some(code) => Some(code as u8),
            None => None,
        },
        signal: match signal {
            Some(signal) => Some(signal as u8),
            None => None,
        },
    }
}

/// The end of a connection whose client is lost: the group gets the TERM,
/// then the child is awaited however long it takes.
pub open spec fn abandon() -> Seq<ActionModel> {
    seq![ActionModel::KillQuietly(SIGTERM), ActionModel::Reap]
}

/// What the connection does about an event: what it becomes, and the actions
/// in order.
pub open spec fn conn_step(conn: ConnModel, event: EventModel) -> (ConnModel, Seq<ActionModel>) {
    let closed = ConnModel { stage: ConnStage::Closed, ..conn };
    let reaping = ConnModel { stage: ConnStage::Reaping, ..conn };
    match (conn.stage, event) {
        (ConnStage::First, EventModel::Frame(MessageModel::Request(request))) => (
            ConnModel { stage: ConnStage::Checking, request: Some(request), ..conn },
            seq![
                ActionModel::Log(LogLevel::Debug, "exec request"@),
                ActionModel::CheckCwd(request.cwd),
            ],
        ),
        // The probe's reply is terminal; no child is started for it.
        (ConnStage::First, EventModel::Frame(MessageModel::RequestVersion)) => (
            closed,
            seq![
                ActionModel::Send(MessageModel::ServerVersion(CURRENT_VERSION@)),
                ActionModel::Log(LogLevel::Debug, "version probe served"@),
                ActionModel::Close,
            ],
        ),
        // Reserved: ignored wherever it arrives.
        (ConnStage::First, EventModel::Frame(MessageModel::Version(_))) => (conn, Seq::empty()),
        (ConnStage::First, EventModel::Frame(other)) => (
            closed,
            refuse("expected a Request frame, got "@ + other.frame_type().title()),
        ),
        (ConnStage::First, EventModel::BadFrame(message)) => (closed, refuse(message)),
        (ConnStage::First, EventModel::Stopping) => (
            closed,
            seq![ActionModel::Send(MessageModel::ServerStopping), ActionModel::Close],
        ),
        (ConnStage::First, _) => (closed, seq![ActionModel::Close]),
        (ConnStage::Checking, EventModel::CwdChecked(true)) => match env_plan(
            conn.request->0.env,
        ) {
            Ok(env) => (
                ConnModel { stage: ConnStage::Spawning, ..conn },
                seq![
                    ActionModel::Spawn {
                        command: conn.request->0.command,
                        args: conn.request->0.args,
                        cwd: conn.request->0.cwd,
                        env,
                    },
                ],
            ),
            Err(entry) => (
                closed,
                refuse("invalid env entry `"@ + entry + "`: expected `KEY=VALUE`"@),
            ),
        },
        (ConnStage::Checking, _) => (
            closed,
            refuse("cwd is not a directory: `"@ + conn.request->0.cwd + "`"@),
        ),
        (ConnStage::Spawning, EventModel::Spawned) => (
            ConnModel { stage: ConnStage::Bridging, stdin_open: true, ..conn },
            Seq::empty(),
        ),
        (ConnStage::Spawning, EventModel::NotFound) => (closed, exit_with(plain_exit(127))),
        (ConnStage::Spawning, EventModel::PermissionDenied) => (closed, exit_with(plain_exit(126))),
        (ConnStage::Spawning, EventModel::SpawnFailed(cause)) => (
            closed,
            refuse("failed to spawn `"@ + conn.request->0.command + "`: "@ + cause),
        ),
        (ConnStage::Bridging, EventModel::Output(Pipe::Stdout, bytes)) => (
            conn,
            seq![ActionModel::Relay(MessageModel::Stdout(bytes))],
        ),
        (ConnStage::Bridging, EventModel::Output(Pipe::Stderr, bytes)) => (
            conn,
            seq![ActionModel::Relay(MessageModel::Stderr(bytes))],
        ),
        (ConnStage::Bridging, EventModel::OutputEnd) => (
            ConnModel { stage: ConnStage::Waiting, ..conn },
            seq![ActionModel::Wait],
        ),
        (ConnStage::Bridging, EventModel::SendFailed) => (reaping, abandon()),
        // An empty chunk is end of file; the connection stays open for
        // signals.
        (ConnStage::Bridging, EventModel::Frame(MessageModel::Stdin(bytes))) => if bytes.len()
            == 0 {
            (ConnModel { stdin_open: false, ..conn }, seq![ActionModel::CloseStdin])
        } else if conn.stdin_open {
            (conn, seq![ActionModel::WriteStdin(bytes)])
        } else {
            (conn, Seq::empty())
        },
        (ConnStage::Bridging, EventModel::StdinFailed) => (
            ConnModel { stdin_open: false, ..conn },
            seq![ActionModel::CloseStdin],
        ),
        // A relay, not a policy: the number goes out as it came.
        (ConnStage::Bridging, EventModel::Frame(MessageModel::Signal(signal))) => (
            conn,
            seq![ActionModel::Kill(signal)],
        ),
        (ConnStage::Bridging, EventModel::KillFailed { pgid, signal, cause }) => (
            conn,
            seq![ActionModel::Log(LogLevel::Warning, kill_text(pgid, signal, cause))],
        ),
        (ConnStage::Bridging, EventModel::Frame(_)) => (conn, Seq::empty()),
        (ConnStage::Bridging, EventModel::BadFrame(message)) => (
            reaping,
            seq![ActionModel::Send(MessageModel::Error(message))] + abandon(),
        ),
        // A closed write half is end of file, not a disconnect.
        (ConnStage::Bridging, EventModel::ClientClosed) => (
            ConnModel { stdin_open: false, client_open: false, ..conn },
            seq![ActionModel::CloseStdin],
        ),
        // The client learns first, then the whole group gets the TERM. The
        // bridge stays, so that a child that ends within the grace still
        // delivers its status.
        (ConnStage::Bridging, EventModel::Stopping) => (
            ConnModel { stopping_open: false, ..conn },
            seq![
                ActionModel::Send(MessageModel::ServerStopping),
                ActionModel::KillQuietly(SIGTERM),
            ],
        ),
        (ConnStage::Waiting, EventModel::Exited { code, signal }) => (
            closed,
            exit_with(byte_exit(code, signal)),
        ),
        (ConnStage::Waiting, EventModel::WaitFailed(cause)) => (
            closed,
            refuse("failed to wait for `"@ + conn.request->0.command + "`: "@ + cause),
        ),
        _ => (closed, seq![ActionModel::Close]),
    }
}

/// The warning for a signal that could not be delivered.
pub open spec fn kill_text(pgid: u32, signal: u8, cause: Seq<char>) -> Seq<char> {
    "kill(-"@ + number::decimal(pgid as nat) + ", "@ + number::decimal(signal as nat) + "): "@
        + cause
}

fn none() -> (actions: Vec<ConnAction>)
    ensures
        action_views(actions@) == Seq::<ActionModel>::empty(),
{
    let actions: Vec<ConnAction> = Vec::new();
    proof {
        assert(action_views(actions@) =~= Seq::<ActionModel>::empty());
    }
    actions
}

fn one(first: ConnAction) -> (actions: Vec<ConnAction>)
    ensures
        action_views(actions@) == seq![first@],
{
    let mut actions: Vec<ConnAction> = Vec::new();
    actions.push(first);
    proof {
        assert(action_views(actions@) =~= seq![first@]);
    }
    actions
}

fn two(first: ConnAction, second: ConnAction) -> (actions: Vec<ConnAction>)
    ensures
        action_views(actions@) == seq![first@, second@],
{
    let mut actions: Vec<ConnAction> = Vec::new();
    actions.push(first);
    actions.push(second);
    proof {
        assert(action_views(actions@) =~= seq![first@, second@]);
    }
    actions
}

fn three(first: ConnAction, second: ConnAction, third: ConnAction) -> (actions: Vec<ConnAction>)
    ensures
        action_views(actions@) == seq![first@, second@, third@],
{
    let mut actions: Vec<ConnAction> = Vec::new();
    actions.push(first);
    actions.push(second);
    actions.push(third);
    proof {
        assert(action_views(actions@) =~= seq![first@, second@, third@]);
    }
    actions
}

/// An error frame, then the end.
fn refuse_with(message: String) -> (actions: Vec<ConnAction>)
    ensures
        action_views(actions@) == refuse(message@),
{
    two(ConnAction::Send(Message::Error(ErrorMsg { message })), ConnAction::Close)
}

/// A status frame, then the end.
fn close_with(exit: Exit) -> (actions: Vec<ConnAction>)
    ensures
        action_views(actions@) == exit_with(exit),
{
    two(ConnAction::Send(Message::Exit(exit)), ConnAction::Close)
}

/// `before`, `middle` and `after`, joined.
fn joined(before: &str, middle: &str, after: &str) -> (out: String)
    ensures
        out@ == before@ + middle@ + after@,
{
    let mut out = before.to_owned();
    out.append(middle);
    out.append(after);
    out
}

/// The variables of the request's entries, or the first entry that is no
/// `KEY=VALUE`.
fn plan_env(entries: &Vec<String>) -> (r: Result<Vec<(String, String)>, String>)
    ensures
        match env_plan(views(entries@)) {
            Ok(env) => r is Ok && env_views(r->Ok_0@) == env,
            Err(entry) => r is Err && r->Err_0@ == entry,
        },
{
    let mut env: Vec<(String, String)> = Vec::new();
    let mut i: usize = 0;
    let ghost all = views(entries@);
    proof {
        assert(env_views(env@) =~= Seq::<(Seq<char>, Seq<char>)>::empty());
    }
    while i < entries.len()
        invariant
            i <= entries@.len(),
            all == views(entries@),
            env_plan(all.take(i as int)) == Ok::<Seq<(Seq<char>, Seq<char>)>, Seq<char>>(
                env_views(env@),
            ),
        decreases entries@.len() - i,
    {
        let chars = text::chars_of(entries[i].as_str());
        let at: usize = text::find(&chars, '=');
        proof {
            text::lemma_first_index(chars@, '=');
            let t = all.take(i + 1);
            assert(t.drop_last() =~= all.take(i as int));
            assert(t.last() == entries@[i as int]@);
            if env_plan(t) is Err {
                lemma_env_error_stays(all, i + 1);
            }
        }
        if at == chars.len() {
            return Err(entries[i].clone());
        }
        let key = text::substring(&chars, 0, at);
        let value = text::substring(&chars, at + 1, chars.len());
        let ghost before = env@;
        env.push((key, value));
        proof {
            assert(key@ =~= chars@.take(at as int));
            assert(value@ =~= chars@.skip(at + 1));
            assert(env_views(env@) =~= env_views(before).push((key@, value@)));
        }
        i = i + 1;
    }
    proof {
        assert(all.take(i as int) =~= all);
    }
    Ok(env)
}

/// Once an entry is in error, so are all longer lists, and in the same entry.
proof fn lemma_env_error_stays(entries: Seq<Seq<char>>, n: int)
    requires
        0 <= n <= entries.len(),
        env_plan(entries.take(n)) is Err,
    ensures
        env_plan(entries) == env_plan(entries.take(n)),
    decreases entries.len(),
{
    if n == entries.len() {
        assert(entries.take(n) =~= entries);
    } else {
        assert(entries.drop_last().take(n) =~= entries.take(n));
        lemma_env_error_stays(entries.drop_last(), n);
    }
}

/// A number cut to a byte.
fn byte_of(n: Option<i32>) -> (r: Option<u8>)
    ensures
        r == match n {
            Some(n) => Some(n as u8),
            None => None::<u8>,
        },
{
    match n {
        Some(n) => Some(#[verifier::truncate] (n as u8)),
        None => None,
    }
}

impl Connection {
    /// A connection that waits for its first frame.
    pub fn new() -> (conn: Self)
        ensures
            conn@ == (ConnModel {
                stage: ConnStage::First,
                request: None,
                stdin_open: false,
                client_open: true,
                stopping_open: true,
            }),
    {
        Connection {
            stage: ConnStage::First,
            request: None,
            stdin_open: false,
            client_open: true,
            stopping_open: true,
        }
    }

    /// Take in one event: what to do about it, in order.
    pub fn step(&mut self, event: ConnEvent) -> (actions: Vec<ConnAction>)
        requires
            accepts(old(self)@, event@),
        ensures
            (final(self)@, action_views(actions@)) == conn_step(old(self)@, event@),
    {
        match self.stage {
            ConnStage::First => self.open(event),
            ConnStage::Checking => self.prepare(event),
            ConnStage::Spawning => self.launch(event),
            ConnStage::Bridging => self.bridge(event),
            ConnStage::Waiting => self.conclude(event),
            _ => {
                self.stage = ConnStage::Closed;
                one(ConnAction::Close)
            },
        }
    }

    /// The first frame decides what the connection is for.
    fn open(&mut self, event: ConnEvent) -> (actions: Vec<ConnAction>)
        requires
            old(self)@.stage == ConnStage::First,
            accepts(old(self)@, event@),
        ensures
            (final(self)@, action_views(actions@)) == conn_step(old(self)@, event@),
    {
        match event {
            ConnEvent::Frame(Ok(Message::Request(request))) => {
                let cwd = request.cwd.clone();
                self.stage = ConnStage::Checking;
                self.request = Some(request);
                two(
                    ConnAction::Log(LogLevel::Debug, "exec request".to_owned()),
                    ConnAction::CheckCwd(cwd),
                )
            },
            ConnEvent::Frame(Ok(Message::RequestVersion)) => {
                self.stage = ConnStage::Closed;
                let version = CURRENT_VERSION.to_owned();
                three(
                    ConnAction::Send(Message::ServerVersion(VersionMsg { version })),
                    ConnAction::Log(LogLevel::Debug, "version probe served".to_owned()),
                    ConnAction::Close,
                )
            },
            ConnEvent::Frame(Ok(Message::Version(_))) => none(),
            ConnEvent::Frame(Ok(other)) => {
                self.stage = ConnStage::Closed;
                let mut message = "expected a Request frame, got ".to_owned();
                message.append(other.frame_type().name());
                refuse_with(message)
            },
            ConnEvent::Frame(Err(err)) => {
                self.stage = ConnStage::Closed;
                refuse_with(err.message())
            },
            ConnEvent::Stopping => {
                self.stage = ConnStage::Closed;
                two(ConnAction::Send(Message::ServerStopping), ConnAction::Close)
            },
            _ => {
                self.stage = ConnStage::Closed;
                one(ConnAction::Close)
            },
        }
    }

    /// A request in a directory, with a well-formed environment, is started.
    fn prepare(&mut self, event: ConnEvent) -> (actions: Vec<ConnAction>)
        requires
            old(self)@.stage == ConnStage::Checking,
            accepts(old(self)@, event@),
        ensures
            (final(self)@, action_views(actions@)) == conn_step(old(self)@, event@),
    {
        let actions = match &self.request {
            Some(request) => match event {
                ConnEvent::CwdChecked(true) => match plan_env(&request.env) {
                    Ok(env) => {
                        let plan = SpawnPlan {
                            command: request.command.clone(),
                            args: text::copy_texts(&request.args),
                            cwd: request.cwd.clone(),
                            env,
                        };
                        self.stage = ConnStage::Spawning;
                        return one(ConnAction::Spawn(plan));
                    },
                    Err(entry) => refuse_with(
                        joined("invalid env entry `", entry.as_str(), "`: expected `KEY=VALUE`"),
                    ),
                },
                _ => refuse_with(joined("cwd is not a directory: `", request.cwd.as_str(), "`")),
            },
            None => none(),
        };
        self.stage = ConnStage::Closed;
        actions
    }

    /// The child runs, or the client learns why it does not.
    fn launch(&mut self, event: ConnEvent) -> (actions: Vec<ConnAction>)
        requires
            old(self)@.stage == ConnStage::Spawning,
            accepts(old(self)@, event@),
        ensures
            (final(self)@, action_views(actions@)) == conn_step(old(self)@, event@),
    {
        match event {
            ConnEvent::Spawned => {
                self.stage = ConnStage::Bridging;
                self.stdin_open = true;
                return none();
            },
            _ => {},
        }
        self.stage = ConnStage::Closed;
        match event {
            ConnEvent::SpawnFailed(SpawnFault::NotFound) => {
                close_with(Exit { code: Some(127), signal: None })
            },
            ConnEvent::SpawnFailed(SpawnFault::PermissionDenied) => {
                close_with(Exit { code: Some(126), signal: None })
            },
            ConnEvent::SpawnFailed(SpawnFault::Other(cause)) => match &self.request {
                Some(request) => {
                    let mut message = joined("failed to spawn `", request.command.as_str(), "`: ");
                    message.append(cause.as_str());
                    refuse_with(message)
                },
                None => none(),
            },
            _ => none(),
        }
    }

    /// Both directions flow until the child's pipes close or the client is
    /// lost.
    fn bridge(&mut self, event: ConnEvent) -> (actions: Vec<ConnAction>)
        requires
            old(self)@.stage == ConnStage::Bridging,
            accepts(old(self)@, event@),
        ensures
            (final(self)@, action_views(actions@)) == conn_step(old(self)@, event@),
    {
        match event {
            ConnEvent::Output(Pipe::Stdout, bytes) => one(
                ConnAction::Relay(Message::Stdout(bytes)),
            ),
            ConnEvent::Output(Pipe::Stderr, bytes) => one(
                ConnAction::Relay(Message::Stderr(bytes)),
            ),
            ConnEvent::OutputEnd => {
                self.stage = ConnStage::Waiting;
                one(ConnAction::Wait)
            },
            ConnEvent::SendFailed => {
                self.stage = ConnStage::Reaping;
                two(ConnAction::KillQuietly(SIGTERM), ConnAction::Reap)
            },
            ConnEvent::Frame(Ok(Message::Stdin(bytes))) => {
                if bytes.len() == 0 {
                    self.stdin_open = false;
                    one(ConnAction::CloseStdin)
                } else if self.stdin_open {
                    one(ConnAction::WriteStdin(bytes))
                } else {
                    none()
                }
            },
            ConnEvent::StdinFailed => {
                self.stdin_open = false;
                one(ConnAction::CloseStdin)
            },
            ConnEvent::Frame(Ok(Message::Signal(signal_msg))) => one(
                ConnAction::Kill(signal_msg.signal),
            ),
            ConnEvent::KillFailed { pgid, signal, cause } => {
                let mut line = "kill(-".to_owned();
                line.append(number::format_decimal(pgid as u128).as_str());
                line.append(", ");
                line.append(number::format_decimal(signal as u128).as_str());
                line.append("): ");
                line.append(cause.as_str());
                proof {
                    assert(line@ =~= kill_text(pgid, signal, cause@));
                }
                one(ConnAction::Log(LogLevel::Warning, line))
            },
            ConnEvent::Frame(Ok(_)) => none(),
            ConnEvent::Frame(Err(err)) => {
                self.stage = ConnStage::Reaping;
                let message = err.message();
                let actions = three(
                    ConnAction::Send(Message::Error(ErrorMsg { message })),
                    ConnAction::KillQuietly(SIGTERM),
                    ConnAction::Reap,
                );
                proof {
                    assert(action_views(actions@) =~= seq![
                        ActionModel::Send(MessageModel::Error(err.text())),
                    ] + abandon());
                }
                actions
            },
            ConnEvent::ClientClosed => {
                self.stdin_open = false;
                self.client_open = false;
                one(ConnAction::CloseStdin)
            },
            ConnEvent::Stopping => {
                self.stopping_open = false;
                two(
                    ConnAction::Send(Message::ServerStopping),
                    ConnAction::KillQuietly(SIGTERM),
                )
            },
            _ => none(),
        }
    }

    /// The child's status is the last frame.
    fn conclude(&mut self, event: ConnEvent) -> (actions: Vec<ConnAction>)
        requires
            old(self)@.stage == ConnStage::Waiting,
            accepts(old(self)@, event@),
        ensures
            (final(self)@, action_views(actions@)) == conn_step(old(self)@, event@),
    {
        self.stage = ConnStage::Closed;
        match event {
            ConnEvent::Exited { code, signal } => close_with(
                Exit { code: byte_of(code), signal: byte_of(signal) },
            ),
            ConnEvent::WaitFailed(cause) => match &self.request {
                Some(request) => {
                    let mut message = joined(
                        "failed to wait for `",
                        request.command.as_str(),
                        "`: ",
                    );
                    message.append(cause.as_str());
                    refuse_with(message)
                },
                None => none(),
            },
            _ => none(),
        }
    }
}

// ---------------------------------------------------------------------------
// Laws
// ---------------------------------------------------------------------------

/// A frame after which the client hears nothing more.
pub open spec fn is_terminal(action: ActionModel) -> bool {
    match action {
        ActionModel::Send(message) | ActionModel::Relay(message) => message is Exit || message
            is Error || message is ServerVersion,
        _ => false,
    }
}

/// The action puts a frame on the wire.
pub open spec fn is_frame(action: ActionModel) -> bool {
    action is Send || action is Relay
}

/// The connection will send no more frames.
pub open spec fn is_silent(conn: ConnModel) -> bool {
    conn.stage == ConnStage::Closed || conn.stage == ConnStage::Reaping
}

/// A terminal frame is the last one of its connection: the step that sends
/// it leaves the connection silent, and a silent connection sends nothing.
pub proof fn law_terminal_frame_is_the_last(conn: ConnModel, event: EventModel)
    requires
        accepts(conn, event),
    ensures
        ({
            let (after, actions) = conn_step(conn, event);
            &&& (exists|i: int| 0 <= i < actions.len() && is_terminal(#[trigger] actions[i]))
                ==> is_silent(after)
            &&& is_silent(conn) ==> is_silent(after) && forall|i: int|
                0 <= i < actions.len() ==> !is_frame(#[trigger] actions[i])
            &&& forall|i: int, j: int|
                0 <= i < j < actions.len() && is_terminal(#[trigger] actions[i]) ==> !is_frame(
                    #[trigger] actions[j],
                )
        }),
{
}

/// The shutdown is announced at most once: only an open announcement sends
/// `ServerStopping`, the step that sends it closes the announcement or the
/// connection, and nothing opens it again.
pub proof fn law_shutdown_is_announced_once(conn: ConnModel, event: EventModel)
    requires
        accepts(conn, event),
    ensures
        ({
            let (after, actions) = conn_step(conn, event);
            &&& after.stopping_open ==> conn.stopping_open
            &&& (exists|i: int|
                0 <= i < actions.len() && #[trigger] actions[i] == ActionModel::Send(
                    MessageModel::ServerStopping,
                )) ==> event is Stopping && (!after.stopping_open || is_silent(after))
        }),
{
}

/// A client that is lost while its child runs costs the child's whole group a
/// TERM, and the child is awaited: every way out of the bridge other than the
/// child's own end signals before it reaps.
pub proof fn law_lost_client_ends_the_group(conn: ConnModel, event: EventModel)
    requires
        conn.stage == ConnStage::Bridging,
        accepts(conn, event),
    ensures
        ({
            let (after, actions) = conn_step(conn, event);
            &&& after.stage == ConnStage::Bridging || after.stage == ConnStage::Waiting
                || after.stage == ConnStage::Reaping
            &&& after.stage == ConnStage::Reaping ==> actions.len() >= 2 && actions[actions.len()
                - 2] == ActionModel::KillQuietly(SIGTERM) && actions.last() is Reap
            &&& after.stage == ConnStage::Waiting ==> event is OutputEnd
        }),
{
}

/// End of stdin is never a disconnect: it closes the child's stdin for good
/// and leaves the bridge, the announcement and the signals as they are.
pub proof fn law_stdin_end_is_no_disconnect(conn: ConnModel, event: EventModel)
    requires
        conn.stage == ConnStage::Bridging,
        accepts(conn, event),
        event is ClientClosed || event is StdinFailed || event == EventModel::Frame(
            MessageModel::Stdin(Seq::empty()),
        ),
    ensures
        ({
            let (after, actions) = conn_step(conn, event);
            &&& after.stage == ConnStage::Bridging
            &&& !after.stdin_open
            &&& after.stopping_open == conn.stopping_open
            &&& actions == seq![ActionModel::CloseStdin]
        }),
{
}

/// A child's stdin that is closed stays closed.
pub proof fn law_closed_stdin_stays_closed(conn: ConnModel, event: EventModel)
    requires
        conn.stage == ConnStage::Bridging,
        accepts(conn, event),
    ensures
        ({
            let (after, actions) = conn_step(conn, event);
            &&& after.stdin_open ==> conn.stdin_open
            &&& !conn.stdin_open ==> forall|i: int|
                0 <= i < actions.len() ==> !((#[trigger] actions[i]) is WriteStdin)
        }),
{
}

/// A version probe gets the server's version and the end of the connection;
/// no child is started for it.
pub proof fn law_probe_starts_no_child(conn: ConnModel)
    requires
        conn.stage == ConnStage::First,
    ensures
        ({
            let (after, actions) = conn_step(
                conn,
                EventModel::Frame(MessageModel::RequestVersion),
            );
            &&& after.stage == ConnStage::Closed
            &&& actions[0] == ActionModel::Send(MessageModel::ServerVersion(CURRENT_VERSION@))
            &&& forall|event: EventModel| !accepts(after, event)
            &&& forall|i: int| 0 <= i < actions.len() ==> !((#[trigger] actions[i]) is Spawn)
        }),
{
}

/// How far along a stage is.
pub open spec fn progress(stage: ConnStage) -> int {
    match stage {
        ConnStage::First => 0,
        ConnStage::Checking => 1,
        ConnStage::Spawning => 2,
        ConnStage::Bridging => 3,
        ConnStage::Waiting | ConnStage::Reaping => 4,
        ConnStage::Closed => 5,
    }
}

/// A connection starts at most one child: only the step from looking at the
/// directory to starting asks for one, a connection never goes back, and it
/// keeps the request that it started with.
pub proof fn law_one_child_per_connection(conn: ConnModel, event: EventModel)
    requires
        accepts(conn, event),
    ensures
        ({
            let (after, actions) = conn_step(conn, event);
            &&& progress(after.stage) >= progress(conn.stage)
            &&& conn.stage != ConnStage::First ==> after.request == conn.request
            &&& (exists|i: int| 0 <= i < actions.len() && (#[trigger] actions[i]) is Spawn)
                ==> conn.stage == ConnStage::Checking && after.stage == ConnStage::Spawning
                && actions.len() == 1
        }),
{
}

/// A variable is set in the child as the request writes it: what stands
/// before the first `=` is the name, all that stands behind it the value. An
/// entry without `=` is refused, and the first such one is named.
pub proof fn law_entries_become_variables(
    entries: Seq<Seq<char>>,
    key: Seq<char>,
    value: Seq<char>,
    bad: Seq<char>,
    more: Seq<Seq<char>>,
)
    requires
        forall|i: int| 0 <= i < key.len() ==> key[i] != '=',
        forall|i: int| 0 <= i < bad.len() ==> bad[i] != '=',
    ensures
        env_plan(Seq::empty()) == Ok::<Seq<(Seq<char>, Seq<char>)>, Seq<char>>(Seq::empty()),
        env_plan(entries) matches Ok(before) ==> env_plan(entries.push(key + "="@ + value)) == Ok::<
            Seq<(Seq<char>, Seq<char>)>,
            Seq<char>,
        >(before.push((key, value))),
        env_plan(entries) is Ok ==> env_plan(entries.push(bad)) == Err::<
            Seq<(Seq<char>, Seq<char>)>,
            Seq<char>,
        >(bad),
        env_plan(entries) matches Err(entry) ==> env_plan(entries + more) == Err::<
            Seq<(Seq<char>, Seq<char>)>,
            Seq<char>,
        >(entry),
    decreases more.len(),
{
    reveal_strlit("=");
    let line = key + "="@ + value;
    let n = key.len() as int;
    assert forall|j: int| 0 <= j < n implies line[j] != '=' by {
        assert(line[j] == key[j]);
    }
    text::lemma_first_index_is(line, '=', n);
    assert(line.take(n) =~= key);
    assert(line.skip(n + 1) =~= value);
    assert(entries.push(line).drop_last() =~= entries);
    text::lemma_first_index_is(bad, '=', bad.len() as int);
    assert(entries.push(bad).drop_last() =~= entries);
    if more.len() == 0 {
        assert(entries + more =~= entries);
    } else {
        law_entries_become_variables(entries, key, value, bad, more.drop_last());
        assert((entries + more).drop_last() =~= entries + more.drop_last());
    }
}

/// The first frame decides: a request has its directory looked at, a version
/// probe is answered, the reserved version frame is passed over, and any
/// other frame is refused by its name. A frame that does not decode is
/// answered with what is wrong with it.
pub proof fn law_first_frame_decides(conn: ConnModel, message: MessageModel, fault: Seq<char>)
    requires
        conn.stage == ConnStage::First,
    ensures
        ({
            let (after, actions) = conn_step(conn, EventModel::Frame(message));
            &&& message matches MessageModel::Request(request) ==> after.stage
                == ConnStage::Checking && after.request == Some(request) && actions.last()
                == ActionModel::CheckCwd(request.cwd) && forall|i: int|
                0 <= i < actions.len() ==> !is_frame(#[trigger] actions[i])
            &&& message is RequestVersion ==> after.stage == ConnStage::Closed && actions[0]
                == ActionModel::Send(MessageModel::ServerVersion(CURRENT_VERSION@))
                && actions.last() is Close
            &&& message is Version ==> after == conn && actions.len() == 0
            &&& !(message is Request || message is RequestVersion || message is Version)
                ==> after.stage == ConnStage::Closed && actions == seq![
                ActionModel::Send(
                    MessageModel::Error(
                        "expected a Request frame, got "@ + message.frame_type().title(),
                    ),
                ),
                ActionModel::Close,
            ]
        }),
        conn_step(conn, EventModel::BadFrame(fault)).0.stage == ConnStage::Closed,
        conn_step(conn, EventModel::BadFrame(fault)).1 == seq![
            ActionModel::Send(MessageModel::Error(fault)),
            ActionModel::Close,
        ],
        conn_step(conn, EventModel::Stopping).0.stage == ConnStage::Closed,
        conn_step(conn, EventModel::Stopping).1 == seq![
            ActionModel::Send(MessageModel::ServerStopping),
            ActionModel::Close,
        ],
        conn_step(conn, EventModel::ClientClosed).0.stage == ConnStage::Closed,
        conn_step(conn, EventModel::ClientClosed).1 == seq![ActionModel::Close],
{
}

/// A request that cannot be run is answered with why, and starts no child: a
/// directory that is none, an entry that sets no variable, a command that is
/// not found (127), may not be run (126) or fails to start for another
/// reason.
pub proof fn law_refused_request_is_answered(
    conn: ConnModel,
    request: RequestModel,
    cause: Seq<char>,
)
    requires
        conn.request == Some(request),
    ensures
        conn.stage == ConnStage::Checking ==> ({
            let (after, actions) = conn_step(conn, EventModel::CwdChecked(false));
            after.stage == ConnStage::Closed && actions == seq![
                ActionModel::Send(
                    MessageModel::Error("cwd is not a directory: `"@ + request.cwd + "`"@),
                ),
                ActionModel::Close,
            ]
        }),
        conn.stage == ConnStage::Checking && env_plan(request.env) is Err ==> ({
            let (after, actions) = conn_step(conn, EventModel::CwdChecked(true));
            after.stage == ConnStage::Closed && actions == seq![
                ActionModel::Send(
                    MessageModel::Error(
                        "invalid env entry `"@ + env_plan(request.env)->Err_0
                            + "`: expected `KEY=VALUE`"@,
                    ),
                ),
                ActionModel::Close,
            ]
        }),
        conn.stage == ConnStage::Checking && env_plan(request.env) is Ok ==> ({
            let (after, actions) = conn_step(conn, EventModel::CwdChecked(true));
            after.stage == ConnStage::Spawning && actions == seq![
                ActionModel::Spawn {
                    command: request.command,
                    args: request.args,
                    cwd: request.cwd,
                    env: env_plan(request.env)->Ok_0,
                },
            ]
        }),
        conn.stage == ConnStage::Spawning ==> ({
            let (after, actions) = conn_step(conn, EventModel::NotFound);
            after.stage == ConnStage::Closed && actions == seq![
                ActionModel::Send(MessageModel::Exit(Exit { code: Some(127), signal: None })),
                ActionModel::Close,
            ]
        }),
        conn.stage == ConnStage::Spawning ==> ({
            let (after, actions) = conn_step(conn, EventModel::PermissionDenied);
            after.stage == ConnStage::Closed && actions == seq![
                ActionModel::Send(MessageModel::Exit(Exit { code: Some(126), signal: None })),
                ActionModel::Close,
            ]
        }),
        conn.stage == ConnStage::Spawning ==> ({
            let (after, actions) = conn_step(conn, EventModel::SpawnFailed(cause));
            after.stage == ConnStage::Closed && actions == seq![
                ActionModel::Send(
                    MessageModel::Error("failed to spawn `"@ + request.command + "`: "@ + cause),
                ),
                ActionModel::Close,
            ]
        }),
        conn.stage == ConnStage::Waiting ==> ({
            let (after, actions) = conn_step(conn, EventModel::WaitFailed(cause));
            after.stage == ConnStage::Closed && actions == seq![
                ActionModel::Send(
                    MessageModel::Error("failed to wait for `"@ + request.command + "`: "@ + cause),
                ),
                ActionModel::Close,
            ]
        }),
{
}

/// While the child runs, both directions flow: its output is relayed as it
/// comes, what the client sends is written to its stdin, every signal goes
/// to its whole group under the number it came with, and the end of the
/// output is followed by the wait for its status. Other frames are passed
/// over.
pub proof fn law_bridge_passes_everything_on(
    conn: ConnModel,
    bytes: Seq<u8>,
    signal: u8,
    pgid: u32,
    cause: Seq<char>,
    other: MessageModel,
)
    requires
        conn.stage == ConnStage::Bridging,
    ensures
        conn_step(conn, EventModel::Output(Pipe::Stdout, bytes)) == (
            conn,
            seq![ActionModel::Relay(MessageModel::Stdout(bytes))],
        ),
        conn_step(conn, EventModel::Output(Pipe::Stderr, bytes)) == (
            conn,
            seq![ActionModel::Relay(MessageModel::Stderr(bytes))],
        ),
        conn.stdin_open && bytes.len() > 0 ==> conn_step(
            conn,
            EventModel::Frame(MessageModel::Stdin(bytes)),
        ) == (conn, seq![ActionModel::WriteStdin(bytes)]),
        conn_step(conn, EventModel::Frame(MessageModel::Signal(signal))) == (
            conn,
            seq![ActionModel::Kill(signal)],
        ),
        conn_step(conn, EventModel::KillFailed { pgid, signal, cause }) == (
            conn,
            seq![
                ActionModel::Log(
                    LogLevel::Warning,
                    "kill(-"@ + number::decimal(pgid as nat) + ", "@ + number::decimal(
                        signal as nat,
                    ) + "): "@ + cause,
                ),
            ],
        ),
        conn_step(conn, EventModel::OutputEnd).0.stage == ConnStage::Waiting,
        conn_step(conn, EventModel::OutputEnd).1 == seq![ActionModel::Wait],
        !(other is Stdin || other is Signal) ==> conn_step(conn, EventModel::Frame(other)) == (
            conn,
            Seq::<ActionModel>::empty(),
        ),
{
    assert(conn_step(conn, EventModel::KillFailed { pgid, signal, cause }).1 =~= seq![
        ActionModel::Log(
            LogLevel::Warning,
            "kill(-"@ + number::decimal(pgid as nat) + ", "@ + number::decimal(signal as nat)
                + "): "@ + cause,
        ),
    ]);
}

/// A server that stops tells its clients first and then ends their groups
/// with a TERM, while the bridge stays up for what the child still has to
/// say. A frame that does not decode is answered, and the child is ended and
/// awaited; so it is where the client cannot be reached any more.
pub proof fn law_shutdown_and_loss_end_the_group(conn: ConnModel, fault: Seq<char>)
    requires
        conn.stage == ConnStage::Bridging,
    ensures
        conn_step(conn, EventModel::Stopping).0.stage == ConnStage::Bridging,
        conn_step(conn, EventModel::Stopping).0.stdin_open == conn.stdin_open,
        conn_step(conn, EventModel::Stopping).1 == seq![
            ActionModel::Send(MessageModel::ServerStopping),
            ActionModel::KillQuietly(15u8),
        ],
        conn_step(conn, EventModel::BadFrame(fault)).0.stage == ConnStage::Reaping,
        conn_step(conn, EventModel::BadFrame(fault)).1 == seq![
            ActionModel::Send(MessageModel::Error(fault)),
            ActionModel::KillQuietly(15u8),
            ActionModel::Reap,
        ],
        conn_step(conn, EventModel::SendFailed).0.stage == ConnStage::Reaping,
        conn_step(conn, EventModel::SendFailed).1 == seq![
            ActionModel::KillQuietly(15u8),
            ActionModel::Reap,
        ],
{
    assert(conn_step(conn, EventModel::BadFrame(fault)).1 =~= seq![
        ActionModel::Send(MessageModel::Error(fault)),
        ActionModel::KillQuietly(15u8),
        ActionModel::Reap,
    ]);
}

/// The child's status goes out as it is: its exit code, or the number of the
/// signal that ended it, never both where there is but one.
pub proof fn law_status_goes_out_as_it_is(conn: ConnModel, number: i32)
    requires
        conn.stage == ConnStage::Waiting,
        0 <= number <= 255,
    ensures
        conn_step(conn, EventModel::Exited { code: Some(number), signal: None }).1 == seq![
            ActionModel::Send(
                MessageModel::Exit(Exit { code: Some(number as u8), signal: None }),
            ),
            ActionModel::Close,
        ],
        conn_step(conn, EventModel::Exited { code: None, signal: Some(number) }).1 == seq![
            ActionModel::Send(
                MessageModel::Exit(Exit { code: None, signal: Some(number as u8) }),
            ),
            ActionModel::Close,
        ],
        number as u8 == number,
{
}

/// What happens to a connection, what it wants done and what it is are
/// modelled field by field.
pub proof fn law_connection_models_keep_every_field(
    message: Message,
    bytes: Vec<u8>,
    text: String,
    plan: SpawnPlan,
    pipe: Pipe,
    flag: bool,
    pgid: u32,
    signal: u8,
    code: Option<i32>,
    number: Option<i32>,
    level: LogLevel,
    conn: Connection,
)
    ensures
        ConnEvent::Frame(Ok(message))@ == EventModel::Frame(message@),
        ConnEvent::ClientClosed@ == EventModel::ClientClosed,
        ConnEvent::Stopping@ == EventModel::Stopping,
        ConnEvent::CwdChecked(flag)@ == EventModel::CwdChecked(flag),
        ConnEvent::Spawned@ == EventModel::Spawned,
        ConnEvent::SpawnFailed(SpawnFault::NotFound)@ == EventModel::NotFound,
        ConnEvent::SpawnFailed(SpawnFault::PermissionDenied)@ == EventModel::PermissionDenied,
        ConnEvent::SpawnFailed(SpawnFault::Other(text))@ == EventModel::SpawnFailed(text@),
        ConnEvent::Output(pipe, bytes)@ == EventModel::Output(pipe, bytes@),
        ConnEvent::OutputEnd@ == EventModel::OutputEnd,
        ConnEvent::SendFailed@ == EventModel::SendFailed,
        ConnEvent::StdinFailed@ == EventModel::StdinFailed,
        (ConnEvent::KillFailed { pgid, signal, cause: text })@ == (EventModel::KillFailed {
            pgid,
            signal,
            cause: text@,
        }),
        (ConnEvent::Exited { code, signal: number })@ == (EventModel::Exited {
            code,
            signal: number,
        }),
        ConnEvent::WaitFailed(text)@ == EventModel::WaitFailed(text@),
        ConnEvent::Reaped@ == EventModel::Reaped,
        ConnAction::Send(message)@ == ActionModel::Send(message@),
        ConnAction::Relay(message)@ == ActionModel::Relay(message@),
        ConnAction::CheckCwd(text)@ == ActionModel::CheckCwd(text@),
        ConnAction::Spawn(plan)@ is Spawn,
        ConnAction::Spawn(plan)@->command == plan.command@,
        ConnAction::Spawn(plan)@->args == views(plan.args@),
        ConnAction::Spawn(plan)@->cwd == plan.cwd@,
        ConnAction::Spawn(plan)@->env.len() == plan.env@.len(),
        forall|i: int|
            0 <= i < plan.env@.len() ==> (#[trigger] ConnAction::Spawn(plan)@->env[i]) == (
                plan.env@[i].0@,
                plan.env@[i].1@,
            ),
        ConnAction::WriteStdin(bytes)@ == ActionModel::WriteStdin(bytes@),
        ConnAction::CloseStdin@ == ActionModel::CloseStdin,
        ConnAction::Kill(signal)@ == ActionModel::Kill(signal),
        ConnAction::KillQuietly(signal)@ == ActionModel::KillQuietly(signal),
        ConnAction::Wait@ == ActionModel::Wait,
        ConnAction::Reap@ == ActionModel::Reap,
        ConnAction::Log(level, text)@ == ActionModel::Log(level, text@),
        ConnAction::Close@ == ActionModel::Close,
        conn@.stage == conn.stage,
        conn@.request is Some <==> conn.request is Some,
        conn.request is Some ==> conn@.request->0 == conn.request->0@,
        conn@.stdin_open == conn.stdin_open,
        conn@.client_open == conn.client_open,
        conn@.stopping_open == conn.stopping_open,
{
}

/// While the child runs, its own events and failures are taken in at any
/// time, frames for as long as the client's half is open, and the shutdown
/// once.
pub proof fn law_bridge_listens_to_all_sides(conn: ConnModel, event: EventModel)
    requires
        conn.stage == ConnStage::Bridging,
    ensures
        event is Output || event is OutputEnd || event is SendFailed || event is StdinFailed
            || event is KillFailed ==> accepts(conn, event),
        event is Frame || event is BadFrame || event is ClientClosed ==> (accepts(conn, event)
            <==> conn.client_open),
        event is Stopping ==> (accepts(conn, event) <==> conn.stopping_open),
{
}

} // verus!
