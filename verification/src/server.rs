//! Server (`ncap-server`): its log, the probe of its socket, and the course
//! of a run from startup to the end of the drain. What one connection does
//! stands in [`crate::connection`].

use vstd::prelude::*;

use crate::client::HostSignal;
use crate::number;
use crate::text;

verus! {

// ---------------------------------------------------------------------------
// Log
// ---------------------------------------------------------------------------

/// Severity of a log line, and the least severity that a server logs at.
#[derive(Clone, Copy, Debug, PartialEq, Eq, Structural)]
pub enum LogLevel {
    Debug,
    Info,
    Warning,
    Error,
}

impl LogLevel {
    /// Position in the order of severity.
    pub open spec fn rank(self) -> int {
        match self {
            LogLevel::Debug => 0,
            LogLevel::Info => 1,
            LogLevel::Warning => 2,
            LogLevel::Error => 3,
        }
    }

    /// The word for the level.
    pub open spec fn word(self) -> Seq<char> {
        match self {
            LogLevel::Debug => "debug"@,
            LogLevel::Info => "info"@,
            LogLevel::Warning => "warning"@,
            LogLevel::Error => "error"@,
        }
    }

    /// The level that a word stands for: an exact match of one of the four.
    pub fn parse(word: &str) -> (r: Option<Self>)
        ensures
            match r {
                Some(level) => word@ == level.word(),
                None => forall|level: LogLevel| word@ != #[trigger] level.word(),
            },
    {
        if text::same(word, "debug") {
            Some(LogLevel::Debug)
        } else if text::same(word, "info") {
            Some(LogLevel::Info)
        } else if text::same(word, "warning") {
            Some(LogLevel::Warning)
        } else if text::same(word, "error") {
            Some(LogLevel::Error)
        } else {
            None
        }
    }

    /// The word for the level.
    pub fn name(self) -> (out: &'static str)
        ensures
            out@ == self.word(),
    {
        match self {
            LogLevel::Debug => "debug",
            LogLevel::Info => "info",
            LogLevel::Warning => "warning",
            LogLevel::Error => "error",
        }
    }

    /// Whether a server that logs at `self` writes a line of `severity`.
    pub fn admits(self, severity: LogLevel) -> (r: bool)
        ensures
            r == (self.rank() <= severity.rank()),
    {
        match self {
            LogLevel::Debug => true,
            LogLevel::Info => severity != LogLevel::Debug,
            LogLevel::Warning => severity == LogLevel::Warning || severity == LogLevel::Error,
            LogLevel::Error => severity == LogLevel::Error,
        }
    }
}

/// No two levels share a word.
pub proof fn law_level_words_are_distinct(a: LogLevel, b: LogLevel)
    ensures
        a.word() == b.word() ==> a == b,
{
    reveal_strlit("debug");
    reveal_strlit("info");
    reveal_strlit("warning");
    reveal_strlit("error");
    assert("debug"@[0] == 'd');
    assert("info"@[0] == 'i');
    assert("warning"@[0] == 'w');
    assert("error"@[0] == 'e');
}

/// A line that is logged.
#[derive(Debug, PartialEq, Eq)]
pub struct LogEntry {
    pub level: LogLevel,
    pub message: String,
}

/// A log line as a mathematical value.
pub struct LogEntryModel {
    pub level: LogLevel,
    pub message: Seq<char>,
}

impl View for LogEntry {
    type V = LogEntryModel;

    open spec fn view(&self) -> LogEntryModel {
        LogEntryModel { level: self.level, message: self.message@ }
    }
}

/// A stamped line: seconds since the epoch, message, line feed.
pub open spec fn stamped(secs: nat, message: Seq<char>) -> Seq<char> {
    "["@ + number::decimal(secs) + "] "@ + message + "\n"@
}

/// The line that the log file and stderr get for `entry` from a server that
/// logs at `level`; `None` where the level leaves it out.
pub fn log_line(level: LogLevel, secs: u64, entry: &LogEntry) -> (r: Option<String>)
    ensures
        level.rank() <= entry.level.rank() ==> r is Some && r->0@ == stamped(
            secs as nat,
            entry.message@,
        ),
        level.rank() > entry.level.rank() ==> r is None,
{
    if !level.admits(entry.level) {
        return None;
    }
    let mut line: String = String::new();
    line.append("[");
    line.append(number::format_decimal(secs as u128).as_str());
    line.append("] ");
    line.append(entry.message.as_str());
    line.append("\n");
    proof {
        assert(line@ =~= stamped(secs as nat, entry.message@));
    }
    Some(line)
}

// ---------------------------------------------------------------------------
// The course of a run
// ---------------------------------------------------------------------------

/// How far a run of the server is.
#[derive(Clone, Copy, Debug, PartialEq, Eq, Structural)]
pub enum RunStage {
    /// About to look at the socket path.
    Probing,
    /// Removing a stale socket file.
    Clearing,
    /// Binding the socket.
    Binding,
    /// Accepting connections until a signal comes.
    Serving,
    /// Waiting for live connections, within the drain grace.
    Draining,
    /// Over.
    Stopped,
}

/// What happens to a run. Causes come as their text.
#[derive(Debug)]
pub enum RunEvent {
    /// What stands at the socket path, and whether it takes a connection.
    Probed { present: bool, connectable: bool },
    /// The stale socket file is gone, or could not be removed.
    Cleared(Result<(), String>),
    /// The socket is bound, or could not be.
    Bound(Result<(), String>),
    /// A shutdown signal.
    Signalled(HostSignal),
    /// All connections ended, or the grace did.
    Drained,
}

/// What the run wants done next.
#[derive(Debug)]
pub enum RunAction {
    /// Look at the socket path.
    Probe,
    /// Remove the stale socket file.
    Clear,
    /// Bind the socket.
    Bind,
    /// Accept connections and wait for a shutdown signal.
    Serve,
    /// Tell every live connection, stop accepting, and wait for the
    /// connections at most this many seconds.
    Drain(u64),
    /// Remove the socket file, log the given line, and end well.
    Finish(LogEntry),
    /// End, with the failure.
    Fail(String),
}

/// One run of the server.
pub struct ServerRun {
    pub stage: RunStage,
    pub socket: String,
    /// Drain grace in seconds.
    pub drain: u64,
}

/// The line at startup.
pub open spec fn starting_text(socket: Seq<char>, pid: nat) -> Seq<char> {
    "server starting on socket `"@ + socket + "` (pid "@ + number::decimal(pid) + ")"@
}

/// The line once the socket is bound.
pub open spec fn listening_text(socket: Seq<char>) -> Seq<char> {
    "server listening on socket `"@ + socket + "`"@
}

/// The line when a signal came.
pub open spec fn received_text(signal: HostSignal) -> Seq<char> {
    signal.title() + " received; notifying live connections"@
}

/// The line when the drain begins.
pub open spec fn draining_text(drain: nat) -> Seq<char> {
    "draining connections within "@ + number::decimal(drain) + "s"@
}

/// The refusal to disturb another server.
pub open spec fn owned_text(socket: Seq<char>) -> Seq<char> {
    "socket `"@ + socket + "` is owned by a live server"@
}

/// An informational line.
pub open spec fn info(message: Seq<char>) -> LogEntryModel {
    LogEntryModel { level: LogLevel::Info, message }
}

/// The given lines, as mathematical values.
pub open spec fn entry_views(entries: Seq<LogEntry>) -> Seq<LogEntryModel> {
    entries.map_values(|e: LogEntry| e@)
}

/// The event can happen now.
pub open spec fn run_accepts(stage: RunStage, event: RunEvent) -> bool {
    match event {
        RunEvent::Probed { .. } => stage == RunStage::Probing,
        RunEvent::Cleared(_) => stage == RunStage::Clearing,
        RunEvent::Bound(_) => stage == RunStage::Binding,
        RunEvent::Signalled(_) => stage == RunStage::Serving,
        RunEvent::Drained => stage == RunStage::Draining,
    }
}

/// What the run does about an event: the stage it goes to, the lines it logs
/// first, and the action.
pub open spec fn run_step(
    before: ServerRun,
    event: RunEvent,
    after: ServerRun,
    lines: Seq<LogEntryModel>,
    action: RunAction,
) -> bool {
    &&& after.socket == before.socket
    &&& after.drain == before.drain
    &&& match event {
        // A connectable socket is owned by a live server: refuse rather than
        // disturb it. One that is not is stale.
        RunEvent::Probed { present, connectable } => lines.len() == 0 && if present && connectable {
            &&& after.stage == RunStage::Stopped
            &&& action matches RunAction::Fail(message)
            &&& message@ == owned_text(before.socket@)
        } else if present {
            after.stage == RunStage::Clearing && action is Clear
        } else {
            after.stage == RunStage::Binding && action is Bind
        },
        RunEvent::Cleared(Ok(_)) => lines.len() == 0 && after.stage == RunStage::Binding
            && action is Bind,
        RunEvent::Bound(Ok(_)) => lines == seq![info(listening_text(before.socket@))]
            && after.stage == RunStage::Serving && action is Serve,
        RunEvent::Cleared(Err(cause)) | RunEvent::Bound(Err(cause)) => lines.len() == 0
            && after.stage == RunStage::Stopped && action == RunAction::Fail(cause),
        RunEvent::Signalled(signal) => lines == seq![
            info(received_text(signal)),
            info(draining_text(before.drain as nat)),
        ] && after.stage == RunStage::Draining && action == RunAction::Drain(before.drain),
        RunEvent::Drained => {
            &&& lines.len() == 0
            &&& after.stage == RunStage::Stopped
            &&& action matches RunAction::Finish(entry)
            &&& entry@ == info("socket removed; server stopped"@)
        },
    }
}

fn info_entry(message: String) -> (entry: LogEntry)
    ensures
        entry@ == info(message@),
{
    LogEntry { level: LogLevel::Info, message }
}

/// The line for a failed accept.
pub fn accept_failed(cause: &str) -> (entry: LogEntry)
    ensures
        entry@ == (LogEntryModel {
            level: LogLevel::Error,
            message: "accept failed: "@ + cause@,
        }),
{
    let mut message = "accept failed: ".to_owned();
    message.append(cause);
    LogEntry { level: LogLevel::Error, message }
}

impl ServerRun {
    /// A run that is about to probe `socket`, and the line that announces it.
    pub fn start(socket: String, pid: u32, drain: u64) -> (r: (Self, LogEntry, RunAction))
        ensures
            r.0.stage == RunStage::Probing,
            r.0.socket == socket,
            r.0.drain == drain,
            r.1@ == info(starting_text(socket@, pid as nat)),
            r.2 is Probe,
    {
        let mut message = "server starting on socket `".to_owned();
        message.append(socket.as_str());
        message.append("` (pid ");
        message.append(number::format_decimal(pid as u128).as_str());
        message.append(")");
        proof {
            assert(message@ =~= starting_text(socket@, pid as nat));
        }
        let entry = info_entry(message);
        (ServerRun { stage: RunStage::Probing, socket, drain }, entry, RunAction::Probe)
    }

    /// Take in one event: the lines to log, then what to do.
    pub fn step(&mut self, event: RunEvent) -> (r: (Vec<LogEntry>, RunAction))
        requires
            run_accepts(old(self).stage, event),
        ensures
            run_step(*old(self), event, *final(self), entry_views(r.0@), r.1),
    {
        let mut lines: Vec<LogEntry> = Vec::new();
        let action = match event {
            RunEvent::Probed { present, connectable } => {
                if present && connectable {
                    self.stage = RunStage::Stopped;
                    let mut message = "socket `".to_owned();
                    message.append(self.socket.as_str());
                    message.append("` is owned by a live server");
                    proof {
                        assert(message@ =~= owned_text(self.socket@));
                    }
                    RunAction::Fail(message)
                } else if present {
                    self.stage = RunStage::Clearing;
                    RunAction::Clear
                } else {
                    self.stage = RunStage::Binding;
                    RunAction::Bind
                }
            },
            RunEvent::Cleared(Ok(_)) => {
                self.stage = RunStage::Binding;
                RunAction::Bind
            },
            RunEvent::Bound(Ok(_)) => {
                self.stage = RunStage::Serving;
                let mut message = "server listening on socket `".to_owned();
                message.append(self.socket.as_str());
                message.append("`");
                proof {
                    assert(message@ =~= listening_text(self.socket@));
                }
                lines.push(info_entry(message));
                proof {
                    assert(entry_views(lines@) =~= seq![info(listening_text(self.socket@))]);
                }
                RunAction::Serve
            },
            RunEvent::Cleared(Err(cause)) | RunEvent::Bound(Err(cause)) => {
                self.stage = RunStage::Stopped;
                RunAction::Fail(cause)
            },
            RunEvent::Signalled(signal) => {
                self.stage = RunStage::Draining;
                let mut received = match signal {
                    HostSignal::Interrupt => "SIGINT".to_owned(),
                    HostSignal::Terminate => "SIGTERM".to_owned(),
                };
                received.append(" received; notifying live connections");
                lines.push(info_entry(received));
                let mut draining = "draining connections within ".to_owned();
                draining.append(number::format_decimal(self.drain as u128).as_str());
                draining.append("s");
                proof {
                    assert(draining@ =~= draining_text(self.drain as nat));
                }
                lines.push(info_entry(draining));
                proof {
                    assert(entry_views(lines@) =~= seq![
                        info(received_text(signal)),
                        info(draining_text(self.drain as nat)),
                    ]);
                }
                RunAction::Drain(self.drain)
            },
            RunEvent::Drained => {
                self.stage = RunStage::Stopped;
                RunAction::Finish(info_entry("socket removed; server stopped".to_owned()))
            },
        };
        (lines, action)
    }
}

/// A socket that a live server owns is never removed and never bound.
pub proof fn law_live_socket_is_left_alone(
    before: ServerRun,
    after: ServerRun,
    lines: Seq<LogEntryModel>,
    action: RunAction,
)
    requires
        run_step(
            before,
            RunEvent::Probed { present: true, connectable: true },
            after,
            lines,
            action,
        ),
    ensures
        action is Fail,
        after.stage == RunStage::Stopped,
        forall|event: RunEvent| !run_accepts(after.stage, event),
{
}

/// The levels are ordered debug, info, warning, error, under these words, and
/// a server writes the lines of its own level and above.
pub proof fn law_levels_in_order()
    ensures
        LogLevel::Debug.rank() < LogLevel::Info.rank(),
        LogLevel::Info.rank() < LogLevel::Warning.rank(),
        LogLevel::Warning.rank() < LogLevel::Error.rank(),
        LogLevel::Debug.word() == "debug"@,
        LogLevel::Info.word() == "info"@,
        LogLevel::Warning.word() == "warning"@,
        LogLevel::Error.word() == "error"@,
{
}

/// A log line is the seconds in brackets, a blank, the message, a line feed.
pub proof fn law_log_line_is_stamped(secs: nat, message: Seq<char>)
    ensures
        stamped(secs, message) == seq!['['] + number::decimal(secs) + seq![']', ' '] + message
            + seq!['\n'],
{
    reveal_strlit("[");
    reveal_strlit("] ");
    reveal_strlit("\n");
    assert("["@ =~= seq!['[']);
    assert("] "@ =~= seq![']', ' ']);
    assert("\n"@ =~= seq!['\n']);
}

/// A run from its socket to its end. A stale socket file is removed before
/// the socket is bound, a path with nothing there is bound at once. A bound
/// server says so and serves; a signal makes it say which one and how long
/// it drains, and drain that long; after the drain it removes its socket and
/// ends well. What fails on the way ends the run with its cause.
pub proof fn law_run_from_socket_to_end(
    before: ServerRun,
    event: RunEvent,
    after: ServerRun,
    lines: Seq<LogEntryModel>,
    action: RunAction,
)
    requires
        run_accepts(before.stage, event),
        run_step(before, event, after, lines, action),
    ensures
        event == (RunEvent::Probed { present: true, connectable: false }) ==> action is Clear
            && after.stage == RunStage::Clearing && lines.len() == 0,
        event matches RunEvent::Probed { present: false, .. } ==> action is Bind && after.stage
            == RunStage::Binding && lines.len() == 0,
        event == (RunEvent::Probed { present: true, connectable: true }) ==> (action matches
            RunAction::Fail(message) && message@ == "socket `"@ + before.socket@
            + "` is owned by a live server"@),
        event == RunEvent::Cleared(Ok(())) ==> action is Bind && after.stage == RunStage::Binding,
        event matches RunEvent::Cleared(Err(cause)) ==> (action matches RunAction::Fail(message)
            && message@ == cause@) && after.stage == RunStage::Stopped,
        event == RunEvent::Bound(Ok(())) ==> action is Serve && after.stage == RunStage::Serving
            && lines.len() == 1 && lines[0].level == LogLevel::Info && lines[0].message
            == "server listening on socket `"@ + before.socket@ + "`"@,
        event matches RunEvent::Bound(Err(cause)) ==> (action matches RunAction::Fail(message)
            && message@ == cause@) && after.stage == RunStage::Stopped,
        event matches RunEvent::Signalled(signal) ==> action == RunAction::Drain(before.drain)
            && after.stage == RunStage::Draining && lines.len() == 2 && lines[0].level
            == LogLevel::Info && lines[1].level == LogLevel::Info && lines[0].message == (
        if signal == HostSignal::Interrupt {
            "SIGINT"@
        } else {
            "SIGTERM"@
        }) + " received; notifying live connections"@ && lines[1].message
            == "draining connections within "@ + number::decimal(before.drain as nat) + "s"@,
        event is Drained ==> (action matches RunAction::Finish(entry) && entry.level
            == LogLevel::Info && entry.message@ == "socket removed; server stopped"@)
            && after.stage == RunStage::Stopped,
        after.socket@ == before.socket@,
        after.drain == before.drain,
{
}

/// The line at startup names the socket and the process.
pub proof fn law_startup_line_names_socket_and_process(socket: Seq<char>, pid: nat)
    ensures
        starting_text(socket, pid) == "server starting on socket "@ + ("`"@ + socket + "`"@)
            + " (pid "@ + number::decimal(pid) + ")"@,
{
    reveal_strlit("server starting on socket `");
    reveal_strlit("server starting on socket ");
    reveal_strlit("` (pid ");
    reveal_strlit(" (pid ");
    reveal_strlit("`");
    assert(starting_text(socket, pid) =~= "server starting on socket "@ + ("`"@ + socket + "`"@)
        + " (pid "@ + number::decimal(pid) + ")"@);
}

} // verus!
