//! The control flows as decisions: what each command does next, given what
//! came of its last step. Asking the runtime, nix and the file system is the
//! caller's.

use vstd::prelude::*;
use vstd::utf8::encode_utf8;

use super::config::{below, paths_below, Cmd, Config, ConfigModel, FileTable};
use super::digest::{self, Freshness};
use super::error::CtlError;
use super::fs_error::FsError;
use super::nix;
use super::options;
use super::paths;
use super::runtime::{
    self, captured, launch_script, name_in_use, CommandOutput, RuntimeError, ServerArgs,
    ServerArgsModel, Verb,
};
use super::stamp::{self, StampError};
use crate::environment::Environment;
use crate::pathname::{self, join_spec, parent_spec};
use crate::text::{self, trimmed, views};

verus! {

/// How far a command is: the step whose outcome is awaited.
#[derive(Clone, Copy, Debug, PartialEq, Eq, Structural)]
pub enum Stage {
    /// The stamp is read.
    Stamp,
    /// The stamp's directory is created.
    StampDir,
    /// The stamp is written.
    StampWrite,
    /// Whether the container runs is asked, as the first half of liveness.
    Live,
    /// Whether the socket takes a connection is asked, as the second half.
    LiveSocket,
    /// Freshness is asked, by a command that evaluates.
    Fresh { live: bool },
    /// Freshness is asked again, before an evaluation.
    CacheCheck { live: bool },
    /// The cache dir is created.
    CacheDir { live: bool },
    /// The devshell is evaluated.
    CacheEval { live: bool },
    /// The env dump is written.
    CacheDump { live: bool },
    /// The profile's history is pruned.
    CacheWipe { live: bool },
    /// The digest is computed.
    CacheDigest { live: bool },
    /// The digest is stored.
    CacheStore { live: bool },
    /// The outdated container is stopped.
    InitStop,
    /// The env dump is looked for.
    Dump,
    /// The socket's directory is made.
    SocketDir,
    /// The log dir is made.
    LogDir,
    /// The mounts are looked at.
    Survey,
    /// Whether the container runs is asked, before the launch.
    Running,
    /// Whether a stopped container is left over is asked.
    Exists,
    /// A stopped container is removed.
    Clear,
    /// The container is launched, for the second time if `retry`.
    Launch { retry: bool },
    /// The name was taken: whether the container runs is asked.
    RaceRunning,
    /// The name was taken by a dead container, which is removed.
    RaceClear,
    /// The clock of the liveness wait is started.
    Clock,
    /// Whether the container runs is asked, after the launch.
    Ready,
    /// Whether the socket takes a connection is asked, after the launch.
    ReadySocket,
    /// Whether the wait is over is asked.
    Deadline,
    /// The wait pauses.
    Pause,
    /// The state is inspected, for the report.
    Inspect,
    /// The version is probed, as the last step.
    Probe,
    /// Whether there is something to stop is asked.
    StopRunning,
    /// The container is stopped.
    StopAsked,
    /// The stop failed: whether the container still runs is asked.
    StopRecheck,
    /// The container is stopped, before it is started anew.
    RestartStop,
    /// Whether the container runs is asked, for the report.
    StatusRunning,
    /// Whether the socket takes a connection is asked.
    StatusSocket { running: bool },
    /// The version is probed, in the middle of the report.
    StatusProbe { running: bool },
    /// Freshness is asked, for the report.
    StatusFresh { running: bool, connectable: bool },
    /// The report is printed.
    StatusPrint,
    /// Whether there is a container to enter is asked.
    EnterRunning,
    /// The interactive shell runs.
    EnterShell,
    /// The logs are listed.
    LogList,
    /// The pager runs.
    LogPage,
    /// Over.
    Over,
}

/// What came of a step. Causes come as their text.
pub enum Event {
    /// It is done.
    Done,
    /// It failed, and why.
    Failed(String),
    /// The answer to a question.
    Answer(bool),
    /// What the stamp says; `None` where there is none.
    Stamp(Option<String>),
    /// The freshness of the cache.
    Fresh(Freshness),
    /// What a runtime command printed, or why it could not be spawned.
    Ran(Result<CommandOutput, String>),
    /// Whether a command exited with 0, or why it could not be spawned.
    Exited(Result<bool, String>),
    /// What came of the evaluation, or why it could not be spawned.
    Evaluated(Result<nix::Evaluation, String>),
    /// The digest of the watched files.
    Digest(String),
    /// Whether the root's `.git` is a real directory, and what stands at the
    /// watched files.
    Surveyed { git_is_dir: bool, files: FileTable },
    /// The names in the log dir, none where it cannot be read.
    Listed(Vec<String>),
}

/// The next step.
pub enum Action {
    /// Read the stamp file.
    ReadStamp(String),
    /// Create a directory and those above it.
    CreateDir(String),
    /// Create a directory with mode 0700, unless it exists.
    EnsureDir(String),
    /// Write a text to the stamp file.
    WriteStamp { path: String, text: String },
    /// Ask whether the container runs.
    AskRunning,
    /// Ask whether a container of the name exists.
    AskExists,
    /// Ask whether the socket takes a connection.
    AskConnect,
    /// Ask whether this is a file.
    AskFile(String),
    /// Ask how fresh the cache is.
    AskFresh,
    /// Run nix with these arguments and capture what it prints.
    Evaluate(Vec<String>),
    /// Write the env dump to this file.
    WriteDump { path: String, bytes: Vec<u8> },
    /// Run nix with these arguments; a failure does not matter.
    WipeHistory(Vec<String>),
    /// Compute the digest of the watched files.
    ComputeDigest,
    /// Write the digest to this file.
    WriteDigest { path: String, text: String },
    /// Look whether the first is a real directory, and what stands at the
    /// others.
    Survey { git: String, watched: Vec<String> },
    /// Run the runtime with these arguments.
    Launch(Vec<String>),
    /// Stop the container.
    StopContainer,
    /// Remove the container.
    RemoveContainer,
    /// Inspect the container's state.
    InspectState,
    /// Let the wait end this many seconds from now.
    StartClock(u64),
    /// Ask whether the wait is over.
    AskDeadline,
    /// Pause for a tenth of a second.
    Sleep,
    /// Probe the server's version and print the warning, if any.
    ProbeVersion,
    /// Print these lines.
    Print(Vec<String>),
    /// Run the runtime with these arguments on the caller's terminal.
    Shell(Vec<String>),
    /// List this directory.
    ListDir(String),
    /// Run this program with these arguments on the caller's terminal.
    Page(String, Vec<String>),
    /// Stop, with the result.
    Finish(Result<(), CtlError>),
}

/// One command on its way.
pub struct Flow {
    pub cmd: Cmd,
    pub cfg: Config,
    pub env: Environment,
    pub stage: Stage,
    /// The launch options, once they are known.
    pub args: Vec<String>,
    /// The failure of a stop that may yet turn out well.
    pub fault: Option<RuntimeError>,
}

// ---------------------------------------------------------------------------
// What each step wants
// ---------------------------------------------------------------------------

/// The command evaluates the devshell where the cache is not fresh.
pub open spec fn evaluates(cmd: Cmd) -> bool {
    cmd == Cmd::Init || cmd == Cmd::Restart
}

/// The command is one of those whose course stands here.
pub open spec fn has_flow(cmd: Cmd) -> bool {
    match cmd {
        Cmd::Init | Cmd::Start | Cmd::Stop | Cmd::Restart | Cmd::Enter | Cmd::Status
            | Cmd::Log => true,
        Cmd::Clean | Cmd::ShowOptions | Cmd::SetupEnv => false,
    }
}

/// The arguments that launch the container.
pub open spec fn launch_argv(cfg: ConfigModel, extra: Seq<Seq<char>>) -> Seq<Seq<char>> {
    seq!["run"@, "-d"@, "--name"@, cfg.container] + extra + seq![
        "--"@,
        cfg.image,
        cfg.bash,
        "-c"@,
        launch_script(
            join_spec(cfg.cache_dir, "env"@),
            cfg.server,
            ServerArgsModel {
                socket: cfg.socket,
                log_dir: cfg.log_dir,
                timeout: cfg.timeout,
                log_level: cfg.log_level,
            },
        ),
    ]
}

/// The lines of a status report.
pub open spec fn status_lines(
    cfg: ConfigModel,
    running: bool,
    connectable: bool,
    freshness: Freshness,
) -> Seq<Seq<char>> {
    seq![
        if running {
            "container: running ("@ + cfg.container + ")"@
        } else {
            "container: not running"@
        },
        if connectable {
            "socket: connectable ("@ + cfg.socket + ")"@
        } else {
            "socket: unreachable ("@ + cfg.socket + ")"@
        },
        "cache: "@ + digest::freshness_word(freshness),
    ]
}

/// The command ends well.
pub open spec fn succeeds(stage: Stage, action: Action) -> bool {
    stage == Stage::Over && action == Action::Finish(Ok(()))
}

/// The command ends in this failure.
pub open spec fn fails(stage: Stage, action: Action, err: CtlError) -> bool {
    stage == Stage::Over && action == Action::Finish(Err(err))
}

/// The command ends in a failure.
pub open spec fn fails_somehow(stage: Stage, action: Action) -> bool {
    stage == Stage::Over && (action matches Action::Finish(r) && r is Err)
}

/// The failure that the command ends in.
pub open spec fn failure(action: Action) -> CtlError {
    action->Finish_0->Err_0
}

/// A directory could not be created.
pub open spec fn create_failed(err: CtlError, dir: Seq<char>, source: String) -> bool {
    err matches CtlError::Fs(FsError::CreateDir { dir: d, source: s }) && d@ == dir && s == source
}

/// A file could not be written.
pub open spec fn write_failed(err: CtlError, path: Seq<char>, source: String) -> bool {
    err matches CtlError::Fs(FsError::Write { path: p, source: s }) && p@ == path && s == source
}

/// The stamp passed: liveness comes next.
pub open spec fn goes_live(stage: Stage, action: Action) -> bool {
    stage == Stage::Live && action is AskRunning
}

/// Liveness is known: a command that evaluates goes on with the cache, any
/// other with the container.
pub open spec fn knows_live(flow: Flow, live: bool, stage: Stage, action: Action) -> bool {
    if evaluates(flow.cmd) {
        stage == (Stage::Fresh { live }) && action is AskFresh
    } else if live {
        goes_up(flow.cmd, stage, action)
    } else {
        goes_launch(flow.cfg@, stage, action)
    }
}

/// The mounts are looked at next.
pub open spec fn goes_survey(cfg: ConfigModel, stage: Stage, action: Action) -> bool {
    stage == Stage::Survey && (action matches Action::Survey { git, watched } && git@ == join_spec(
        cfg.root,
        ".git"@,
    ) && views(watched@) == below(cfg.root, cfg.watch_files))
}

/// The launch begins: without an env dump the container could not source it.
pub open spec fn goes_launch(cfg: ConfigModel, stage: Stage, action: Action) -> bool {
    stage == Stage::Dump && (action matches Action::AskFile(path) && path@ == join_spec(
        cfg.cache_dir,
        "env"@,
    ))
}

/// The cache is fresh: an outdated container is stopped first, then the
/// launch begins.
pub open spec fn goes_on_cached(
    cfg: ConfigModel,
    live: bool,
    stage: Stage,
    action: Action,
) -> bool {
    if live {
        stage == Stage::InitStop && action is StopContainer
    } else {
        goes_launch(cfg, stage, action)
    }
}

/// The log dir is made next.
pub open spec fn goes_log_dir(cfg: ConfigModel, stage: Stage, action: Action) -> bool {
    stage == Stage::LogDir && (action matches Action::CreateDir(dir) && dir@ == cfg.log_dir)
}

/// The container is launched with the given options.
pub open spec fn goes_run(
    cfg: ConfigModel,
    extra: Seq<Seq<char>>,
    retry: bool,
    stage: Stage,
    action: Action,
) -> bool {
    stage == (Stage::Launch { retry }) && (action matches Action::Launch(argv) && views(argv@)
        == launch_argv(cfg, extra))
}

/// The wait for liveness begins.
pub open spec fn goes_wait(cfg: ConfigModel, stage: Stage, action: Action) -> bool {
    stage == Stage::Clock && action == Action::StartClock(cfg.timeout)
}

/// The container is up: `start` probes the version, `init` does not.
pub open spec fn goes_up(cmd: Cmd, stage: Stage, action: Action) -> bool {
    if cmd == Cmd::Start {
        stage == Stage::Probe && action is ProbeVersion
    } else {
        succeeds(stage, action)
    }
}

/// What the stage relies on is there.
pub open spec fn ready(flow: Flow) -> bool {
    match flow.stage {
        Stage::StampDir => parent_spec(join_spec(flow.cfg@.cache_dir, "project"@)) is Some,
        Stage::SocketDir => parent_spec(flow.cfg@.socket) is Some,
        Stage::StopRecheck => flow.fault is Some,
        _ => true,
    }
}

/// The event is an outcome that the awaited step can have.
pub open spec fn accepts(stage: Stage, event: Event) -> bool {
    match stage {
        Stage::Stamp => event is Stamp || event is Failed,
        Stage::StampDir | Stage::StampWrite | Stage::CacheDir { .. } | Stage::CacheDump { .. }
            | Stage::CacheStore { .. } | Stage::SocketDir | Stage::LogDir => event is Done || event
            is Failed,
        Stage::CacheWipe { .. } | Stage::Clock | Stage::Pause | Stage::Probe | Stage::StatusProbe {
            ..
        } | Stage::StatusPrint => event is Done,
        Stage::Live | Stage::LiveSocket | Stage::Dump | Stage::Running | Stage::Exists
            | Stage::RaceRunning | Stage::Ready | Stage::ReadySocket | Stage::Deadline | Stage::StopRunning | Stage::StopRecheck
            | Stage::StatusRunning | Stage::StatusSocket { .. } | Stage::EnterRunning => event
            is Answer,
        Stage::Fresh { .. } | Stage::CacheCheck { .. } | Stage::StatusFresh { .. } => event
            is Fresh,
        Stage::InitStop | Stage::Clear | Stage::Launch { .. } | Stage::RaceClear | Stage::Inspect
            | Stage::StopAsked | Stage::RestartStop => event is Ran,
        Stage::CacheEval { .. } => event is Evaluated,
        Stage::CacheDigest { .. } => event is Digest || event is Failed,
        Stage::EnterShell | Stage::LogPage => event is Exited,
        Stage::Survey => event is Surveyed,
        Stage::LogList => event is Listed,
        Stage::Over => false,
    }
}

/// What the stamp comes to.
pub open spec fn stamp_step(flow: Flow, event: Event, stage: Stage, action: Action) -> bool {
    let cfg = flow.cfg@;
    let path = join_spec(cfg.cache_dir, "project"@);
    match event {
        Event::Stamp(Some(existing)) => if stamp::admits(existing@, cfg.root) {
            goes_live(stage, action)
        } else {
            fails_somehow(stage, action) && (failure(action) matches CtlError::Stamp(
                StampError::AlreadyClaimed { project, existing: e },
            ) && project@ == cfg.project && e@ == text::trim_newlines(existing@))
        },
        // First claim.
        Event::Stamp(None) => match parent_spec(path) {
            Some(dir) => stage == Stage::StampDir && (action matches Action::CreateDir(d) && d@
                == dir),
            None => writes_stamp(cfg, stage, action),
        },
        Event::Failed(source) => fails_somehow(stage, action) && (failure(action) matches
            CtlError::Stamp(StampError::Fs(FsError::Read { path: p, source: s })) && p@ == path && s
            == source),
        _ => false,
    }
}

/// The root is written to the stamp.
pub open spec fn writes_stamp(cfg: ConfigModel, stage: Stage, action: Action) -> bool {
    stage == Stage::StampWrite && (action matches Action::WriteStamp { path, text } && path@
        == join_spec(cfg.cache_dir, "project"@) && text@ == cfg.root)
}

/// What the making of the cache comes to.
pub open spec fn cache_step(
    flow: Flow,
    live: bool,
    event: Event,
    stage: Stage,
    action: Action,
) -> bool {
    let cfg = flow.cfg@;
    let profile = join_spec(cfg.cache_dir, "profile"@);
    match (flow.stage, event) {
        (Stage::CacheCheck { .. }, Event::Fresh(freshness)) => if freshness == Freshness::Fresh {
            goes_on_cached(cfg, live, stage, action)
        } else {
            stage == (Stage::CacheDir { live }) && (action matches Action::CreateDir(dir) && dir@
                == cfg.cache_dir)
        },
        (Stage::CacheDir { .. }, Event::Done) => stage == (Stage::CacheEval { live }) && (action
            matches Action::Evaluate(args) && views(args@) == seq![
            "print-dev-env"@,
            "--profile"@,
            profile,
            cfg.devshell,
        ]),
        (Stage::CacheDir { .. }, Event::Failed(source)) => fails_somehow(stage, action)
            && create_failed(failure(action), cfg.cache_dir, source),
        (Stage::CacheEval { .. }, Event::Evaluated(outcome)) => match outcome {
            Ok(evaluation) => if evaluation.success {
                stage == (Stage::CacheDump { live }) && (action matches Action::WriteDump {
                    path,
                    bytes,
                } && path@ == join_spec(cfg.cache_dir, "env"@) && bytes == evaluation.stdout)
            } else {
                fails_somehow(stage, action) && (failure(action) matches CtlError::PrintDevEnv(
                    nix::PrintDevEnvError::Failed { devshell },
                ) && devshell@ == cfg.devshell)
            },
            Err(source) => fails(
                stage,
                action,
                CtlError::PrintDevEnv(nix::PrintDevEnvError::Spawn { source }),
            ),
        },
        (Stage::CacheDump { .. }, Event::Done) => stage == (Stage::CacheWipe { live }) && (action
            matches Action::WipeHistory(args) && views(args@) == seq![
            "profile"@,
            "wipe-history"@,
            "--profile"@,
            profile,
        ]),
        (Stage::CacheDump { .. }, Event::Failed(source)) => fails_somehow(stage, action)
            && write_failed(failure(action), join_spec(cfg.cache_dir, "env"@), source),
        (Stage::CacheWipe { .. }, Event::Done) => stage == (Stage::CacheDigest { live }) && action
            is ComputeDigest,
        (Stage::CacheDigest { .. }, Event::Digest(digest)) => stage == (Stage::CacheStore { live })
            && (action matches Action::WriteDigest { path, text } && path@ == join_spec(
            cfg.cache_dir,
            "hash"@,
        ) && text == digest),
        (Stage::CacheDigest { .. }, Event::Failed(source)) => fails(
            stage,
            action,
            CtlError::Digest { source },
        ),
        (Stage::CacheStore { .. }, Event::Done) => goes_on_cached(cfg, live, stage, action),
        (Stage::CacheStore { .. }, Event::Failed(source)) => fails_somehow(stage, action)
            && write_failed(failure(action), join_spec(cfg.cache_dir, "hash"@), source),
        _ => false,
    }
}

/// What a step of the launch comes to. `args` are the launch options after
/// it.
pub open spec fn launch_step(
    flow: Flow,
    event: Event,
    stage: Stage,
    args: Seq<Seq<char>>,
    action: Action,
) -> bool {
    let cfg = flow.cfg@;
    match (flow.stage, event) {
        (Stage::Dump, Event::Answer(there)) => if !there {
            fails_somehow(stage, action) && (failure(action) matches CtlError::NoCachedEnv {
                dir,
            } && dir@ == cfg.cache_dir)
        } else {
            match parent_spec(cfg.socket) {
                Some(dir) => stage == Stage::SocketDir && (action matches Action::EnsureDir(d)
                    && d@ == dir),
                None => goes_log_dir(cfg, stage, action),
            }
        },
        (Stage::SocketDir, Event::Done) => goes_log_dir(cfg, stage, action),
        (Stage::SocketDir, Event::Failed(source)) => fails_somehow(stage, action) && create_failed(
            failure(action),
            parent_spec(cfg.socket)->0,
            source,
        ),
        (Stage::LogDir, Event::Done) => goes_survey(cfg, stage, action),
        (Stage::LogDir, Event::Failed(source)) => fails_somehow(stage, action) && create_failed(
            failure(action),
            cfg.log_dir,
            source,
        ),
        // Expansion errors are fatal before the runtime is ever invoked.
        (Stage::Survey, Event::Surveyed { git_is_dir, files }) => match (
            parent_spec(cfg.socket),
            options::expanded_options(cfg.run_opts, flow.env@),
        ) {
            (None, _) => fails_somehow(stage, action) && (failure(action) matches
                CtlError::SocketNoParent { socket } && socket@ == cfg.socket),
            (Some(_), Err(name)) => fails_somehow(stage, action) && (failure(action) matches
                CtlError::UnsetVar { name: n } && n@ == name),
            (Some(dir), Ok(opts)) => stage == Stage::Running && action is AskRunning && args
                == options::base_options(cfg, dir, git_is_dir, files) + opts,
        },
        (Stage::Running, Event::Answer(running)) => if running {
            goes_run(cfg, args, false, stage, action)
        } else {
            stage == Stage::Exists && action is AskExists
        },
        (Stage::Exists, Event::Answer(there)) => if there {
            stage == Stage::Clear && action is RemoveContainer
        } else {
            goes_run(cfg, args, false, stage, action)
        },
        (Stage::Clear, Event::Ran(_)) => goes_run(cfg, args, false, stage, action),
        (Stage::Launch { retry }, Event::Ran(Err(source))) => fails_somehow(stage, action) && (
        failure(action) matches CtlError::Runtime(RuntimeError::Spawn { bin, verb, source: s })
            && bin@ == cfg.runtime && verb == Verb::Run && s == source),
        (Stage::Launch { retry }, Event::Ran(Ok(out))) => if out.success {
            goes_wait(cfg, stage, action)
        } else if !retry && name_in_use(captured(out)) {
            // A start that ran at the same time took the name.
            stage == Stage::RaceRunning && action is AskRunning
        } else {
            fails_somehow(stage, action) && (failure(action) matches CtlError::Runtime(
                RuntimeError::Failed { bin, verb, output },
            ) && bin@ == cfg.runtime && verb == Verb::Run && output@ == captured(out))
        },
        (Stage::RaceRunning, Event::Answer(running)) => if running {
            goes_up(flow.cmd, stage, action)
        } else {
            stage == Stage::RaceClear && action is RemoveContainer
        },
        (Stage::RaceClear, Event::Ran(_)) => goes_run(cfg, args, true, stage, action),
        (Stage::Clock, Event::Done) => stage == Stage::Ready && action is AskRunning,
        (Stage::Ready, Event::Answer(running)) => if running {
            stage == Stage::ReadySocket && action is AskConnect
        } else {
            stage == Stage::Deadline && action is AskDeadline
        },
        (Stage::ReadySocket, Event::Answer(connectable)) => if connectable {
            goes_up(flow.cmd, stage, action)
        } else {
            stage == Stage::Deadline && action is AskDeadline
        },
        (Stage::Deadline, Event::Answer(over)) => if over {
            stage == Stage::Inspect && action is InspectState
        } else {
            stage == Stage::Pause && action is Sleep
        },
        (Stage::Pause, Event::Done) => stage == Stage::Ready && action is AskRunning,
        (Stage::Inspect, Event::Ran(output)) => fails_somehow(stage, action) && (failure(action)
            matches CtlError::Runtime(RuntimeError::NotLive { container, timeout, state })
            && container@ == cfg.container && timeout == cfg.timeout && state@ == match output {
            Ok(o) => if o.success {
                trimmed(o.stdout@)
            } else {
                trimmed(o.stderr@)
            },
            Err(source) => source@,
        }),
        _ => false,
    }
}

/// What a step of `stop` comes to.
pub open spec fn stop_step(
    flow: Flow,
    event: Event,
    stage: Stage,
    fault: Option<RuntimeError>,
    action: Action,
) -> bool {
    match (flow.stage, event) {
        (Stage::StopRunning, Event::Answer(running)) => if running {
            stage == Stage::StopAsked && action is StopContainer
        } else {
            succeeds(stage, action)
        },
        (Stage::StopAsked, Event::Ran(output)) => match output {
            Ok(out) => if out.success {
                succeeds(stage, action)
            } else {
                stage == Stage::StopRecheck && action is AskRunning && (fault matches Some(
                    RuntimeError::Failed { bin, verb, output },
                ) && bin@ == flow.cfg.runtime@ && verb == Verb::Stop && output@ == captured(out))
            },
            Err(source) => stage == Stage::StopRecheck && action is AskRunning && (fault matches
                Some(RuntimeError::Spawn { bin, verb, source: s }) && bin@ == flow.cfg.runtime@
                && verb == Verb::Stop && s == source),
        },
        // A stop that failed on a container that is down all the same has
        // done its work.
        (Stage::StopRecheck, Event::Answer(running)) => if running {
            fails(stage, action, CtlError::Runtime(flow.fault->0))
        } else {
            succeeds(stage, action)
        },
        _ => false,
    }
}

/// What a step of `status`, `enter` or `log` comes to.
pub open spec fn report_step(flow: Flow, event: Event, stage: Stage, action: Action) -> bool {
    let cfg = flow.cfg@;
    match (flow.stage, event) {
        (Stage::StatusRunning, Event::Answer(running)) => stage == (Stage::StatusSocket { running })
            && action is AskConnect,
        (Stage::StatusSocket { running }, Event::Answer(connectable)) => if connectable {
            stage == (Stage::StatusProbe { running }) && action is ProbeVersion
        } else {
            stage == (Stage::StatusFresh { running, connectable: false }) && action is AskFresh
        },
        (Stage::StatusProbe { running }, Event::Done) => stage == (Stage::StatusFresh {
            running,
            connectable: true,
        }) && action is AskFresh,
        (Stage::StatusFresh { running, connectable }, Event::Fresh(freshness)) => stage
            == Stage::StatusPrint && (action matches Action::Print(lines) && views(lines@)
            == status_lines(cfg, running, connectable, freshness)),
        (Stage::StatusPrint, Event::Done) => succeeds(stage, action),
        (Stage::EnterRunning, Event::Answer(running)) => if running {
            stage == Stage::EnterShell && (action matches Action::Shell(args) && views(args@)
                == seq![
                "exec"@,
                "-it"@,
                cfg.container,
                cfg.bash,
                "-c"@,
                runtime::enter_script(join_spec(cfg.cache_dir, "env"@), cfg.bash),
            ])
        } else {
            fails_somehow(stage, action) && (failure(action) matches CtlError::NotRunning {
                container,
            } && container@ == cfg.container)
        },
        (Stage::EnterShell, Event::Exited(status)) => match status {
            Ok(true) => succeeds(stage, action),
            Ok(false) => fails_somehow(stage, action) && (failure(action) matches
                CtlError::Runtime(RuntimeError::ExecFailed { bin }) && bin@ == cfg.runtime),
            Err(source) => fails_somehow(stage, action) && (failure(action) matches
                CtlError::Runtime(RuntimeError::Spawn { bin, verb, source: s }) && bin@
                == cfg.runtime && verb == Verb::Exec && s == source),
        },
        (Stage::LogList, Event::Listed(names)) => if exists|i: int|
            paths::is_newest(views(names@), i) {
            let i = choose|i: int| paths::is_newest(views(names@), i);
            let line = options::pager_words(pager_of(flow));
            stage == Stage::LogPage && (action matches Action::Page(prog, args) && seq![prog@]
                + views(args@) == line.push(join_spec(cfg.log_dir, views(names@)[i])))
        } else {
            fails_somehow(stage, action) && (failure(action) matches CtlError::NoLog { dir } && dir@
                == cfg.log_dir)
        },
        (Stage::LogPage, Event::Exited(status)) => match status {
            Ok(true) => succeeds(stage, action),
            Ok(false) => fails_somehow(stage, action) && (failure(action) matches
                CtlError::PagerFailed { prog } && prog@ == options::pager_words(
                pager_of(flow),
            )[0]),
            Err(source) => fails_somehow(stage, action) && (failure(action) matches
                CtlError::PagerSpawn { prog, source: s } && prog@ == options::pager_words(
                pager_of(flow),
            )[0] && s == source),
        },
        _ => false,
    }
}

/// The value of `PAGER`.
pub open spec fn pager_of(flow: Flow) -> Option<Seq<char>> {
    if flow.env@.contains_key("PAGER"@) {
        Some(flow.env@["PAGER"@])
    } else {
        None
    }
}

/// What a command does about the outcome of its last step.
pub open spec fn flow_step(before: Flow, event: Event, after: Flow, action: Action) -> bool {
    let stage = after.stage;
    &&& after.cmd == before.cmd
    &&& after.cfg == before.cfg
    &&& after.env == before.env
    &&& before.stage != Stage::Survey ==> after.args == before.args
    &&& match before.stage {
        Stage::Stamp => stamp_step(before, event, stage, action),
        Stage::StampDir => match event {
            Event::Failed(source) => fails_somehow(stage, action) && (failure(action) matches
                CtlError::Stamp(StampError::Fs(FsError::CreateDir { dir, source: s })) && Some(dir@)
                == parent_spec(join_spec(before.cfg@.cache_dir, "project"@)) && s == source),
            _ => writes_stamp(before.cfg@, stage, action),
        },
        Stage::StampWrite => match event {
            Event::Failed(source) => fails_somehow(stage, action) && (failure(action) matches
                CtlError::Stamp(StampError::Fs(FsError::Write { path, source: s })) && path@
                == join_spec(before.cfg@.cache_dir, "project"@) && s == source),
            _ => goes_live(stage, action),
        },
        // Running alone is not live.
        Stage::Live => if event->Answer_0 {
            stage == Stage::LiveSocket && action is AskConnect
        } else {
            knows_live(before, false, stage, action)
        },
        Stage::LiveSocket => knows_live(before, event->Answer_0, stage, action),
        // Live and fresh: nothing to do.
        Stage::Fresh { live } => if live && event->Fresh_0 == Freshness::Fresh {
            succeeds(stage, action)
        } else {
            stage == (Stage::CacheCheck { live }) && action is AskFresh
        },
        Stage::CacheCheck { live } | Stage::CacheDir { live } | Stage::CacheEval { live }
            | Stage::CacheDump { live } | Stage::CacheWipe { live } | Stage::CacheDigest { live }
            | Stage::CacheStore { live } => cache_step(before, live, event, stage, action),
        // A stop that fails here does not matter.
        Stage::InitStop => goes_launch(before.cfg@, stage, action),
        Stage::Probe => succeeds(stage, action),
        Stage::StopRunning | Stage::StopAsked | Stage::StopRecheck => stop_step(
            before,
            event,
            stage,
            after.fault,
            action,
        ),
        Stage::RestartStop => reads_stamp(before.cfg@, stage, action),
        Stage::StatusRunning | Stage::StatusSocket { .. } | Stage::StatusProbe { .. }
            | Stage::StatusFresh { .. } | Stage::StatusPrint | Stage::EnterRunning
            | Stage::EnterShell | Stage::LogList | Stage::LogPage => report_step(
            before,
            event,
            stage,
            action,
        ),
        _ => launch_step(before, event, stage, views(after.args@), action),
    }
}

/// The stamp is read.
pub open spec fn reads_stamp(cfg: ConfigModel, stage: Stage, action: Action) -> bool {
    stage == Stage::Stamp && (action matches Action::ReadStamp(path) && path@ == join_spec(
        cfg.cache_dir,
        "project"@,
    ))
}

/// How a command begins.
pub open spec fn begins(cmd: Cmd, cfg: ConfigModel, stage: Stage, action: Action) -> bool {
    match cmd {
        Cmd::Init | Cmd::Start => reads_stamp(cfg, stage, action),
        Cmd::Stop => stage == Stage::StopRunning && action is AskRunning,
        Cmd::Restart => stage == Stage::RestartStop && action is StopContainer,
        Cmd::Status => stage == Stage::StatusRunning && action is AskRunning,
        Cmd::Enter => stage == Stage::EnterRunning && action is AskRunning,
        Cmd::Log => stage == Stage::LogList && (action matches Action::ListDir(dir) && dir@
            == cfg.log_dir),
        Cmd::Clean | Cmd::ShowOptions | Cmd::SetupEnv => false,
    }
}

// ---------------------------------------------------------------------------
// The steps
// ---------------------------------------------------------------------------

impl Flow {
    /// A command at its first step.
    pub fn begin(cmd: Cmd, cfg: Config, env: Environment) -> (r: (Self, Action))
        requires
            has_flow(cmd),
        ensures
            r.0.cmd == cmd,
            r.0.cfg == cfg,
            r.0.env == env,
            begins(cmd, cfg@, r.0.stage, r.1),
            ready(r.0),
    {
        let stage = match cmd {
            Cmd::Init | Cmd::Start => Stage::Stamp,
            Cmd::Stop => Stage::StopRunning,
            Cmd::Restart => Stage::RestartStop,
            Cmd::Status => Stage::StatusRunning,
            Cmd::Enter => Stage::EnterRunning,
            _ => Stage::LogList,
        };
        let action = match cmd {
            Cmd::Init | Cmd::Start => Action::ReadStamp(
                paths::project_stamp_file(cfg.cache_dir.as_str()),
            ),
            Cmd::Stop | Cmd::Status | Cmd::Enter => Action::AskRunning,
            Cmd::Restart => Action::StopContainer,
            _ => Action::ListDir(cfg.log_dir.clone()),
        };
        let args: Vec<String> = Vec::new();
        (Flow { cmd, cfg, env, stage, args, fault: None }, action)
    }

    /// Take in the outcome of the last step and say what to do next.
    pub fn step(&mut self, event: Event) -> (action: Action)
        requires
            ready(*old(self)),
            accepts(old(self).stage, event),
        ensures
            flow_step(*old(self), event, *final(self), action),
            ready(*final(self)),
    {
        match self.stage {
            Stage::Stamp => self.stamp(event),
            Stage::StampDir => match event {
                Event::Failed(source) => {
                    let path = paths::project_stamp_file(self.cfg.cache_dir.as_str());
                    match pathname::parent(path.as_str()) {
                        Some(dir) => self.fail(
                            CtlError::Stamp(StampError::Fs(FsError::CreateDir { dir, source })),
                        ),
                        None => self.write_stamp(),
                    }
                },
                _ => self.write_stamp(),
            },
            Stage::StampWrite => match event {
                Event::Failed(source) => {
                    let path = paths::project_stamp_file(self.cfg.cache_dir.as_str());
                    self.fail(CtlError::Stamp(StampError::Fs(FsError::Write { path, source })))
                },
                _ => self.go(Stage::Live, Action::AskRunning),
            },
            Stage::Live => match event {
                Event::Answer(true) => self.go(Stage::LiveSocket, Action::AskConnect),
                _ => self.live(false),
            },
            Stage::LiveSocket => match event {
                Event::Answer(live) => self.live(live),
                _ => self.live(false),
            },
            Stage::Fresh { live } => match event {
                Event::Fresh(Freshness::Fresh) if live => self.succeed(),
                _ => self.go(Stage::CacheCheck { live }, Action::AskFresh),
            },
            Stage::CacheCheck { live } | Stage::CacheDir { live } | Stage::CacheEval { live }
                | Stage::CacheDump { live } | Stage::CacheWipe { live } | Stage::CacheDigest {
                live,
            } | Stage::CacheStore { live } => self.ensure_cache(live, event),
            Stage::InitStop => self.launch(),
            Stage::Probe => self.succeed(),
            Stage::StopRunning | Stage::StopAsked | Stage::StopRecheck => self.stop(event),
            Stage::RestartStop => {
                let path = paths::project_stamp_file(self.cfg.cache_dir.as_str());
                self.go(Stage::Stamp, Action::ReadStamp(path))
            },
            Stage::StatusRunning | Stage::StatusSocket { .. } | Stage::StatusProbe { .. }
                | Stage::StatusFresh { .. } | Stage::StatusPrint => self.status(event),
            Stage::EnterRunning | Stage::EnterShell => self.enter(event),
            Stage::LogList | Stage::LogPage => self.log(event),
            _ => self.start_inner(event),
        }
    }

    /// Nothing but the stage changes.
    pub open spec fn moved(self, before: Flow) -> bool {
        &&& self.cmd == before.cmd
        &&& self.cfg == before.cfg
        &&& self.env == before.env
        &&& self.args == before.args
        &&& self.fault == before.fault
    }

    fn go(&mut self, stage: Stage, next: Action) -> (action: Action)
        ensures
            final(self).moved(*old(self)),
            final(self).stage == stage,
            action == next,
    {
        self.stage = stage;
        next
    }

    fn succeed(&mut self) -> (action: Action)
        ensures
            final(self).moved(*old(self)),
            succeeds(final(self).stage, action),
    {
        self.go(Stage::Over, Action::Finish(Ok(())))
    }

    fn fail(&mut self, err: CtlError) -> (action: Action)
        ensures
            final(self).moved(*old(self)),
            fails(final(self).stage, action, err),
    {
        self.go(Stage::Over, Action::Finish(Err(err)))
    }

    /// The stamp guard: absent means a first claim, which is written; a
    /// different root is a hard error, the same root passes.
    fn stamp(&mut self, event: Event) -> (action: Action)
        requires
            old(self).stage == Stage::Stamp,
            ready(*old(self)),
            accepts(old(self).stage, event),
        ensures
            flow_step(*old(self), event, *final(self), action),
    {
        let path = paths::project_stamp_file(self.cfg.cache_dir.as_str());
        match event {
            Event::Stamp(Some(existing)) => {
                match stamp::judge(
                    existing.as_str(),
                    self.cfg.project.as_str(),
                    self.cfg.root.as_str(),
                ) {
                    Ok(_) => self.go(Stage::Live, Action::AskRunning),
                    Err(err) => self.fail(CtlError::Stamp(err)),
                }
            },
            Event::Failed(source) => self.fail(
                CtlError::Stamp(StampError::Fs(FsError::Read { path, source })),
            ),
            _ => match pathname::parent(path.as_str()) {
                Some(dir) => self.go(Stage::StampDir, Action::CreateDir(dir)),
                None => self.write_stamp(),
            },
        }
    }

    fn write_stamp(&mut self) -> (action: Action)
        ensures
            final(self).moved(*old(self)),
            writes_stamp(old(self).cfg@, final(self).stage, action),
    {
        let path = paths::project_stamp_file(self.cfg.cache_dir.as_str());
        let text = self.cfg.root.clone();
        self.go(Stage::StampWrite, Action::WriteStamp { path, text })
    }

    /// Liveness is known.
    fn live(&mut self, live: bool) -> (action: Action)
        ensures
            final(self).moved(*old(self)),
            knows_live(*old(self), live, final(self).stage, action),
    {
        if self.cmd == Cmd::Init || self.cmd == Cmd::Restart {
            self.go(Stage::Fresh { live }, Action::AskFresh)
        } else if live {
            self.up()
        } else {
            self.launch()
        }
    }

    /// The container is up: the probe where the command has one.
    fn up(&mut self) -> (action: Action)
        ensures
            final(self).moved(*old(self)),
            goes_up(old(self).cmd, final(self).stage, action),
    {
        if self.cmd == Cmd::Start {
            self.go(Stage::Probe, Action::ProbeVersion)
        } else {
            self.succeed()
        }
    }

    /// The launch begins with a look at the env dump.
    fn launch(&mut self) -> (action: Action)
        ensures
            final(self).moved(*old(self)),
            goes_launch(old(self).cfg@, final(self).stage, action),
    {
        let path = paths::env_file(self.cfg.cache_dir.as_str());
        self.go(Stage::Dump, Action::AskFile(path))
    }

    /// The cache is fresh.
    fn cached(&mut self, live: bool) -> (action: Action)
        ensures
            final(self).moved(*old(self)),
            goes_on_cached(old(self).cfg@, live, final(self).stage, action),
    {
        if live {
            self.go(Stage::InitStop, Action::StopContainer)
        } else {
            self.launch()
        }
    }

    fn create_failed(&mut self, dir: String, source: String) -> (action: Action)
        ensures
            final(self).moved(*old(self)),
            fails_somehow(final(self).stage, action),
            create_failed(failure(action), dir@, source),
    {
        self.fail(CtlError::Fs(FsError::CreateDir { dir, source }))
    }

    fn write_failed(&mut self, path: String, source: String) -> (action: Action)
        ensures
            final(self).moved(*old(self)),
            fails_somehow(final(self).stage, action),
            write_failed(failure(action), path@, source),
    {
        self.fail(CtlError::Fs(FsError::Write { path, source }))
    }

    /// Evaluate the devshell into the cache, unless it turns out fresh.
    fn ensure_cache(&mut self, live: bool, event: Event) -> (action: Action)
        requires
            ready(*old(self)),
            accepts(old(self).stage, event),
            match old(self).stage {
                Stage::CacheCheck { live: l } | Stage::CacheDir { live: l } | Stage::CacheEval {
                    live: l,
                } | Stage::CacheDump { live: l } | Stage::CacheWipe { live: l }
                    | Stage::CacheDigest { live: l } | Stage::CacheStore { live: l } => l == live,
                _ => false,
            },
        ensures
            flow_step(*old(self), event, *final(self), action),
    {
        let profile = paths::profile_file(self.cfg.cache_dir.as_str());
        match (self.stage, event) {
            (Stage::CacheCheck { .. }, Event::Fresh(Freshness::Fresh)) => self.cached(live),
            (Stage::CacheCheck { .. }, _) => {
                let dir = self.cfg.cache_dir.clone();
                self.go(Stage::CacheDir { live }, Action::CreateDir(dir))
            },
            (Stage::CacheDir { .. }, Event::Failed(source)) => {
                let dir = self.cfg.cache_dir.clone();
                self.create_failed(dir, source)
            },
            (Stage::CacheDir { .. }, _) => {
                let args = nix::print_dev_env_args(profile.as_str(), self.cfg.devshell.as_str());
                self.go(Stage::CacheEval { live }, Action::Evaluate(args))
            },
            (Stage::CacheEval { .. }, Event::Evaluated(outcome)) => {
                match nix::evaluated(outcome, self.cfg.devshell.as_str()) {
                    Ok(bytes) => {
                        let path = paths::env_file(self.cfg.cache_dir.as_str());
                        self.go(Stage::CacheDump { live }, Action::WriteDump { path, bytes })
                    },
                    Err(err) => self.fail(CtlError::PrintDevEnv(err)),
                }
            },
            (Stage::CacheDump { .. }, Event::Failed(source)) => {
                let path = paths::env_file(self.cfg.cache_dir.as_str());
                self.write_failed(path, source)
            },
            (Stage::CacheDump { .. }, _) => {
                let args = nix::wipe_history_args(profile.as_str());
                self.go(Stage::CacheWipe { live }, Action::WipeHistory(args))
            },
            (Stage::CacheWipe { .. }, _) => self.go(
                Stage::CacheDigest { live },
                Action::ComputeDigest,
            ),
            (Stage::CacheDigest { .. }, Event::Failed(source)) => self.fail(
                CtlError::Digest { source },
            ),
            (Stage::CacheDigest { .. }, Event::Digest(text)) => {
                let path = paths::hash_file(self.cfg.cache_dir.as_str());
                self.go(Stage::CacheStore { live }, Action::WriteDigest { path, text })
            },
            (Stage::CacheStore { .. }, Event::Failed(source)) => {
                let path = paths::hash_file(self.cfg.cache_dir.as_str());
                self.write_failed(path, source)
            },
            _ => self.cached(live),
        }
    }

    /// The launch itself, with the options that were assembled for it.
    fn run(&mut self, retry: bool) -> (action: Action)
        ensures
            final(self).moved(*old(self)),
            goes_run(old(self).cfg@, views(old(self).args@), retry, final(self).stage, action),
    {
        let rt = self.cfg.runtime();
        let server_args = ServerArgs {
            socket: self.cfg.socket.clone(),
            log_dir: self.cfg.log_dir.clone(),
            timeout: self.cfg.timeout,
            log_level: self.cfg.log_level,
        };
        let env_file = paths::env_file(self.cfg.cache_dir.as_str());
        let argv = rt.run_detached_args(
            self.cfg.image.as_str(),
            env_file.as_str(),
            self.cfg.server.as_str(),
            &server_args,
            &self.args,
        );
        self.go(Stage::Launch { retry }, Action::Launch(argv))
    }

    fn survey(&mut self) -> (action: Action)
        ensures
            final(self).moved(*old(self)),
            goes_survey(old(self).cfg@, final(self).stage, action),
    {
        let git = pathname::join(self.cfg.root.as_str(), ".git");
        let watched = paths_below(self.cfg.root.as_str(), &self.cfg.watch_files);
        self.go(Stage::Survey, Action::Survey { git, watched })
    }

    fn make_log_dir(&mut self) -> (action: Action)
        ensures
            final(self).moved(*old(self)),
            goes_log_dir(old(self).cfg@, final(self).stage, action),
    {
        let dir = self.cfg.log_dir.clone();
        self.go(Stage::LogDir, Action::CreateDir(dir))
    }

    /// Launch the container and wait until it is live.
    fn start_inner(&mut self, event: Event) -> (action: Action)
        requires
            ready(*old(self)),
            accepts(old(self).stage, event),
            match old(self).stage {
                Stage::Dump | Stage::SocketDir | Stage::LogDir | Stage::Survey | Stage::Running
                    | Stage::Exists | Stage::Clear | Stage::Launch { .. } | Stage::RaceRunning
                    | Stage::RaceClear | Stage::Clock | Stage::Ready | Stage::ReadySocket
                    | Stage::Deadline | Stage::Pause | Stage::Inspect => true,
                _ => false,
            },
        ensures
            flow_step(*old(self), event, *final(self), action),
    {
        match (self.stage, event) {
            (Stage::Dump, Event::Answer(true)) => match pathname::parent(
                self.cfg.socket.as_str(),
            ) {
                Some(dir) => self.go(Stage::SocketDir, Action::EnsureDir(dir)),
                None => self.make_log_dir(),
            },
            (Stage::Dump, _) => {
                let dir = self.cfg.cache_dir.clone();
                self.fail(CtlError::NoCachedEnv { dir })
            },
            (Stage::SocketDir, Event::Failed(source)) => {
                let dir = match pathname::parent(self.cfg.socket.as_str()) {
                    Some(dir) => dir,
                    None => String::new(),
                };
                self.create_failed(dir, source)
            },
            (Stage::SocketDir, _) => self.make_log_dir(),
            (Stage::LogDir, Event::Failed(source)) => {
                let dir = self.cfg.log_dir.clone();
                self.create_failed(dir, source)
            },
            (Stage::LogDir, _) => self.survey(),
            (Stage::Survey, Event::Surveyed { git_is_dir, files }) => {
                match options::build_runtime_args(&self.cfg, git_is_dir, &files, &self.env) {
                    Ok(args) => {
                        self.args = args;
                        self.go(Stage::Running, Action::AskRunning)
                    },
                    Err(err) => self.fail(err),
                }
            },
            (Stage::Running, Event::Answer(false)) => self.go(Stage::Exists, Action::AskExists),
            (Stage::Exists, Event::Answer(true)) => self.go(Stage::Clear, Action::RemoveContainer),
            (Stage::Running, _) | (Stage::Exists, _) | (Stage::Clear, _) => self.run(false),
            (Stage::Launch { retry }, Event::Ran(output)) => {
                let rt = self.cfg.runtime();
                match rt.checked(Verb::Run, output) {
                    Ok(_) => {
                        let secs: u64 = self.cfg.timeout;
                        self.go(Stage::Clock, Action::StartClock(secs))
                    },
                    Err(RuntimeError::Failed { bin, verb, output }) => {
                        if !retry && runtime::is_name_in_use(output.as_str()) {
                            self.go(Stage::RaceRunning, Action::AskRunning)
                        } else {
                            self.fail(
                                CtlError::Runtime(RuntimeError::Failed { bin, verb, output }),
                            )
                        }
                    },
                    Err(err) => self.fail(CtlError::Runtime(err)),
                }
            },
            (Stage::RaceRunning, Event::Answer(true)) => self.up(),
            (Stage::RaceRunning, _) => self.go(Stage::RaceClear, Action::RemoveContainer),
            (Stage::RaceClear, _) => self.run(true),
            (Stage::Clock, _) => self.go(Stage::Ready, Action::AskRunning),
            (Stage::Ready, Event::Answer(true)) => self.go(
                Stage::ReadySocket,
                Action::AskConnect,
            ),
            (Stage::ReadySocket, Event::Answer(true)) => self.up(),
            (Stage::Ready, _) | (Stage::ReadySocket, _) => self.go(
                Stage::Deadline,
                Action::AskDeadline,
            ),
            (Stage::Deadline, Event::Answer(true)) => self.go(
                Stage::Inspect,
                Action::InspectState,
            ),
            (Stage::Deadline, _) => self.go(Stage::Pause, Action::Sleep),
            (Stage::Inspect, Event::Ran(output)) => {
                let state = runtime::state_report(output);
                let err = RuntimeError::NotLive {
                    container: self.cfg.container.clone(),
                    timeout: self.cfg.timeout,
                    state,
                };
                self.fail(CtlError::Runtime(err))
            },
            _ => self.go(Stage::Ready, Action::AskRunning),
        }
    }

    /// Stop the container, unless it is down already.
    fn stop(&mut self, event: Event) -> (action: Action)
        requires
            ready(*old(self)),
            accepts(old(self).stage, event),
            old(self).stage == Stage::StopRunning || old(self).stage == Stage::StopAsked || old(
                self,
            ).stage == Stage::StopRecheck,
        ensures
            flow_step(*old(self), event, *final(self), action),
    {
        match (self.stage, event) {
            (Stage::StopRunning, Event::Answer(true)) => self.go(
                Stage::StopAsked,
                Action::StopContainer,
            ),
            (Stage::StopAsked, Event::Ran(output)) => {
                let rt = self.cfg.runtime();
                match rt.checked(Verb::Stop, output) {
                    Ok(_) => self.succeed(),
                    Err(err) => {
                        self.fault = Some(err);
                        self.go(Stage::StopRecheck, Action::AskRunning)
                    },
                }
            },
            (Stage::StopRecheck, Event::Answer(true)) => match self.fault.take() {
                Some(err) => self.fail(CtlError::Runtime(err)),
                None => self.succeed(),
            },
            _ => self.succeed(),
        }
    }

    /// Report container, socket and cache.
    fn status(&mut self, event: Event) -> (action: Action)
        requires
            ready(*old(self)),
            accepts(old(self).stage, event),
            match old(self).stage {
                Stage::StatusRunning | Stage::StatusSocket { .. } | Stage::StatusProbe { .. }
                    | Stage::StatusFresh { .. } | Stage::StatusPrint => true,
                _ => false,
            },
        ensures
            flow_step(*old(self), event, *final(self), action),
    {
        match (self.stage, event) {
            (Stage::StatusRunning, Event::Answer(running)) => self.go(
                Stage::StatusSocket { running },
                Action::AskConnect,
            ),
            (Stage::StatusSocket { running }, Event::Answer(connectable)) => {
                if connectable {
                    self.go(Stage::StatusProbe { running }, Action::ProbeVersion)
                } else {
                    self.go(
                        Stage::StatusFresh { running, connectable: false },
                        Action::AskFresh,
                    )
                }
            },
            (Stage::StatusProbe { running }, _) => self.go(
                Stage::StatusFresh { running, connectable: true },
                Action::AskFresh,
            ),
            (Stage::StatusFresh { running, connectable }, Event::Fresh(freshness)) => {
                let lines = status_report(&self.cfg, running, connectable, freshness);
                self.go(Stage::StatusPrint, Action::Print(lines))
            },
            _ => self.succeed(),
        }
    }

    /// An interactive shell in a container that runs.
    fn enter(&mut self, event: Event) -> (action: Action)
        requires
            ready(*old(self)),
            accepts(old(self).stage, event),
            old(self).stage == Stage::EnterRunning || old(self).stage == Stage::EnterShell,
        ensures
            flow_step(*old(self), event, *final(self), action),
    {
        let rt = self.cfg.runtime();
        match (self.stage, event) {
            (Stage::EnterRunning, Event::Answer(true)) => {
                let args = rt.exec_interactive_args(self.cfg.cache_dir.as_str());
                self.go(Stage::EnterShell, Action::Shell(args))
            },
            (Stage::EnterShell, Event::Exited(status)) => match rt.exec_checked(status) {
                Ok(_) => self.succeed(),
                Err(err) => self.fail(CtlError::Runtime(err)),
            },
            _ => {
                let container = self.cfg.container.clone();
                self.fail(CtlError::NotRunning { container })
            },
        }
    }

    /// The newest server log, in the pager.
    fn log(&mut self, event: Event) -> (action: Action)
        requires
            ready(*old(self)),
            accepts(old(self).stage, event),
            old(self).stage == Stage::LogList || old(self).stage == Stage::LogPage,
        ensures
            flow_step(*old(self), event, *final(self), action),
    {
        let line = self.env.get("PAGER");
        let (prog, mut args) = options::pager_command(
            match &line {
                Some(line) => Some(line.as_str()),
                None => None,
            },
        );
        let ghost words = options::pager_words(pager_of(*self));
        proof {
            assert(seq![prog@] + views(args@) == words);
            assert((seq![prog@] + views(args@))[0] == prog@);
        }
        match (self.stage, event) {
            (Stage::LogList, Event::Listed(names)) => {
                match paths::newest_server_log_path(self.cfg.log_dir.as_str(), &names) {
                    Some(path) => {
                        let ghost before = views(args@);
                        proof {
                            let all = views(names@);
                            let i = choose|i: int|
                                #[trigger] paths::is_newest(all, i) && path@ == join_spec(
                                    self.cfg.log_dir@,
                                    all[i],
                                );
                            let j = choose|j: int| paths::is_newest(all, j);
                            paths::lemma_newest_is_unique(all, i, j);
                        }
                        text::push_text(&mut args, path.as_str());
                        proof {
                            assert(seq![prog@] + views(args@) =~= words.push(path@));
                        }
                        self.go(Stage::LogPage, Action::Page(prog, args))
                    },
                    None => {
                        let dir = self.cfg.log_dir.clone();
                        self.fail(CtlError::NoLog { dir })
                    },
                }
            },
            (Stage::LogPage, Event::Exited(Ok(true))) => self.succeed(),
            (Stage::LogPage, Event::Exited(Err(source))) => self.fail(
                CtlError::PagerSpawn { prog, source },
            ),
            _ => self.fail(CtlError::PagerFailed { prog }),
        }
    }
}

/// The lines of a status report.
fn status_report(
    cfg: &Config,
    running: bool,
    connectable: bool,
    freshness: Freshness,
) -> (lines: Vec<String>)
    ensures
        views(lines@) == status_lines(cfg@, running, connectable, freshness),
{
    let mut container: String = String::new();
    if running {
        container.append("container: running (");
        container.append(cfg.container.as_str());
        container.append(")");
    } else {
        container.append("container: not running");
    }
    let mut socket: String = String::new();
    if connectable {
        socket.append("socket: connectable (");
    } else {
        socket.append("socket: unreachable (");
    }
    socket.append(cfg.socket.as_str());
    socket.append(")");
    let mut cache = "cache: ".to_owned();
    cache.append(freshness.word());
    proof {
        let want = status_lines(cfg@, running, connectable, freshness);
        assert(container@ =~= want[0]);
        assert(socket@ =~= want[1]);
        assert(cache@ =~= want[2]);
    }
    let lines: Vec<String> = vec![container, socket, cache];
    proof {
        assert(views(lines@) =~= status_lines(cfg@, running, connectable, freshness));
    }
    lines
}

// ---------------------------------------------------------------------------
// Laws
// ---------------------------------------------------------------------------

/// A command reports its result exactly when it is over, and then nothing
/// happens to it any more.
pub proof fn law_command_ends_with_a_result(
    before: Flow,
    event: Event,
    after: Flow,
    action: Action,
)
    requires
        accepts(before.stage, event),
        flow_step(before, event, after, action),
    ensures
        action is Finish <==> after.stage == Stage::Over,
        after.stage == Stage::Over ==> forall|e: Event| !accepts(after.stage, e),
{
}

/// A container that is live with a fresh cache needs nothing: `init` is done
/// without an evaluation, a stop or a launch.
pub proof fn law_live_and_fresh_needs_nothing(before: Flow, after: Flow, action: Action)
    requires
        before.stage == (Stage::Fresh { live: true }),
        flow_step(before, Event::Fresh(Freshness::Fresh), after, action),
    ensures
        succeeds(after.stage, action),
{
}

/// The devshell is evaluated only by a command that evaluates, and only after
/// its cache was found not to be fresh: an evaluation follows the creation of
/// the cache dir, and that a check that did not say fresh.
pub proof fn law_evaluation_only_when_not_fresh(
    before: Flow,
    event: Event,
    after: Flow,
    action: Action,
)
    requires
        accepts(before.stage, event),
        flow_step(before, event, after, action),
    ensures
        action is Evaluate ==> before.stage is CacheDir && event is Done,
        after.stage is CacheDir ==> before.stage is CacheCheck && event->Fresh_0
            != Freshness::Fresh,
        after.stage is CacheCheck ==> before.stage is Fresh,
        after.stage is Fresh ==> evaluates(before.cmd),
{
}

/// The stage is one of the making of the cache.
pub open spec fn makes_cache(stage: Stage) -> bool {
    match stage {
        Stage::CacheCheck { .. } | Stage::CacheDir { .. } | Stage::CacheEval { .. }
            | Stage::CacheDump { .. } | Stage::CacheWipe { .. } | Stage::CacheDigest { .. }
            | Stage::CacheStore { .. } => true,
        _ => false,
    }
}

/// Steps that follow one another: `events[i]` is what `flows[i]` awaited, and
/// `actions[i]` what was asked for then.
pub open spec fn is_course(flows: Seq<Flow>, events: Seq<Event>, actions: Seq<Action>) -> bool {
    &&& flows.len() == events.len() + 1
    &&& actions.len() == events.len()
    &&& forall|i: int|
        0 <= i < events.len() ==> accepts(flows[i].stage, #[trigger] events[i]) && flow_step(
            flows[i],
            events[i],
            flows[i + 1],
            actions[i],
        )
}

/// Steps that begin with the look at the cache and go on with its making, up
/// to where it is left.
pub open spec fn is_cache_course(
    flows: Seq<Flow>,
    events: Seq<Event>,
    actions: Seq<Action>,
    live: bool,
) -> bool {
    &&& is_course(flows, events, actions)
    &&& events.len() > 0
    &&& flows[0].stage == (Stage::CacheCheck { live })
    &&& forall|i: int| 0 < i < events.len() ==> makes_cache((#[trigger] flows[i]).stage)
    &&& !makes_cache(flows[events.len() as int].stage)
}

/// The stages of the making of the cache, in order.
spec fn cache_stages(live: bool) -> Seq<Stage> {
    seq![
        Stage::CacheCheck { live },
        Stage::CacheDir { live },
        Stage::CacheEval { live },
        Stage::CacheDump { live },
        Stage::CacheWipe { live },
        Stage::CacheDigest { live },
        Stage::CacheStore { live },
    ]
}

/// Making the cache goes through its stages in order.
proof fn lemma_cache_course(
    flows: Seq<Flow>,
    events: Seq<Event>,
    actions: Seq<Action>,
    live: bool,
    n: int,
)
    requires
        is_cache_course(flows, events, actions, live),
        0 <= n < events.len(),
    ensures
        n <= 6,
        flows[n].cfg == flows[0].cfg,
        flows[n].stage == cache_stages(live)[n],
        accepts(flows[n].stage, events[n]),
        flow_step(flows[n], events[n], flows[n + 1], actions[n]),
    decreases n,
{
    assert(accepts(flows[n].stage, events[n]));
    if n > 0 {
        lemma_cache_course(flows, events, actions, live, n - 1);
        assert(makes_cache(flows[n].stage));
    }
}

/// A cache that is left well holds what it should. One that was fresh needed
/// nothing. Otherwise nix ran once, `env` was written and holds exactly what
/// nix printed, `hash` was written and holds the digest of the watched files,
/// and with that the cache reads fresh for as long as they stay the same.
pub proof fn law_evaluation_fills_the_cache(
    flows: Seq<Flow>,
    events: Seq<Event>,
    actions: Seq<Action>,
    live: bool,
    at: spec_fn(Seq<char>) -> Option<Seq<u8>>,
)
    requires
        is_cache_course(flows, events, actions, live),
        flows[events.len() as int].stage != Stage::Over,
        forall|i: int|
            0 <= i < events.len() ==> ((#[trigger] events[i]) matches Event::Digest(digest)
                ==> digest@ == digest::digest_of(flows[0].cfg@.watch_files, at)),
    ensures
        ({
            let cfg = flows[0].cfg@;
            &&& goes_on_cached(
                cfg,
                live,
                flows[events.len() as int].stage,
                actions[events.len() - 1],
            )
            &&& events[0] == Event::Fresh(Freshness::Fresh) ==> events.len() == 1
            &&& events[0] != Event::Fresh(Freshness::Fresh) ==> {
                &&& events.len() == 7
                &&& forall|i: int| 0 <= i < 7 ==> ((#[trigger] actions[i]) is Evaluate <==> i == 1)
                &&& events[2] matches Event::Evaluated(Ok(evaluation))
                &&& evaluation.success
                &&& actions[2] matches Action::WriteDump { path, bytes }
                &&& path@ == join_spec(cfg.cache_dir, "env"@)
                &&& bytes@ == evaluation.stdout@
                &&& events[3] is Done
                &&& actions[5] matches Action::WriteDigest { path: hash, text }
                &&& hash@ == join_spec(cfg.cache_dir, "hash"@)
                &&& text@ == digest::digest_of(cfg.watch_files, at)
                &&& events[6] is Done
                &&& digest::freshness(
                    true,
                    Some(text@),
                    Some(digest::digest_of(cfg.watch_files, at)),
                ) == Freshness::Fresh
            }
        }),
{
    let last = events.len() - 1;
    lemma_cache_course(flows, events, actions, live, 0);
    lemma_cache_course(flows, events, actions, live, last);
    if last > 0 {
        lemma_cache_course(flows, events, actions, live, 1);
    }
    if last > 1 {
        lemma_cache_course(flows, events, actions, live, 2);
    }
    if last > 2 {
        lemma_cache_course(flows, events, actions, live, 3);
    }
    if last > 3 {
        lemma_cache_course(flows, events, actions, live, 4);
    }
    if last > 4 {
        lemma_cache_course(flows, events, actions, live, 5);
    }
    let hash = digest::xxhash64(
        0,
        digest::records(crate::order::sorted(flows[0].cfg@.watch_files), at),
    );
    digest::law_stored_digest_reads_fresh(hash, None);
}

/// An evaluation that fails, or that cannot be spawned, ends the command in
/// that failure, and neither `env` nor `hash` was written.
pub proof fn law_failed_evaluation_leaves_the_cache(
    flows: Seq<Flow>,
    events: Seq<Event>,
    actions: Seq<Action>,
    live: bool,
    k: int,
)
    requires
        is_cache_course(flows, events, actions, live),
        0 <= k < events.len(),
        events[k] matches Event::Evaluated(outcome) && (outcome is Err || !outcome->Ok_0.success),
    ensures
        fails_somehow(flows[events.len() as int].stage, actions[events.len() - 1]),
        failure(actions[events.len() - 1]) is PrintDevEnv,
        forall|i: int|
            0 <= i < events.len() ==> !((#[trigger] actions[i]) is WriteDump) && !(actions[i]
                is WriteDigest),
{
    let last = events.len() - 1;
    lemma_cache_course(flows, events, actions, live, k);
    lemma_cache_course(flows, events, actions, live, last);
    lemma_cache_course(flows, events, actions, live, 0);
    if last > 0 {
        lemma_cache_course(flows, events, actions, live, 1);
    }
    if last > 2 {
        lemma_cache_course(flows, events, actions, live, 3);
    }
}

/// The files once the first `n` events are in, as the writes that were
/// reported done leave them: `events[i]` is what came of `actions[i - 1]`.
pub open spec fn written(
    files: Map<Seq<char>, Seq<u8>>,
    events: Seq<Event>,
    actions: Seq<Action>,
    n: int,
) -> Map<Seq<char>, Seq<u8>>
    decreases n,
{
    if n <= 1 {
        files
    } else {
        let before = written(files, events, actions, n - 1);
        if events[n - 1] is Done {
            match actions[n - 2] {
                Action::WriteDump { path, bytes } => before.insert(path@, bytes@),
                Action::WriteDigest { path, text } => before.insert(path@, encode_utf8(text@)),
                _ => before,
            }
        } else {
            before
        }
    }
}

/// Ensuring the cache. A fresh one is left alone and nix does not run.
/// Otherwise nix runs at most once, and it does run once the cache directory
/// is there. Where it fails the command fails, with `env` and `hash` as they
/// were. Where the command goes on, `env` holds exactly what nix printed,
/// `hash` holds the digest, no other file changed, and the cache reads fresh
/// for as long as the watched files stay the same.
pub proof fn law_cache_is_ensured(
    flows: Seq<Flow>,
    events: Seq<Event>,
    actions: Seq<Action>,
    live: bool,
    at: spec_fn(Seq<char>) -> Option<Seq<u8>>,
    files: Map<Seq<char>, Seq<u8>>,
)
    requires
        is_cache_course(flows, events, actions, live),
        forall|i: int|
            0 <= i < events.len() ==> ((#[trigger] events[i]) matches Event::Digest(digest)
                ==> digest@ == digest::digest_of(flows[0].cfg@.watch_files, at)),
    ensures
        ({
            let cfg = flows[0].cfg@;
            let env = join_spec(cfg.cache_dir, "env"@);
            let hash = join_spec(cfg.cache_dir, "hash"@);
            let digest = digest::digest_of(cfg.watch_files, at);
            let stage = flows[events.len() as int].stage;
            let action = actions[events.len() - 1];
            let after = written(files, events, actions, events.len() as int);
            &&& stage == Stage::Over ==> fails_somehow(stage, action)
            &&& stage != Stage::Over ==> goes_on_cached(cfg, live, stage, action)
            &&& forall|i: int| 0 <= i < events.len() && (#[trigger] actions[i]) is Evaluate ==> i
                == 1
            &&& if events[0] == Event::Fresh(Freshness::Fresh) {
                stage != Stage::Over && events.len() == 1 && after == files
            } else {
                &&& events.len() > 1
                &&& events[1] is Done ==> events.len() > 2 && actions[1] is Evaluate
                    && events[2] is Evaluated
                &&& !(events[1] is Done) ==> stage == Stage::Over && after == files
                &&& events.len() > 2 ==> match events[2]->Evaluated_0 {
                    Ok(evaluation) => if evaluation.success {
                        stage != Stage::Over ==> {
                            &&& after == files.insert(env, evaluation.stdout@).insert(
                                hash,
                                encode_utf8(digest),
                            )
                            &&& after[env] == evaluation.stdout@
                            &&& digest::freshness(
                                after.contains_key(env),
                                Some(digest),
                                Some(digest),
                            ) == Freshness::Fresh
                        }
                    } else {
                        stage == Stage::Over && failure(action) is PrintDevEnv && after == files
                    },
                    Err(_) => stage == Stage::Over && failure(action) is PrintDevEnv && after
                        == files,
                }
            }
        }),
{
    reveal_with_fuel(written, 8);
    reveal_strlit("env");
    reveal_strlit("hash");
    let last = events.len() - 1;
    let cfg = flows[0].cfg@;
    let env = join_spec(cfg.cache_dir, "env"@);
    let hash = join_spec(cfg.cache_dir, "hash"@);
    assert(env.len() < hash.len());
    assert forall|n: int| 0 <= n < events.len() implies {
        &&& n <= 6
        &&& flows[n].cfg == flows[0].cfg
        &&& flows[n].stage == cache_stages(live)[n]
        &&& accepts(flows[n].stage, #[trigger] events[n])
        &&& flow_step(flows[n], events[n], flows[n + 1], actions[n])
    } by {
        lemma_cache_course(flows, events, actions, live, n);
    }
    lemma_cache_course(flows, events, actions, live, last);
    assert(events[0] is Fresh);
    if flows[last + 1].stage != Stage::Over {
        law_evaluation_fills_the_cache(flows, events, actions, live, at);
    }
    if last >= 2 {
        assert(accepts(flows[1].stage, events[1]));
        assert(accepts(flows[2].stage, events[2]));
        let outcome = events[2]->Evaluated_0;
        if outcome is Err || !outcome->Ok_0.success {
            law_failed_evaluation_leaves_the_cache(flows, events, actions, live, 2);
        }
    }
}

/// How many launches a command can still make.
pub open spec fn launches_left(stage: Stage) -> nat {
    match stage {
        Stage::Launch { retry: true } | Stage::Clock | Stage::Ready | Stage::ReadySocket
            | Stage::Deadline | Stage::Pause | Stage::Inspect | Stage::Probe | Stage::Over => 0,
        Stage::Launch { retry: false } | Stage::RaceRunning | Stage::RaceClear => 1,
        _ => 2,
    }
}

/// A command launches at most twice, and the second time only where the
/// first found the name in use: every launch uses one up, nothing gives one
/// back, and a retry comes out of a lost race alone.
pub proof fn law_launch_is_retried_once(
    before: Flow,
    event: Event,
    after: Flow,
    action: Action,
)
    requires
        accepts(before.stage, event),
        flow_step(before, event, after, action),
    ensures
        launches_left(after.stage) <= launches_left(before.stage),
        action is Launch ==> launches_left(after.stage) < launches_left(before.stage),
        after.stage == (Stage::Launch { retry: true }) ==> before.stage == Stage::RaceClear,
        after.stage == Stage::RaceClear ==> before.stage == Stage::RaceRunning && event
            == Event::Answer(false),
        after.stage == Stage::RaceRunning ==> before.stage == (Stage::Launch { retry: false })
            && (event matches Event::Ran(Ok(out)) && !out.success && name_in_use(captured(out))),
{
}

/// The runtime is not asked to launch anything before the options are
/// assembled: a variable that is not set, a socket without a directory or a
/// missing env dump end the command first.
pub proof fn law_options_come_before_the_launch(
    before: Flow,
    event: Event,
    after: Flow,
    action: Action,
)
    requires
        accepts(before.stage, event),
        flow_step(before, event, after, action),
    ensures
        action is Launch ==> before.stage == Stage::Running || before.stage == Stage::Exists
            || before.stage == Stage::Clear || before.stage == Stage::RaceClear,
        after.stage == Stage::Running ==> before.stage == Stage::Survey
            && options::expanded_options(before.cfg@.run_opts, before.env@) is Ok && parent_spec(
            before.cfg@.socket,
        ) is Some,
        after.stage == Stage::SocketDir || after.stage == Stage::LogDir ==> before.stage
            == Stage::Dump && event == Event::Answer(true) || before.stage == Stage::SocketDir,
{
}

/// Stopping a container that is down is a success and asks nothing of the
/// runtime; so is a stop that fails on a container that is down afterwards.
pub proof fn law_stop_is_idempotent(before: Flow, after: Flow, action: Action)
    requires
        before.stage == Stage::StopRunning || before.stage == Stage::StopRecheck,
        flow_step(before, Event::Answer(false), after, action),
    ensures
        succeeds(after.stage, action),
{
}

/// `init` and `restart` never probe the version.
pub proof fn law_init_never_probes(before: Flow, event: Event, after: Flow, action: Action)
    requires
        evaluates(before.cmd),
        before.stage != Stage::StatusRunning,
        !(before.stage is StatusSocket),
        accepts(before.stage, event),
        flow_step(before, event, after, action),
    ensures
        !(action is ProbeVersion),
        after.stage != Stage::StatusRunning,
        !(after.stage is StatusSocket),
{
}

/// A launch succeeds only once the socket of the running container took a
/// connection, or another start was seen running.
pub proof fn law_launch_ends_live(before: Flow, event: Event, after: Flow, action: Action)
    requires
        accepts(before.stage, event),
        launches_left(before.stage) < 2,
        before.stage != Stage::Probe,
        flow_step(before, event, after, action),
        succeeds(after.stage, action) || after.stage == Stage::Probe,
    ensures
        event == Event::Answer(true),
        before.stage == Stage::ReadySocket || before.stage == Stage::RaceRunning,
{
}

/// Live means running and connectable: the socket is asked only of a
/// container that was seen running, and a cache is looked at as that of a
/// live container only once the socket took a connection.
pub proof fn law_live_is_running_and_connectable(
    before: Flow,
    event: Event,
    after: Flow,
    action: Action,
)
    requires
        accepts(before.stage, event),
        flow_step(before, event, after, action),
    ensures
        after.stage == Stage::LiveSocket ==> before.stage == Stage::Live && event == Event::Answer(
            true,
        ),
        after.stage == Stage::ReadySocket ==> before.stage == Stage::Ready && event
            == Event::Answer(true),
        after.stage == (Stage::Fresh { live: true }) ==> before.stage == Stage::LiveSocket && event
            == Event::Answer(true),
{
}

// ---------------------------------------------------------------------------
// The commands from their first question to their end
// ---------------------------------------------------------------------------

/// Each line of a status report goes by its own answer: the first says
/// whether the container runs, the second whether the socket takes a
/// connection, the third how fresh the cache is, whatever the other two are.
pub proof fn law_status_lines_are_independent(
    cfg: ConfigModel,
    running: bool,
    connectable: bool,
    freshness: Freshness,
    other_running: bool,
    other_connectable: bool,
    other_freshness: Freshness,
)
    ensures
        ({
            let lines = status_lines(cfg, running, connectable, freshness);
            let others = status_lines(cfg, other_running, other_connectable, other_freshness);
            &&& lines.len() == 3
            &&& running == other_running ==> lines[0] == others[0]
            &&& connectable == other_connectable ==> lines[1] == others[1]
            &&& freshness == other_freshness ==> lines[2] == others[2]
            &&& lines[0] == if running {
                "container: running ("@ + cfg.container + ")"@
            } else {
                "container: not running"@
            }
            &&& lines[1] == (if connectable {
                "socket: connectable ("@
            } else {
                "socket: unreachable ("@
            }) + cfg.socket + ")"@
            &&& freshness == Freshness::Fresh ==> lines[2] == "cache: fresh"@
            &&& freshness == Freshness::Stale ==> lines[2] == "cache: stale"@
            &&& freshness == Freshness::Missing ==> lines[2] == "cache: missing"@
        }),
{
    reveal_strlit("cache: ");
    reveal_strlit("fresh");
    reveal_strlit("stale");
    reveal_strlit("missing");
    reveal_strlit("cache: fresh");
    reveal_strlit("cache: stale");
    reveal_strlit("cache: missing");
    assert("cache: "@ + "fresh"@ =~= "cache: fresh"@);
    assert("cache: "@ + "stale"@ =~= "cache: stale"@);
    assert("cache: "@ + "missing"@ =~= "cache: missing"@);
}

/// `status` asks whether the container runs, whether the socket takes a
/// connection and how fresh the cache is, and prints exactly those answers.
/// The version is probed where the socket takes a connection. It ends well
/// whatever the answers are.
pub proof fn law_status_prints_its_answers(
    flows: Seq<Flow>,
    events: Seq<Event>,
    actions: Seq<Action>,
    first: Action,
    running: bool,
    connectable: bool,
    freshness: Freshness,
)
    requires
        is_course(flows, events, actions),
        begins(Cmd::Status, flows[0].cfg@, flows[0].stage, first),
        events.len() == if connectable {
            5int
        } else {
            4int
        },
        events[0] == Event::Answer(running),
        events[1] == Event::Answer(connectable),
        connectable ==> events[2] is Done,
        events[events.len() - 2] == Event::Fresh(freshness),
        events[events.len() - 1] is Done,
    ensures
        ({
            let n = events.len() as int;
            let cfg = flows[0].cfg@;
            &&& first is AskRunning
            &&& actions[0] is AskConnect
            &&& connectable ==> actions[1] is ProbeVersion
            &&& actions[n - 3] is AskFresh
            &&& actions[n - 2] matches Action::Print(lines)
            &&& views(lines@) == seq![
                if running {
                    "container: running ("@ + cfg.container + ")"@
                } else {
                    "container: not running"@
                },
                (if connectable {
                    "socket: connectable ("@
                } else {
                    "socket: unreachable ("@
                }) + cfg.socket + ")"@,
                if freshness == Freshness::Fresh {
                    "cache: fresh"@
                } else if freshness == Freshness::Stale {
                    "cache: stale"@
                } else {
                    "cache: missing"@
                },
            ]
            &&& actions[n - 1] == Action::Finish(Ok(()))
            &&& flows[n].stage == Stage::Over
        }),
{
    let n = events.len() as int;
    let cfg = flows[0].cfg@;
    law_status_lines_are_independent(
        cfg,
        running,
        connectable,
        freshness,
        running,
        connectable,
        freshness,
    );
    assert(accepts(flows[0].stage, events[0]));
    assert(accepts(flows[1].stage, events[1]));
    assert(accepts(flows[2].stage, events[2]));
    assert(accepts(flows[3].stage, events[3]));
    if connectable {
        assert(accepts(flows[4].stage, events[4]));
    }
    let lines = status_lines(cfg, running, connectable, freshness);
    assert(lines =~= seq![lines[0], lines[1], lines[2]]);
}

/// `stop` leaves a container alone that does not run, stops one that does,
/// and fails only where the stop failed and the container still runs; it
/// fails with the runtime's own failure.
pub proof fn law_stop_stops_what_runs(
    flows: Seq<Flow>,
    events: Seq<Event>,
    actions: Seq<Action>,
    first: Action,
)
    requires
        is_course(flows, events, actions),
        begins(Cmd::Stop, flows[0].cfg@, flows[0].stage, first),
        events.len() > 0,
    ensures
        first is AskRunning,
        events[0] == Event::Answer(false) ==> actions[0] == Action::Finish(Ok(()))
            && flows[1].stage == Stage::Over,
        events[0] == Event::Answer(true) ==> actions[0] is StopContainer,
        events.len() == 2 && events[0] == Event::Answer(true) ==> match events[1] {
            Event::Ran(Ok(out)) => if out.success {
                actions[1] == Action::Finish(Ok(()))
            } else {
                actions[1] is AskRunning
            },
            Event::Ran(Err(_)) => actions[1] is AskRunning,
            _ => false,
        },
        events.len() == 3 && events[0] == Event::Answer(true) && events[2] == Event::Answer(false)
            ==> actions[2] == Action::Finish(Ok(())),
        events.len() == 3 && events[0] == Event::Answer(true) && events[2] == Event::Answer(true)
            ==> (actions[2] matches Action::Finish(Err(CtlError::Runtime(err))) && match events[1] {
            Event::Ran(Ok(out)) => err matches RuntimeError::Failed { bin, verb, output } && bin@
                == flows[0].cfg.runtime@ && verb == Verb::Stop && output@ == captured(out),
            Event::Ran(Err(cause)) => err matches RuntimeError::Spawn { bin, verb, source } && bin@
                == flows[0].cfg.runtime@ && verb == Verb::Stop && source@ == cause@,
            _ => false,
        }),
{
    assert(accepts(flows[0].stage, events[0]));
    if events.len() > 1 {
        assert(accepts(flows[1].stage, events[1]));
    }
    if events.len() > 2 {
        assert(accepts(flows[2].stage, events[2]));
    }
}

/// `enter` opens the shell of a container that runs, in the environment of
/// the dump, and ends as the shell does. It refuses a container that does
/// not run, by name.
pub proof fn law_enter_opens_a_shell(
    flows: Seq<Flow>,
    events: Seq<Event>,
    actions: Seq<Action>,
    first: Action,
)
    requires
        is_course(flows, events, actions),
        begins(Cmd::Enter, flows[0].cfg@, flows[0].stage, first),
        events.len() > 0,
    ensures
        ({
            let cfg = flows[0].cfg@;
            &&& first is AskRunning
            &&& events[0] == Event::Answer(false) ==> (actions[0] matches Action::Finish(
                Err(CtlError::NotRunning { container }),
            ) && container@ == cfg.container)
            &&& events[0] == Event::Answer(true) ==> (actions[0] matches Action::Shell(args)
                && views(args@) == seq![
                "exec"@,
                "-it"@,
                cfg.container,
                cfg.bash,
                "-c"@,
                "source "@ + ("'"@ + super::shell::escaped(join_spec(cfg.cache_dir, "env"@)) + "'"@)
                    + " && exec "@ + ("'"@ + super::shell::escaped(cfg.bash) + "'"@),
            ])
            &&& events.len() == 2 && events[0] == Event::Answer(true) ==> match events[1] {
                Event::Exited(Ok(true)) => actions[1] == Action::Finish(Ok(())),
                Event::Exited(Ok(false)) => actions[1] matches Action::Finish(
                    Err(CtlError::Runtime(RuntimeError::ExecFailed { bin })),
                ) && bin@ == cfg.runtime,
                Event::Exited(Err(cause)) => actions[1] matches Action::Finish(
                    Err(CtlError::Runtime(RuntimeError::Spawn { bin, verb, source })),
                ) && bin@ == cfg.runtime && verb == Verb::Exec && source@ == cause@,
                _ => false,
            }
        }),
{
    let cfg = flows[0].cfg@;
    runtime::law_launch_line_word_by_word(
        join_spec(cfg.cache_dir, "env"@),
        cfg.bash,
        ServerArgsModel {
            socket: cfg.socket,
            log_dir: cfg.log_dir,
            timeout: cfg.timeout,
            log_level: cfg.log_level,
        },
    );
    assert(accepts(flows[0].stage, events[0]));
    if events.len() > 1 {
        assert(accepts(flows[1].stage, events[1]));
    }
}

/// `log` opens the newest server log in the pager: the program and arguments
/// of `PAGER`, or `less -R`, with the log's path behind them. A directory
/// without a server log is refused, and a pager that fails is named.
pub proof fn law_log_pages_the_newest(
    flows: Seq<Flow>,
    events: Seq<Event>,
    actions: Seq<Action>,
    first: Action,
    names: Vec<String>,
    i: int,
)
    requires
        is_course(flows, events, actions),
        begins(Cmd::Log, flows[0].cfg@, flows[0].stage, first),
        events.len() > 0,
        events[0] == Event::Listed(names),
    ensures
        ({
            let cfg = flows[0].cfg@;
            let vars = flows[0].env@;
            let pager = options::pager_words(
                if vars.contains_key("PAGER"@) {
                    Some(vars["PAGER"@])
                } else {
                    None
                },
            );
            &&& first matches Action::ListDir(dir)
            &&& dir@ == cfg.log_dir
            &&& paths::is_newest(views(names@), i) ==> (actions[0] matches Action::Page(prog, args)
                && seq![prog@] + views(args@) == pager + seq![
                join_spec(cfg.log_dir, names@[i]@),
            ])
            &&& (forall|j: int|
                0 <= j < names@.len() ==> paths::server_log_epoch((#[trigger] names@[j])@) is None)
                ==> (actions[0] matches Action::Finish(Err(CtlError::NoLog { dir: d })) && d@
                == cfg.log_dir)
            &&& events.len() == 2 && paths::is_newest(views(names@), i) ==> match events[1] {
                Event::Exited(Ok(true)) => actions[1] == Action::Finish(Ok(())),
                Event::Exited(Ok(false)) => actions[1] matches Action::Finish(
                    Err(CtlError::PagerFailed { prog }),
                ) && prog@ == pager[0],
                Event::Exited(Err(cause)) => actions[1] matches Action::Finish(
                    Err(CtlError::PagerSpawn { prog, source }),
                ) && prog@ == pager[0] && source@ == cause@,
                _ => false,
            }
        }),
{
    assert(accepts(flows[0].stage, events[0]));
    let all = views(names@);
    if paths::is_newest(all, i) {
        let k = choose|k: int| paths::is_newest(all, k);
        paths::lemma_newest_is_unique(all, i, k);
        let pager = options::pager_words(pager_of(flows[0]));
        let path = join_spec(flows[0].cfg@.log_dir, all[i]);
        assert(pager.push(path) =~= pager + seq![path]);
    }
    if forall|j: int|
        0 <= j < names@.len() ==> paths::server_log_epoch((#[trigger] names@[j])@) is None {
        assert forall|k: int| !paths::is_newest(all, k) by {
            if paths::is_newest(all, k) {
                assert(paths::server_log_epoch(names@[k]@) is None);
            }
        }
    }
    if events.len() > 1 {
        assert(accepts(flows[1].stage, events[1]));
    }
    assert(paths::is_newest(all, i) ==> exists|k: int| paths::is_newest(all, k));
    assert(flows[0].stage == Stage::LogList);
    assert(flow_step(flows[0], events[0], flows[1], actions[0]));
    assert(report_step(flows[0], events[0], flows[1].stage, actions[0]));
    assert(events[0]->Listed_0 == names);
    assert(paths::is_newest(all, i) ==> flows[1].stage == Stage::LogPage);
    assert(paths::is_newest(all, i) ==> actions[0] is Page);
    assert(events.len() == 2 && paths::is_newest(all, i) ==> events[1] is Exited);
    assert(pager_of(flows[1]) == pager_of(flows[0]));
}

/// The command line of a launch: detached, under the container's name, with
/// the options between the name and the image, and the image's bash sources
/// the env dump and becomes the server.
pub proof fn law_launch_line(cfg: ConfigModel, extra: Seq<Seq<char>>)
    ensures
        ({
            let argv = launch_argv(cfg, extra);
            let n = extra.len() as int;
            &&& argv.len() == n + 9
            &&& argv.take(4) == seq!["run"@, "-d"@, "--name"@, cfg.container]
            &&& argv.subrange(4, 4 + n) == extra
            &&& argv.skip(4 + n).take(4) == seq!["--"@, cfg.image, cfg.bash, "-c"@]
            &&& argv.last() == "source "@ + ("'"@ + super::shell::escaped(
                join_spec(cfg.cache_dir, "env"@),
            ) + "'"@) + " && exec "@ + ("'"@ + super::shell::escaped(cfg.server) + "'"@)
                + " --socket "@ + ("'"@ + super::shell::escaped(cfg.socket) + "'"@)
                + " --log-dir "@ + ("'"@ + super::shell::escaped(cfg.log_dir) + "'"@)
                + " --timeout "@ + crate::number::decimal(cfg.timeout as nat) + " --log-level "@
                + cfg.log_level.word()
        }),
{
    let argv = launch_argv(cfg, extra);
    let n = extra.len() as int;
    runtime::law_launch_line_word_by_word(
        join_spec(cfg.cache_dir, "env"@),
        cfg.server,
        ServerArgsModel {
            socket: cfg.socket,
            log_dir: cfg.log_dir,
            timeout: cfg.timeout,
            log_level: cfg.log_level,
        },
    );
    assert(argv.take(4) =~= seq!["run"@, "-d"@, "--name"@, cfg.container]);
    assert(argv.subrange(4, 4 + n) =~= extra);
    assert(argv.skip(4 + n).take(4) =~= seq!["--"@, cfg.image, cfg.bash, "-c"@]);
}

/// A launch from its env dump to a container that is up: the dump is looked
/// for, the socket's directory and the log directory are made, the mounts
/// looked at, a container that is left over removed, the container launched
/// with the defaults and the project's own options, and the wait ends once
/// it runs and its socket takes a connection. `start` then probes the
/// version, `init` and `restart` do not.
pub proof fn law_launch_from_dump_to_live(
    flows: Seq<Flow>,
    events: Seq<Event>,
    actions: Seq<Action>,
    socket_dir: Seq<char>,
    opts: Seq<Seq<char>>,
    git_is_dir: bool,
    files: FileTable,
)
    requires
        is_course(flows, events, actions),
        flows[0].stage == Stage::Dump,
        parent_spec(flows[0].cfg@.socket) == Some(socket_dir),
        options::expanded_options(flows[0].cfg@.run_opts, flows[0].env@) == Ok::<
            Seq<Seq<char>>,
            Seq<char>,
        >(opts),
        events.len() == 11,
        events[0] == Event::Answer(true),
        events[1] is Done,
        events[2] is Done,
        events[3] == (Event::Surveyed { git_is_dir, files }),
        events[4] == Event::Answer(false),
        events[5] == Event::Answer(true),
        events[6] is Ran,
        events[7] matches Event::Ran(Ok(out)) && out.success,
        events[8] is Done,
        events[9] == Event::Answer(true),
        events[10] == Event::Answer(true),
    ensures
        ({
            let cfg = flows[0].cfg@;
            &&& actions[0] matches Action::EnsureDir(dir)
            &&& dir@ == socket_dir
            &&& actions[1] matches Action::CreateDir(logs)
            &&& logs@ == cfg.log_dir
            &&& actions[2] matches Action::Survey { git, watched }
            &&& git@ == join_spec(cfg.root, ".git"@)
            &&& views(watched@) == below(cfg.root, cfg.watch_files)
            &&& actions[3] is AskRunning
            &&& actions[4] is AskExists
            &&& actions[5] is RemoveContainer
            &&& actions[6] matches Action::Launch(argv)
            &&& views(argv@) == launch_argv(
                cfg,
                options::base_options(cfg, socket_dir, git_is_dir, files) + opts,
            )
            &&& actions[7] == Action::StartClock(cfg.timeout)
            &&& actions[8] is AskRunning
            &&& actions[9] is AskConnect
            &&& flows[0].cmd == Cmd::Start ==> actions[10] is ProbeVersion
            &&& flows[0].cmd != Cmd::Start ==> actions[10] == Action::Finish(Ok(()))
        }),
{
    assert(accepts(flows[0].stage, events[0]));
    assert(accepts(flows[1].stage, events[1]));
    assert(accepts(flows[2].stage, events[2]));
    assert(accepts(flows[3].stage, events[3]));
    assert(accepts(flows[4].stage, events[4]));
    assert(accepts(flows[5].stage, events[5]));
    assert(accepts(flows[6].stage, events[6]));
    assert(accepts(flows[7].stage, events[7]));
    assert(accepts(flows[8].stage, events[8]));
    assert(accepts(flows[9].stage, events[9]));
    assert(accepts(flows[10].stage, events[10]));
}

/// Without an env dump nothing is launched, and the failure names the cache.
/// What else fails before the launch ends the command and says where: a
/// directory that cannot be made, an option that names an unset variable.
pub proof fn law_launch_refuses_before_it_runs(
    before: Flow,
    event: Event,
    after: Flow,
    action: Action,
)
    requires
        accepts(before.stage, event),
        flow_step(before, event, after, action),
    ensures
        ({
            let cfg = before.cfg@;
            &&& before.stage == Stage::Dump && event == Event::Answer(false) ==> (action matches
                Action::Finish(Err(CtlError::NoCachedEnv { dir })) && dir@ == cfg.cache_dir)
            &&& before.stage == Stage::SocketDir && event is Failed ==> (action matches
                Action::Finish(Err(CtlError::Fs(FsError::CreateDir { dir, source }))) && dir@
                == parent_spec(cfg.socket)->0 && source@ == event->Failed_0@)
            &&& before.stage == Stage::LogDir && event is Failed ==> (action matches Action::Finish(
                Err(CtlError::Fs(FsError::CreateDir { dir, source })),
            ) && dir@ == cfg.log_dir && source@ == event->Failed_0@)
            &&& before.stage == Stage::Survey && parent_spec(cfg.socket) is None ==> (action
                matches Action::Finish(Err(CtlError::SocketNoParent { socket })) && socket@
                == cfg.socket)
            &&& before.stage == Stage::Survey && parent_spec(cfg.socket) is Some
                && options::expanded_options(cfg.run_opts, before.env@) is Err ==> (action matches
                Action::Finish(Err(CtlError::UnsetVar { name })) && name@
                == options::expanded_options(cfg.run_opts, before.env@)->Err_0)
        }),
{
}

/// A launch that fails says so with what the runtime printed. A name that a
/// start at the same time took is another matter: a container that runs by
/// then is up, one that does not is removed and launched once more, with the
/// same command line.
pub proof fn law_lost_race_is_settled(
    flows: Seq<Flow>,
    events: Seq<Event>,
    actions: Seq<Action>,
    out: CommandOutput,
)
    requires
        is_course(flows, events, actions),
        events.len() > 0,
        flows[0].stage == (Stage::Launch { retry: false }),
        events[0] == Event::Ran(Ok(out)),
        !out.success,
    ensures
        ({
            let cfg = flows[0].cfg@;
            &&& !name_in_use(captured(out)) ==> (actions[0] matches Action::Finish(
                Err(CtlError::Runtime(RuntimeError::Failed { bin, verb, output })),
            ) && bin@ == cfg.runtime && verb == Verb::Run && output@ == captured(out))
            &&& name_in_use(captured(out)) ==> actions[0] is AskRunning
            &&& name_in_use(captured(out)) && events.len() > 1 && events[1] == Event::Answer(true)
                ==> (if flows[0].cmd == Cmd::Start {
                actions[1] is ProbeVersion
            } else {
                actions[1] == Action::Finish(Ok(()))
            })
            &&& name_in_use(captured(out)) && events.len() > 2 && events[1] == Event::Answer(false)
                ==> actions[1] is RemoveContainer && (actions[2] matches Action::Launch(argv)
                && views(argv@) == launch_argv(cfg, views(flows[0].args@)))
            &&& name_in_use(captured(out)) && events.len() > 3 && events[1] == Event::Answer(false)
                && (events[3] matches Event::Ran(Ok(again)) && !again.success) ==> (actions[3]
                matches Action::Finish(
                Err(CtlError::Runtime(RuntimeError::Failed { bin, verb, output })),
            ) && bin@ == cfg.runtime && verb == Verb::Run && output@ == captured(
                events[3]->Ran_0->Ok_0,
            ))
        }),
{
    assert(accepts(flows[0].stage, events[0]));
    if events.len() > 1 {
        assert(accepts(flows[1].stage, events[1]));
    }
    if events.len() > 2 {
        assert(accepts(flows[2].stage, events[2]));
    }
    if events.len() > 3 {
        assert(accepts(flows[3].stage, events[3]));
    }
}

/// The wait asks on until the container runs and its socket takes a
/// connection or the time is over, pausing in between. Over, it fails with
/// the container, the seconds waited and the state that the inspection
/// shows.
pub proof fn law_wait_asks_until_the_deadline(
    before: Flow,
    event: Event,
    after: Flow,
    action: Action,
)
    requires
        accepts(before.stage, event),
        flow_step(before, event, after, action),
    ensures
        ({
            let cfg = before.cfg@;
            &&& before.stage == Stage::Ready && event == Event::Answer(true) ==> after.stage
                == Stage::ReadySocket && action is AskConnect
            &&& (before.stage == Stage::Ready || before.stage == Stage::ReadySocket) && event
                == Event::Answer(false) ==> after.stage == Stage::Deadline && action is AskDeadline
            &&& before.stage == Stage::Deadline && event == Event::Answer(false) ==> after.stage
                == Stage::Pause && action is Sleep
            &&& before.stage == Stage::Deadline && event == Event::Answer(true) ==> after.stage
                == Stage::Inspect && action is InspectState
            &&& before.stage == Stage::Pause ==> after.stage == Stage::Ready && action is AskRunning
            &&& before.stage == Stage::Inspect ==> (action matches Action::Finish(
                Err(CtlError::Runtime(RuntimeError::NotLive { container, timeout, state })),
            ) && container@ == cfg.container && timeout == cfg.timeout && match event {
                Event::Ran(Ok(o)) => if o.success {
                    state@ == trimmed(o.stdout@)
                } else {
                    state@ == trimmed(o.stderr@)
                },
                Event::Ran(Err(source)) => state@ == source@,
                _ => false,
            })
        }),
{
}

/// A project name belongs to one root. A free name is claimed by writing the
/// root to the stamp, in a directory made for it; a stamp of the same root
/// passes; one of another root refuses the command and names that root.
pub proof fn law_stamp_guards_the_name(
    before: Flow,
    event: Event,
    after: Flow,
    action: Action,
)
    requires
        accepts(before.stage, event),
        flow_step(before, event, after, action),
    ensures
        ({
            let cfg = before.cfg@;
            let path = join_spec(cfg.cache_dir, "project"@);
            &&& before.stage == Stage::Stamp && (event matches Event::Stamp(Some(existing))
                && stamp::admits(existing@, cfg.root)) ==> action is AskRunning && after.stage
                == Stage::Live
            &&& before.stage == Stage::Stamp && (event matches Event::Stamp(Some(existing))
                && !stamp::admits(existing@, cfg.root)) ==> (action matches Action::Finish(
                Err(CtlError::Stamp(StampError::AlreadyClaimed { project, existing })),
            ) && project@ == cfg.project && existing@ == text::trim_newlines(
                event->Stamp_0->0@,
            ))
            &&& before.stage == Stage::Stamp && event == Event::Stamp(None) && parent_spec(path)
                is Some ==> (action matches Action::CreateDir(dir) && Some(dir@) == parent_spec(
                path,
            )) && after.stage == Stage::StampDir
            &&& before.stage == Stage::StampDir && event is Done ==> (action matches
                Action::WriteStamp { path: p, text } && p@ == path && text@ == cfg.root)
                && after.stage == Stage::StampWrite
            &&& before.stage == Stage::StampWrite && event is Done ==> action is AskRunning
                && after.stage == Stage::Live
            &&& before.stage == Stage::Stamp && event is Failed ==> (action matches Action::Finish(
                Err(CtlError::Stamp(StampError::Fs(FsError::Read { path: p, source }))),
            ) && p@ == path && source@ == event->Failed_0@)
            &&& before.stage == Stage::StampDir && event is Failed ==> (action matches
                Action::Finish(
                Err(CtlError::Stamp(StampError::Fs(FsError::CreateDir { dir, source }))),
            ) && Some(dir@) == parent_spec(path) && source@ == event->Failed_0@)
            &&& before.stage == Stage::StampWrite && event is Failed ==> (action matches
                Action::Finish(Err(CtlError::Stamp(StampError::Fs(FsError::Write { path: p, source }))))
                && p@ == path && source@ == event->Failed_0@)
        }),
{
}

/// Each command begins at its own first question: `init` and `start` with
/// the stamp, `restart` by stopping the container and then with the stamp.
pub proof fn law_commands_begin_where_they_should(
    cfg: ConfigModel,
    stage: Stage,
    action: Action,
    before: Flow,
    event: Event,
    after: Flow,
    next: Action,
)
    requires
        before.stage == Stage::RestartStop,
        accepts(before.stage, event),
        flow_step(before, event, after, next),
    ensures
        begins(Cmd::Init, cfg, stage, action) || begins(Cmd::Start, cfg, stage, action) ==> stage
            == Stage::Stamp && (action matches Action::ReadStamp(path) && path@ == join_spec(
            cfg.cache_dir,
            "project"@,
        )),
        begins(Cmd::Restart, cfg, stage, action) ==> stage == Stage::RestartStop && action
            is StopContainer,
        after.stage == Stage::Stamp && (next matches Action::ReadStamp(path) && path@ == join_spec(
            before.cfg@.cache_dir,
            "project"@,
        )),
{
}

/// Once the stamp passed, a command goes by what is live and fresh. `start`
/// leaves a live container and launches where there is none. `init` and
/// `restart` leave one that is live and fresh; otherwise they make the cache,
/// stop an outdated container, whatever comes of that, and launch.
pub proof fn law_what_is_live_and_fresh_decides(
    before: Flow,
    event: Event,
    after: Flow,
    action: Action,
)
    requires
        accepts(before.stage, event),
        flow_step(before, event, after, action),
    ensures
        ({
            let cfg = before.cfg@;
            let dump = join_spec(cfg.cache_dir, "env"@);
            let launches = after.stage == Stage::Dump && (action matches Action::AskFile(path)
                && path@ == dump);
            let evaluating = before.cmd == Cmd::Init || before.cmd == Cmd::Restart;
            &&& before.stage == Stage::Live && event == Event::Answer(true) ==> action is AskConnect
                && after.stage == Stage::LiveSocket
            &&& !evaluating && (before.stage == Stage::Live || before.stage == Stage::LiveSocket)
                && event == Event::Answer(false) ==> launches
            &&& before.cmd == Cmd::Start && before.stage == Stage::LiveSocket && event
                == Event::Answer(true) ==> action is ProbeVersion && after.stage == Stage::Probe
            &&& before.stage == Stage::Probe ==> action == Action::Finish(Ok(()))
            &&& evaluating && (before.stage == Stage::Live || before.stage == Stage::LiveSocket)
                && event == Event::Answer(false) ==> action is AskFresh && after.stage
                == (Stage::Fresh { live: false })
            &&& evaluating && before.stage == Stage::LiveSocket && event == Event::Answer(true)
                ==> action is AskFresh && after.stage == (Stage::Fresh { live: true })
            &&& before.stage == (Stage::Fresh { live: true }) && event == Event::Fresh(
                Freshness::Fresh,
            ) ==> action == Action::Finish(Ok(()))
            &&& before.stage == (Stage::CacheCheck { live: true }) && event == Event::Fresh(
                Freshness::Fresh,
            ) ==> action is StopContainer && after.stage == Stage::InitStop
            &&& before.stage == (Stage::CacheCheck { live: false }) && event == Event::Fresh(
                Freshness::Fresh,
            ) ==> launches
            &&& before.stage == (Stage::CacheStore { live: true }) && event is Done ==> action
                is StopContainer && after.stage == Stage::InitStop
            &&& before.stage == (Stage::CacheStore { live: false }) && event is Done ==> launches
            &&& before.stage == Stage::InitStop ==> launches
        }),
{
}

/// The making of the cache, step by step: the directory, one evaluation of
/// the devshell into the profile, the dump, the pruning of the profile's
/// history, the digest, and the store. A failure of any but the pruning ends
/// the command with what failed.
pub proof fn law_cache_is_made_in_this_order(
    before: Flow,
    event: Event,
    after: Flow,
    action: Action,
    live: bool,
)
    requires
        accepts(before.stage, event),
        flow_step(before, event, after, action),
    ensures
        ({
            let cfg = before.cfg@;
            let env = join_spec(cfg.cache_dir, "env"@);
            let hash = join_spec(cfg.cache_dir, "hash"@);
            let profile = join_spec(cfg.cache_dir, "profile"@);
            &&& before.stage == (Stage::CacheCheck { live }) && event != Event::Fresh(
                Freshness::Fresh,
            ) ==> (action matches Action::CreateDir(dir) && dir@ == cfg.cache_dir)
            &&& before.stage == (Stage::CacheDir { live }) && event is Done ==> (action matches
                Action::Evaluate(args) && views(args@) == seq![
                "print-dev-env"@,
                "--profile"@,
                profile,
                cfg.devshell,
            ])
            &&& before.stage == (Stage::CacheDump { live }) && event is Done ==> (action matches
                Action::WipeHistory(args) && views(args@) == seq![
                "profile"@,
                "wipe-history"@,
                "--profile"@,
                profile,
            ])
            &&& before.stage == (Stage::CacheWipe { live }) ==> action is ComputeDigest
            &&& before.stage == (Stage::CacheDir { live }) && event is Failed ==> (action matches
                Action::Finish(Err(CtlError::Fs(FsError::CreateDir { dir, source }))) && dir@
                == cfg.cache_dir && source@ == event->Failed_0@)
            &&& before.stage == (Stage::CacheDump { live }) && event is Failed ==> (action matches
                Action::Finish(Err(CtlError::Fs(FsError::Write { path, source }))) && path@ == env
                && source@ == event->Failed_0@)
            &&& before.stage == (Stage::CacheDigest { live }) && event is Failed ==> (action matches
                Action::Finish(Err(CtlError::Digest { source })) && source@ == event->Failed_0@)
            &&& before.stage == (Stage::CacheStore { live }) && event is Failed ==> (action matches
                Action::Finish(Err(CtlError::Fs(FsError::Write { path, source }))) && path@ == hash
                && source@ == event->Failed_0@)
            &&& before.stage == (Stage::CacheEval { live }) ==> match event {
                Event::Evaluated(Ok(evaluation)) => if evaluation.success {
                    action matches Action::WriteDump { path, bytes } && path@ == env && bytes@
                        == evaluation.stdout@
                } else {
                    action matches Action::Finish(
                        Err(CtlError::PrintDevEnv(nix::PrintDevEnvError::Failed { devshell })),
                    ) && devshell@ == cfg.devshell
                },
                Event::Evaluated(Err(cause)) => action matches Action::Finish(
                    Err(CtlError::PrintDevEnv(nix::PrintDevEnvError::Spawn { source })),
                ) && source@ == cause@,
                _ => false,
            }
        }),
{
}

/// A container that runs already, and a name that is free, are launched at
/// once; a launch that cannot be spawned fails with the cause.
pub proof fn law_launch_without_leftovers(
    before: Flow,
    event: Event,
    after: Flow,
    action: Action,
)
    requires
        accepts(before.stage, event),
        flow_step(before, event, after, action),
    ensures
        (before.stage == Stage::Running && event == Event::Answer(true)) || (before.stage
            == Stage::Exists && event == Event::Answer(false)) || before.stage == Stage::Clear ==> (
        action matches Action::Launch(argv) && views(argv@) == launch_argv(
            before.cfg@,
            views(before.args@),
        )) && after.stage == (Stage::Launch { retry: false }),
        before.stage == Stage::Running && event == Event::Answer(false) ==> action is AskExists,
        before.stage == Stage::Exists && event == Event::Answer(true) ==> action is RemoveContainer,
        before.stage is Launch && (event matches Event::Ran(Err(_))) ==> (action matches
            Action::Finish(Err(CtlError::Runtime(RuntimeError::Spawn { bin, verb, source })))
            && bin@ == before.cfg@.runtime && verb == Verb::Run && source@
            == event->Ran_0->Err_0@),
        before.stage is Launch && (event matches Event::Ran(Ok(out)) && out.success) ==> action
            == Action::StartClock(before.cfg@.timeout) && after.stage == Stage::Clock,
        before.stage == Stage::Clock ==> action is AskRunning && after.stage == Stage::Ready,
        before.stage == Stage::Stamp && event == Event::Stamp(None) && parent_spec(
            join_spec(before.cfg@.cache_dir, "project"@),
        ) is None ==> (action matches Action::WriteStamp { path, text } && path@ == join_spec(
            before.cfg@.cache_dir,
            "project"@,
        ) && text@ == before.cfg@.root),
{
}

} // verus!
