//! Devshell control as decisions: what each command does next, given what
//! came of its last step, and what it says on the way.

use vstd::prelude::*;

use super::config::{cache_signal, signalled, Config};
use super::tools::{
    self, checked, echoed, outcome, plain, run_argv, run_piped, runs, suggesting, wrapped, Piped,
    PipedModel, Report, ReportModel,
};
use crate::environment::Environment;
use crate::number;
use crate::path::{self, cache_root_spec, is_latest, latest_log};
use crate::pathname::{self, join_spec};
use crate::text::{self, push_text, trimmed, views, words};

verus! {

/// The commands.
#[derive(Clone, Copy, Debug, PartialEq, Eq, Structural)]
pub enum Cmd {
    /// Evaluate the devshell, cache it, and start or restart the container.
    Init,
    /// Start the container from a cached devshell.
    Start,
    /// Stop the running container.
    Stop,
    /// Stop and restart the container.
    Restart,
    /// Enter an interactive shell inside the container.
    Enter,
    /// Print the expanded runtime arguments.
    ShowOptions,
    /// Remove all cached dev environments and nix profiles.
    Clean,
    /// Show container status.
    Status,
    /// Show the latest server log.
    Log { no_pager: bool },
}

/// What follows a stop.
#[derive(Clone, Copy, Debug, PartialEq, Eq, Structural)]
pub enum After {
    /// The command ends.
    End,
    /// The container is started.
    Start,
    /// The cache is removed.
    Clean,
}

/// How far a command is: the step whose outcome is awaited.
#[derive(Clone, Copy, Debug, PartialEq, Eq, Structural)]
pub enum Stage {
    /// The devshell's cache directory is made.
    MakeDir,
    /// The activation script is looked for, by `init`.
    InitCache,
    /// The devshell is evaluated.
    Evaluate,
    /// The activation script is written.
    Dump,
    /// The profile's history is pruned.
    Wipe,
    /// The container is stopped.
    Stopping { after: After },
    /// Whether the container runs is asked, before the start.
    Running,
    /// The activation script is looked for, before the start.
    Cache,
    /// Whether the socket's directory is a real one is asked.
    SocketKind,
    /// Whether the socket's directory holds anything is asked.
    SocketEntries,
    /// The socket's directory is made.
    SocketMake,
    /// Whether `.git` is a directory is asked, before the launch.
    Survey,
    /// The container is launched.
    Launch,
    /// The activation script is looked for, by `enter`.
    EnterCache,
    /// The interactive shell runs.
    EnterShell,
    /// Whether `.git` is a directory is asked, for the printed options.
    ShowSurvey,
    /// Lines are printed, as the last step.
    Printing,
    /// The cache is looked for.
    CleanPresent,
    /// The cache is removed.
    CleanRemove,
    /// The activation script is looked for, for the report.
    StatusCache,
    /// Whether the container runs is asked, for the report.
    StatusRunning { cached: bool },
    /// The container id is asked.
    StatusId { cached: bool },
    /// The activation script is looked for again, for the report.
    StatusUsable { cached: bool, running: bool },
    /// The log dir is looked for.
    LogPresent,
    /// The log dir is listed.
    LogList,
    /// Whether there is a `less` is asked.
    LogLess,
    /// The pager runs.
    LogPage,
    /// The log is printed.
    LogShow,
    /// Over.
    Over,
}

/// What came of a step. Causes come as their text.
pub enum Event {
    /// It is done.
    Done,
    /// It failed, and why.
    Failed(String),
    /// The answer to a question.
    Answer(bool),
    /// What a captured program came to, or why it could not be run.
    Ran(Result<Piped, String>),
    /// What the evaluation came to, or why it could not be run, and the bytes
    /// that it printed.
    Evaluated(Result<Piped, String>, Vec<u8>),
    /// The exit code of a program, where it has one, or why it could not be
    /// run.
    Exited(Result<Option<i32>, String>),
    /// The names in a directory.
    Listed(Vec<String>),
}

/// What came of a step, as a mathematical value.
pub enum EventModel {
    Done,
    Failed(Seq<char>),
    Answer(bool),
    Ran(Result<PipedModel, Seq<char>>),
    Evaluated(Result<PipedModel, Seq<char>>, Seq<u8>),
    Exited(Result<Option<i32>, Seq<char>>),
    Listed(Seq<Seq<char>>),
}

impl View for Event {
    type V = EventModel;

    open spec fn view(&self) -> EventModel {
        match self {
            Event::Done => EventModel::Done,
            Event::Failed(source) => EventModel::Failed(source@),
            Event::Answer(yes) => EventModel::Answer(*yes),
            Event::Ran(r) => EventModel::Ran(outcome(*r)),
            Event::Evaluated(r, bytes) => EventModel::Evaluated(outcome(*r), bytes@),
            Event::Exited(Ok(code)) => EventModel::Exited(Ok(*code)),
            Event::Exited(Err(source)) => EventModel::Exited(Err(source@)),
            Event::Listed(names) => EventModel::Listed(views(names@)),
        }
    }
}

/// The next step.
pub enum Action {
    /// Create a directory and those above it.
    CreateDir(String),
    /// Ask whether there is anything at this path.
    AskPresent(String),
    /// Ask whether this is a directory.
    AskDir(String),
    /// Ask whether this is a directory and no link to one.
    AskRealDir(String),
    /// Ask whether this directory can be read and holds anything.
    AskEntries(String),
    /// Run the runtime with these arguments and capture all that it prints.
    Inspect(Vec<String>),
    /// Run the runtime with these arguments and capture its stdout.
    Capture(Vec<String>),
    /// Run nix with these arguments and capture its stdout.
    Evaluate(Vec<String>),
    /// Write the activation script to this file.
    WriteDump { path: String, bytes: Vec<u8> },
    /// Run nix with these arguments on the caller's terminal.
    WipeHistory(Vec<String>),
    /// Run the runtime with these arguments on the caller's terminal.
    Shell(Vec<String>),
    /// Print these lines.
    Print(Vec<String>),
    /// Remove this directory with all that is in it.
    RemoveTree(String),
    /// List this directory, entries that cannot be read left out.
    ListDir(String),
    /// Ask whether `less --version` succeeds.
    AskLess,
    /// Run this program with these arguments on the caller's terminal.
    Page(String, Vec<String>),
    /// Print what this file holds.
    ShowFile(String),
    /// Exit with this code.
    Exit(i32),
    /// Stop, with the result.
    Finish(Result<(), Report>),
}

/// The next step, as a mathematical value.
pub enum ActionModel {
    CreateDir(Seq<char>),
    AskPresent(Seq<char>),
    AskDir(Seq<char>),
    AskRealDir(Seq<char>),
    AskEntries(Seq<char>),
    Inspect(Seq<Seq<char>>),
    Capture(Seq<Seq<char>>),
    Evaluate(Seq<Seq<char>>),
    WriteDump { path: Seq<char>, bytes: Seq<u8> },
    WipeHistory(Seq<Seq<char>>),
    Shell(Seq<Seq<char>>),
    Print(Seq<Seq<char>>),
    RemoveTree(Seq<char>),
    ListDir(Seq<char>),
    AskLess,
    Page(Seq<char>, Seq<Seq<char>>),
    ShowFile(Seq<char>),
    Exit(i32),
    Finish(Result<(), ReportModel>),
}

impl View for Action {
    type V = ActionModel;

    open spec fn view(&self) -> ActionModel {
        match self {
            Action::CreateDir(path) => ActionModel::CreateDir(path@),
            Action::AskPresent(path) => ActionModel::AskPresent(path@),
            Action::AskDir(path) => ActionModel::AskDir(path@),
            Action::AskRealDir(path) => ActionModel::AskRealDir(path@),
            Action::AskEntries(path) => ActionModel::AskEntries(path@),
            Action::Inspect(args) => ActionModel::Inspect(views(args@)),
            Action::Capture(args) => ActionModel::Capture(views(args@)),
            Action::Evaluate(args) => ActionModel::Evaluate(views(args@)),
            Action::WriteDump { path, bytes } => ActionModel::WriteDump {
                path: path@,
                bytes: bytes@,
            },
            Action::WipeHistory(args) => ActionModel::WipeHistory(views(args@)),
            Action::Shell(args) => ActionModel::Shell(views(args@)),
            Action::Print(lines) => ActionModel::Print(views(lines@)),
            Action::RemoveTree(path) => ActionModel::RemoveTree(path@),
            Action::ListDir(path) => ActionModel::ListDir(path@),
            Action::AskLess => ActionModel::AskLess,
            Action::Page(program, args) => ActionModel::Page(program@, views(args@)),
            Action::ShowFile(path) => ActionModel::ShowFile(path@),
            Action::Exit(code) => ActionModel::Exit(*code),
            Action::Finish(Ok(())) => ActionModel::Finish(Ok(())),
            Action::Finish(Err(report)) => ActionModel::Finish(Err(report@)),
        }
    }
}

/// What a step asks for: a text for stderr, then the action.
pub struct Turn {
    pub notes: String,
    pub action: Action,
}

/// One command on its way.
pub struct Run {
    pub cmd: Cmd,
    pub cfg: Config,
    pub env: Environment,
    pub stage: Stage,
    /// The container id, once it is known.
    pub id: String,
    /// The latest log, once it is known.
    pub log: String,
}

/// What a step comes to: the state after it, and what it asks for.
pub struct StepModel {
    pub stage: Stage,
    pub id: Seq<char>,
    pub log: Seq<char>,
    pub notes: Seq<char>,
    pub action: ActionModel,
}

// ---------------------------------------------------------------------------
// What each step wants
// ---------------------------------------------------------------------------

/// A line of its own.
pub open spec fn line(text: Seq<char>) -> Seq<char> {
    text + "\n"@
}

/// On to `stage`, with nothing new known.
pub open spec fn go(run: Run, stage: Stage, notes: Seq<char>, action: ActionModel) -> StepModel {
    StepModel { stage, id: run.id@, log: run.log@, notes, action }
}

/// The command ends well.
pub open spec fn succeeds(run: Run, notes: Seq<char>) -> StepModel {
    go(run, Stage::Over, notes, ActionModel::Finish(Ok(())))
}

/// The command ends in this failure.
pub open spec fn fails(run: Run, notes: Seq<char>, report: ReportModel) -> StepModel {
    go(run, Stage::Over, notes, ActionModel::Finish(Err(report)))
}

/// There is no activation script.
pub open spec fn no_cache() -> ReportModel {
    suggesting(plain(seq!["no cached dev environment found"@]), "run `ncap-ctl init` first"@)
}

/// The start begins: whether the container runs is asked.
pub open spec fn goes_start(run: Run, notes: Seq<char>) -> StepModel {
    go(
        run,
        Stage::Running,
        notes,
        ActionModel::Inspect(
            seq!["inspect"@, "-f"@, "{{.State.Running}}"@, run.cfg.container@],
        ),
    )
}

/// The container is stopped.
pub open spec fn goes_stop(run: Run, after: After, notes: Seq<char>) -> StepModel {
    go(
        run,
        Stage::Stopping { after },
        notes + line("stopping container `"@ + run.cfg.container@ + "`..."@),
        ActionModel::Capture(seq!["stop"@, run.cfg.container@]),
    )
}

/// The container is stopped, then started.
pub open spec fn goes_restart(run: Run) -> StepModel {
    goes_stop(
        run,
        After::Start,
        line("restarting container `"@ + run.cfg.container@ + "`..."@),
    )
}

/// The devshell is evaluated.
pub open spec fn goes_evaluate(run: Run) -> StepModel {
    go(
        run,
        Stage::Evaluate,
        line("evaluating devshell `"@ + run.cfg.devshell@ + "` with nix print-dev-env..."@),
        ActionModel::Evaluate(
            seq![
                "print-dev-env"@,
                "--profile"@,
                run.cfg.nix_profile_spec(),
                run.cfg.devshell@,
            ],
        ),
    )
}

/// The launch begins.
pub open spec fn goes_survey(run: Run, notes: Seq<char>) -> StepModel {
    go(
        run,
        Stage::Survey,
        notes + line("starting container `"@ + run.cfg.container@ + "`..."@),
        ActionModel::AskDir(run.cfg.project_root@ + "/.git"@),
    )
}

/// The line that starts the server inside the container.
pub open spec fn server_line(cfg: Config) -> Seq<char> {
    "source "@ + cfg.cache_file_spec() + " && exec "@ + cfg.server_bin@ + " --socket "@
        + cfg.socket@ + " --log-dir "@ + cfg.log_dir@ + " --timeout "@ + number::decimal(
        cfg.timeout as nat,
    )
}

/// The line of the interactive shell.
pub open spec fn shell_line(cfg: Config) -> Seq<char> {
    "source "@ + cfg.cache_file_spec() + " && exec "@ + cfg.bash_bin@
}

/// The line about a result that is worth telling.
pub open spec fn told(front: Seq<char>, stdout: Seq<char>) -> Seq<char> {
    if trimmed(stdout).len() > 0 {
        line(front + trimmed(stdout) + "`"@)
    } else {
        Seq::empty()
    }
}

/// What is said about a stop.
pub open spec fn stop_notes(label: Seq<char>, r: Result<PipedModel, Seq<char>>) -> Seq<char> {
    match checked(label, r) {
        Ok(stdout) => told("container stopped: `"@, stdout),
        Err(_) => echoed(r),
    }
}

/// The status report.
pub open spec fn status_lines(
    cfg: Config,
    id: Seq<char>,
    running: bool,
    cached: bool,
    usable: bool,
) -> Seq<Seq<char>> {
    let head = if running {
        seq![
            "container is running"@,
            "  id:      "@ + id,
            "  name:    "@ + cfg.container@,
            "  runtime: "@ + cfg.runtime.bin@,
            "  socket:  "@ + cfg.socket@,
        ]
    } else {
        seq![
            "container is not running"@,
            if cached {
                "  (cached environment exists — run `ncap-ctl start`)"@
            } else {
                "  (no cached environment — run `ncap-ctl init`)"@
            },
        ]
    };
    head.push(
        if usable {
            "  cache:   valid (direnv inputs unchanged)"@
        } else if cached {
            "  cache:   stale (will re-evaluate on init)"@
        } else {
            "  cache:   none"@
        },
    )
}

/// The report is printed, or the signal calls for another look at the cache.
pub open spec fn goes_report(run: Run, id: Seq<char>, running: bool, cached: bool) -> StepModel {
    if signalled(run.env@) {
        StepModel {
            stage: Stage::StatusUsable { cached, running },
            id,
            log: run.log@,
            notes: Seq::empty(),
            action: ActionModel::AskPresent(run.cfg.cache_file_spec()),
        }
    } else {
        StepModel {
            stage: Stage::Printing,
            id,
            log: run.log@,
            notes: Seq::empty(),
            action: ActionModel::Print(status_lines(run.cfg, id, running, cached, false)),
        }
    }
}

/// The pager of the environment, where it names anything at all.
pub open spec fn pager_of(vars: Map<Seq<char>, Seq<char>>) -> Option<Seq<char>> {
    if vars.contains_key("PAGER"@) && vars["PAGER"@].len() > 0 {
        Some(vars["PAGER"@])
    } else {
        None
    }
}

/// The pager that is run.
pub open spec fn pager_line(vars: Map<Seq<char>, Seq<char>>) -> Seq<char> {
    match pager_of(vars) {
        Some(pager) => pager,
        None => "less -R"@,
    }
}

/// The pager runs on the log.
pub open spec fn page(pager: Seq<Seq<char>>, log: Seq<char>) -> ActionModel {
    ActionModel::Page(pager[0], pager.drop_first().push(log))
}

/// The latest of the listed logs.
pub open spec fn latest_of(names: Seq<Seq<char>>) -> Option<Seq<char>> {
    if exists|i: int| #[trigger] is_latest(names, i) {
        Some(names[choose|i: int| #[trigger] is_latest(names, i)])
    } else {
        None
    }
}

/// The latest log is known.
pub open spec fn goes_log(run: Run, log: Seq<char>) -> StepModel {
    let step = StepModel {
        stage: Stage::LogShow,
        id: run.id@,
        log,
        notes: Seq::empty(),
        action: ActionModel::ShowFile(log),
    };
    if run.cmd == (Cmd::Log { no_pager: true }) {
        step
    } else {
        match pager_of(run.env@) {
            Some(pager) => StepModel { stage: Stage::LogPage, action: page(words(pager), log), ..step },
            None => StepModel { stage: Stage::LogLess, action: ActionModel::AskLess, ..step },
        }
    }
}

impl Run {
    /// A pager that is run, if one is, names a program.
    pub open spec fn pager_is_named(self) -> bool {
        self.cmd == (Cmd::Log { no_pager: false }) ==> (pager_of(self.env@) matches Some(pager)
            ==> words(pager).len() > 0)
    }

    /// The outcome does not start a pager that names no program: a log was
    /// found, and it is to be paged.
    pub open spec fn can_page(self, event: EventModel) -> bool {
        self.stage == Stage::LogList && (event matches EventModel::Listed(names) && latest_of(
            names,
        ) is Some) ==> self.pager_is_named()
    }
}

/// The first step of a command.
pub open spec fn first(run: Run) -> StepModel {
    let none = Seq::<char>::empty();
    match run.cmd {
        Cmd::Init => go(
            run,
            Stage::MakeDir,
            none,
            ActionModel::CreateDir(run.cfg.devshell_dir_spec()),
        ),
        Cmd::Start => goes_start(run, none),
        Cmd::Stop => goes_stop(run, After::End, none),
        Cmd::Restart => goes_restart(run),
        Cmd::Enter => go(
            run,
            Stage::EnterCache,
            none,
            ActionModel::AskPresent(run.cfg.cache_file_spec()),
        ),
        Cmd::ShowOptions => go(
            run,
            Stage::ShowSurvey,
            none,
            ActionModel::AskDir(run.cfg.project_root@ + "/.git"@),
        ),
        Cmd::Clean => goes_stop(
            run,
            After::Clean,
            line("cleaning all cached dev environments..."@),
        ),
        Cmd::Status => go(
            run,
            Stage::StatusCache,
            none,
            ActionModel::AskPresent(run.cfg.cache_file_spec()),
        ),
        Cmd::Log { .. } => go(
            run,
            Stage::LogPresent,
            none,
            ActionModel::AskPresent(run.cfg.log_dir@),
        ),
    }
}

/// The event is an outcome that the awaited step can have.
pub open spec fn accepts(stage: Stage, event: EventModel) -> bool {
    match stage {
        Stage::MakeDir | Stage::Dump | Stage::Wipe | Stage::SocketMake | Stage::CleanRemove
            | Stage::LogShow => event is Done || event is Failed,
        Stage::InitCache | Stage::Cache | Stage::SocketKind | Stage::SocketEntries | Stage::Survey
            | Stage::EnterCache | Stage::ShowSurvey | Stage::CleanPresent | Stage::StatusCache
            | Stage::StatusUsable { .. } | Stage::LogPresent | Stage::LogLess => event is Answer,
        Stage::Evaluate => event is Evaluated,
        Stage::Stopping { .. } | Stage::Running | Stage::Launch
            | Stage::StatusRunning { .. } | Stage::StatusId { .. } => event is Ran,
        Stage::EnterShell | Stage::LogPage => event is Exited,
        Stage::Printing => event is Done,
        Stage::LogList => event is Listed || event is Failed,
        Stage::Over => false,
    }
}

/// What an `init` does about the outcome of its last step.
pub open spec fn init_step(run: Run, event: EventModel) -> StepModel {
    let none = Seq::<char>::empty();
    match (run.stage, event) {
        (Stage::MakeDir, EventModel::Failed(source)) => fails(run, none, plain(seq![source])),
        (Stage::MakeDir, _) => if signalled(run.env@) {
            go(
                run,
                Stage::InitCache,
                none,
                ActionModel::AskPresent(run.cfg.cache_file_spec()),
            )
        } else {
            goes_evaluate(run)
        },
        (Stage::InitCache, EventModel::Answer(present)) => if present {
            goes_start(run, none)
        } else {
            goes_evaluate(run)
        },
        (Stage::Evaluate, EventModel::Evaluated(r, bytes)) => match checked("nix print-dev-env"@, r) {
            Ok(_) => go(
                run,
                Stage::Dump,
                none,
                ActionModel::WriteDump { path: run.cfg.cache_file_spec(), bytes },
            ),
            Err(report) => fails(
                run,
                echoed(r),
                suggesting(
                    wrapped("failed to evaluate devshell `"@ + run.cfg.devshell@ + "`"@, report),
                    "check that the flake attribute exists and Nix can evaluate it"@,
                ),
            ),
        },
        (Stage::Dump, EventModel::Failed(source)) => fails(run, none, plain(seq![source])),
        (Stage::Dump, _) => go(
            run,
            Stage::Wipe,
            line("devshell cached"@),
            ActionModel::WipeHistory(
                seq!["profile"@, "wipe-history"@, "--profile"@, run.cfg.nix_profile_spec()],
            ),
        ),
        (Stage::Wipe, EventModel::Failed(source)) => fails(
            run,
            none,
            plain(seq!["nix profile wipe-history"@, source]),
        ),
        (_, _) => goes_restart(run),
    }
}

/// What a stop comes to: by itself its failure is the command's; before a
/// start or a removal it does not matter.
pub open spec fn stop_step(run: Run, after: After, r: Result<PipedModel, Seq<char>>) -> StepModel {
    let label = run.cfg.runtime.bin@ + " stop"@;
    let notes = stop_notes(label, r);
    match after {
        After::End => match checked(label, r) {
            Ok(_) => succeeds(run, notes),
            Err(report) => fails(run, notes, report),
        },
        After::Start => goes_start(run, notes),
        After::Clean => go(
            run,
            Stage::CleanPresent,
            notes,
            ActionModel::AskPresent(cache_root_spec(run.cfg.project_root@)),
        ),
    }
}

/// What a start does about the outcome of its last step.
pub open spec fn start_step(run: Run, event: EventModel) -> StepModel {
    let none = Seq::<char>::empty();
    let dir = run.cfg.socket_dir@;
    match (run.stage, event) {
        (Stage::Running, EventModel::Ran(r)) => if runs(r) {
            succeeds(run, line("container `"@ + run.cfg.container@ + "` is already running"@))
        } else {
            go(run, Stage::Cache, none, ActionModel::AskPresent(run.cfg.cache_file_spec()))
        },
        (Stage::Cache, EventModel::Answer(present)) => if present {
            go(run, Stage::SocketKind, none, ActionModel::AskRealDir(dir))
        } else {
            fails(run, none, no_cache())
        },
        (Stage::SocketKind, EventModel::Answer(is_dir)) => if is_dir {
            go(run, Stage::SocketEntries, none, ActionModel::AskEntries(dir))
        } else {
            go(run, Stage::SocketMake, none, ActionModel::CreateDir(dir))
        },
        (Stage::SocketEntries, EventModel::Answer(filled)) => goes_survey(
            run,
            if filled {
                line("socket directory `"@ + dir + "` is not empty"@)
            } else {
                none
            },
        ),
        (Stage::SocketMake, EventModel::Failed(source)) => fails(run, none, plain(seq![source])),
        (Stage::SocketMake, _) => goes_survey(
            run,
            line("created socket directory `"@ + dir + "`"@),
        ),
        (Stage::Survey, EventModel::Answer(git_is_dir)) => go(
            run,
            Stage::Launch,
            none,
            ActionModel::Capture(
                run_argv(
                    run.cfg.run_args_spec(git_is_dir, run.env@),
                    run.cfg.image@,
                    run.cfg.bash_bin@,
                    server_line(run.cfg),
                ),
            ),
        ),
        (_, EventModel::Ran(r)) => match checked(run.cfg.runtime.bin@ + " run"@, r) {
            Ok(stdout) => succeeds(run, told("container started: `"@, stdout)),
            Err(report) => fails(run, echoed(r), report),
        },
        (_, _) => succeeds(run, none),
    }
}

/// What the remaining commands do about the outcome of their last step.
pub open spec fn other_step(run: Run, event: EventModel) -> StepModel {
    let none = Seq::<char>::empty();
    let cache = cache_root_spec(run.cfg.project_root@);
    match (run.stage, event) {
        (Stage::EnterCache, EventModel::Answer(present)) => if present {
            go(
                run,
                Stage::EnterShell,
                none,
                ActionModel::Shell(
                    seq![
                        "exec"@,
                        "-it"@,
                        run.cfg.container@,
                        run.cfg.bash_bin@,
                        "-c"@,
                        shell_line(run.cfg),
                    ],
                ),
            )
        } else {
            fails(run, none, no_cache())
        },
        (Stage::EnterShell, EventModel::Exited(Ok(code))) => go(
            run,
            Stage::Over,
            none,
            ActionModel::Exit(
                match code {
                    Some(code) => code,
                    None => 1,
                },
            ),
        ),
        (Stage::EnterShell, EventModel::Exited(Err(source))) => fails(
            run,
            none,
            suggesting(
                plain(seq!["failed to enter container"@, source]),
                "check that the container is running (`ncap-ctl start`)"@,
            ),
        ),
        (Stage::ShowSurvey, EventModel::Answer(git_is_dir)) => go(
            run,
            Stage::Printing,
            none,
            ActionModel::Print(run.cfg.run_args_spec(git_is_dir, run.env@)),
        ),
        (Stage::CleanPresent, EventModel::Answer(present)) => if present {
            go(run, Stage::CleanRemove, none, ActionModel::RemoveTree(cache))
        } else {
            succeeds(run, none)
        },
        (Stage::CleanRemove, EventModel::Failed(source)) => fails(
            run,
            none,
            plain(seq!["failed to remove `"@ + cache + "`"@, source]),
        ),
        (Stage::CleanRemove, _) => succeeds(run, line("removed `"@ + cache + "`"@)),
        (Stage::StatusCache, EventModel::Answer(cached)) => StepModel {
            stage: Stage::StatusRunning { cached },
            ..goes_start(run, none)
        },
        (Stage::StatusRunning { cached }, EventModel::Ran(r)) => if runs(r) {
            go(
                run,
                Stage::StatusId { cached },
                none,
                ActionModel::Inspect(seq!["inspect"@, "-f"@, "{{.Id}}"@, run.cfg.container@]),
            )
        } else {
            goes_report(run, run.id@, false, cached)
        },
        (Stage::StatusId { cached }, EventModel::Ran(Ok(piped))) => goes_report(
            run,
            trimmed(piped.stdout),
            true,
            cached,
        ),
        (Stage::StatusId { .. }, EventModel::Ran(Err(source))) => fails(
            run,
            none,
            plain(seq!["failed to inspect container"@, source]),
        ),
        (Stage::StatusUsable { cached, running }, EventModel::Answer(usable)) => go(
            run,
            Stage::Printing,
            none,
            ActionModel::Print(status_lines(run.cfg, run.id@, running, cached, usable)),
        ),
        (_, _) => succeeds(run, none),
    }
}

/// What `log` does about the outcome of its last step.
pub open spec fn log_step(run: Run, event: EventModel) -> StepModel {
    let none = Seq::<char>::empty();
    let dir = run.cfg.log_dir@;
    match (run.stage, event) {
        (Stage::LogPresent, EventModel::Answer(present)) => if present {
            go(run, Stage::LogList, none, ActionModel::ListDir(dir))
        } else {
            fails(run, none, plain(seq!["log directory does not exist: `"@ + dir + "`"@]))
        },
        (Stage::LogList, EventModel::Failed(source)) => fails(
            run,
            none,
            plain(seq!["failed to read log directory `"@ + dir + "`"@, source]),
        ),
        (Stage::LogList, EventModel::Listed(names)) => match latest_of(names) {
            Some(name) => goes_log(run, join_spec(dir, name)),
            None => fails(run, none, plain(seq!["no log files found in `"@ + dir + "`"@])),
        },
        (Stage::LogLess, EventModel::Answer(there)) => if there {
            go(run, Stage::LogPage, none, page(seq!["less"@, "-R"@], run.log@))
        } else {
            go(run, Stage::LogShow, none, ActionModel::ShowFile(run.log@))
        },
        (Stage::LogPage, EventModel::Exited(Err(source))) => fails(
            run,
            none,
            plain(seq!["failed to run pager `"@ + pager_line(run.env@) + "`"@, source]),
        ),
        (Stage::LogShow, EventModel::Failed(source)) => fails(
            run,
            none,
            plain(seq!["failed to read `"@ + run.log@ + "`"@, source]),
        ),
        (_, _) => succeeds(run, none),
    }
}

/// What a command does about the outcome of its last step.
pub open spec fn next(run: Run, event: EventModel) -> StepModel {
    match run.stage {
        Stage::MakeDir | Stage::InitCache | Stage::Evaluate | Stage::Dump
            | Stage::Wipe => init_step(run, event),
        Stage::Stopping { after } => stop_step(run, after, event->Ran_0),
        Stage::Running | Stage::Cache | Stage::SocketKind | Stage::SocketEntries
            | Stage::SocketMake | Stage::Survey | Stage::Launch => start_step(run, event),
        Stage::LogPresent | Stage::LogList | Stage::LogLess | Stage::LogPage
            | Stage::LogShow => log_step(run, event),
        _ => other_step(run, event),
    }
}

// ---------------------------------------------------------------------------
// The steps
// ---------------------------------------------------------------------------

/// What a step came to.
pub open spec fn made(after: Run, turn: Turn) -> StepModel {
    StepModel {
        stage: after.stage,
        id: after.id@,
        log: after.log@,
        notes: turn.notes@,
        action: turn.action@,
    }
}

/// The command, its settings and its environment stay the same.
pub open spec fn same_command(before: Run, after: Run) -> bool {
    after.cmd == before.cmd && after.cfg == before.cfg && after.env == before.env
}

/// `front`, `middle` and `back` in a row.
fn three(front: &str, middle: &str, back: &str) -> (out: String)
    ensures
        out@ == front@ + middle@ + back@,
{
    let mut out = front.to_owned();
    out.append(middle);
    out.append(back);
    out
}

/// The same as a line of its own.
fn three_line(front: &str, middle: &str, back: &str) -> (out: String)
    ensures
        out@ == line(front@ + middle@ + back@),
{
    let mut out = three(front, middle, back);
    out.append("\n");
    out
}

/// The line about a result that is worth telling.
fn tell(front: &str, stdout: &str) -> (out: String)
    ensures
        out@ == told(front@, stdout@),
{
    let message = text::trim(stdout);
    if message.as_str().is_empty() {
        String::new()
    } else {
        three_line(front, message.as_str(), "`")
    }
}

/// A message and its cause.
fn caused(message: String, source: String) -> (r: Report)
    ensures
        r@ == plain(seq![message@, source@]),
{
    let r = Report::new(source).wrap(message);
    proof {
        assert(r@.chain =~= seq![message@, source@]);
    }
    r
}

fn no_cache_report() -> (r: Report)
    ensures
        r@ == no_cache(),
{
    Report::new("no cached dev environment found".to_owned()).suggest("run `ncap-ctl init` first")
}

fn render_server_line(cfg: &Config) -> (out: String)
    ensures
        out@ == server_line(*cfg),
{
    let mut out = "source ".to_owned();
    out.append(cfg.cache_file().as_str());
    out.append(" && exec ");
    out.append(cfg.server_bin.as_str());
    out.append(" --socket ");
    out.append(cfg.socket.as_str());
    out.append(" --log-dir ");
    out.append(cfg.log_dir.as_str());
    out.append(" --timeout ");
    out.append(number::format_decimal(cfg.timeout as u128).as_str());
    out
}

fn render_shell_line(cfg: &Config) -> (out: String)
    ensures
        out@ == shell_line(*cfg),
{
    let mut out = "source ".to_owned();
    out.append(cfg.cache_file().as_str());
    out.append(" && exec ");
    out.append(cfg.bash_bin.as_str());
    out
}

fn git_path(cfg: &Config) -> (out: String)
    ensures
        out@ == cfg.project_root@ + "/.git"@,
{
    let mut out = cfg.project_root.clone();
    out.append("/.git");
    out
}

fn labelled(word: &str, front: &str) -> (out: String)
    ensures
        out@ == word@ + front@,
{
    let mut out = word.to_owned();
    out.append(front);
    out
}

/// The status report.
fn report_lines(cfg: &Config, id: &str, running: bool, cached: bool, usable: bool) -> (out: Vec<
    String,
>)
    ensures
        views(out@) == status_lines(*cfg, id@, running, cached, usable),
{
    let mut out: Vec<String> = Vec::new();
    if running {
        push_text(&mut out, "container is running");
        push_text(&mut out, labelled("  id:      ", id).as_str());
        push_text(&mut out, labelled("  name:    ", cfg.container.as_str()).as_str());
        push_text(&mut out, labelled("  runtime: ", cfg.runtime.bin()).as_str());
        push_text(&mut out, labelled("  socket:  ", cfg.socket.as_str()).as_str());
    } else {
        push_text(&mut out, "container is not running");
        if cached {
            push_text(&mut out, "  (cached environment exists — run `ncap-ctl start`)");
        } else {
            push_text(&mut out, "  (no cached environment — run `ncap-ctl init`)");
        }
    }
    if usable {
        push_text(&mut out, "  cache:   valid (direnv inputs unchanged)");
    } else if cached {
        push_text(&mut out, "  cache:   stale (will re-evaluate on init)");
    } else {
        push_text(&mut out, "  cache:   none");
    }
    proof {
        assert(views(out@) =~= status_lines(*cfg, id@, running, cached, usable));
    }
    out
}

/// The path of the latest listed log.
fn find_latest(dir: &str, names: &Vec<String>) -> (r: Option<String>)
    ensures
        match latest_of(views(names@)) {
            Some(name) => r is Some && r->0@ == join_spec(dir@, name),
            None => r is None,
        },
{
    let ghost all = views(names@);
    match latest_log(names) {
        Some(i) => {
            proof {
                let j = choose|j: int| #[trigger] is_latest(all, j);
                assert(is_latest(all, i as int));
                assert(path::log_secs(all[i as int]) is Some);
                assert(path::log_secs(all[j]) is Some);
                assert(i == j);
            }
            Some(pathname::join(dir, names[i].as_str()))
        },
        None => {
            proof {
                assert forall|i: int| !(#[trigger] is_latest(all, i)) by {
                    if 0 <= i < all.len() {
                        assert(path::log_secs(all[i]) is None);
                    }
                }
            }
            None
        },
    }
}

impl Run {
    fn go(&mut self, stage: Stage, notes: String, action: Action) -> (turn: Turn)
        ensures
            same_command(*old(self), *final(self)),
            made(*final(self), turn) == go(*old(self), stage, notes@, action@),
    {
        self.stage = stage;
        Turn { notes, action }
    }

    fn quietly(&mut self, stage: Stage, action: Action) -> (turn: Turn)
        ensures
            same_command(*old(self), *final(self)),
            made(*final(self), turn) == go(*old(self), stage, Seq::empty(), action@),
    {
        let notes = String::new();
        proof {
            assert(notes@ =~= Seq::<char>::empty());
        }
        self.go(stage, notes, action)
    }

    fn succeed(&mut self, notes: String) -> (turn: Turn)
        ensures
            same_command(*old(self), *final(self)),
            made(*final(self), turn) == succeeds(*old(self), notes@),
    {
        self.go(Stage::Over, notes, Action::Finish(Ok(())))
    }

    fn fail(&mut self, report: Report) -> (turn: Turn)
        ensures
            same_command(*old(self), *final(self)),
            made(*final(self), turn) == fails(*old(self), Seq::empty(), report@),
    {
        self.quietly(Stage::Over, Action::Finish(Err(report)))
    }

    fn finish(&mut self) -> (turn: Turn)
        ensures
            same_command(*old(self), *final(self)),
            made(*final(self), turn) == succeeds(*old(self), Seq::empty()),
    {
        self.quietly(Stage::Over, Action::Finish(Ok(())))
    }

    fn start(&mut self, stage: Stage, notes: String) -> (turn: Turn)
        ensures
            same_command(*old(self), *final(self)),
            made(*final(self), turn) == (StepModel { stage, ..goes_start(*old(self), notes@) }),
    {
        let args = self.cfg.runtime.is_running(self.cfg.container.as_str());
        self.go(stage, notes, Action::Inspect(args))
    }

    fn stop(&mut self, after: After, notes: String) -> (turn: Turn)
        ensures
            same_command(*old(self), *final(self)),
            made(*final(self), turn) == goes_stop(*old(self), after, notes@),
    {
        let mut all = notes;
        all.append(
            three_line("stopping container `", self.cfg.container.as_str(), "`...").as_str(),
        );
        let args = self.cfg.runtime.stop(self.cfg.container.as_str());
        self.go(Stage::Stopping { after }, all, Action::Capture(args))
    }

    fn restart(&mut self) -> (turn: Turn)
        ensures
            same_command(*old(self), *final(self)),
            made(*final(self), turn) == goes_restart(*old(self)),
    {
        let notes = three_line("restarting container `", self.cfg.container.as_str(), "`...");
        self.stop(After::Start, notes)
    }

    fn evaluate(&mut self) -> (turn: Turn)
        ensures
            same_command(*old(self), *final(self)),
            made(*final(self), turn) == goes_evaluate(*old(self)),
    {
        let notes = three_line(
            "evaluating devshell `",
            self.cfg.devshell.as_str(),
            "` with nix print-dev-env...",
        );
        let args = self.cfg.nix.print_dev_env(
            self.cfg.nix_profile().as_str(),
            self.cfg.devshell.as_str(),
        );
        self.go(Stage::Evaluate, notes, Action::Evaluate(args))
    }

    fn survey(&mut self, notes: String) -> (turn: Turn)
        ensures
            same_command(*old(self), *final(self)),
            made(*final(self), turn) == goes_survey(*old(self), notes@),
    {
        let mut all = notes;
        all.append(
            three_line("starting container `", self.cfg.container.as_str(), "`...").as_str(),
        );
        let git = git_path(&self.cfg);
        self.go(Stage::Survey, all, Action::AskDir(git))
    }

    fn ask_cache(&mut self, stage: Stage) -> (turn: Turn)
        ensures
            same_command(*old(self), *final(self)),
            made(*final(self), turn) == go(
                *old(self),
                stage,
                Seq::empty(),
                ActionModel::AskPresent(old(self).cfg.cache_file_spec()),
            ),
    {
        let file = self.cfg.cache_file();
        self.quietly(stage, Action::AskPresent(file))
    }

    fn print(&mut self, lines: Vec<String>) -> (turn: Turn)
        ensures
            same_command(*old(self), *final(self)),
            made(*final(self), turn) == go(
                *old(self),
                Stage::Printing,
                Seq::empty(),
                ActionModel::Print(views(lines@)),
            ),
    {
        self.quietly(Stage::Printing, Action::Print(lines))
    }

    fn report(&mut self, running: bool, cached: bool) -> (turn: Turn)
        ensures
            same_command(*old(self), *final(self)),
            made(*final(self), turn) == goes_report(*old(self), old(self).id@, running, cached),
    {
        if cache_signal(&self.env) {
            self.ask_cache(Stage::StatusUsable { cached, running })
        } else {
            let lines = report_lines(&self.cfg, self.id.as_str(), running, cached, false);
            self.print(lines)
        }
    }

    fn show_log(&mut self) -> (turn: Turn)
        requires
            old(self).pager_is_named(),
            old(self).cmd is Log,
        ensures
            same_command(*old(self), *final(self)),
            made(*final(self), turn) == goes_log(*old(self), old(self).log@),
    {
        let log = self.log.clone();
        if let Cmd::Log { no_pager: true } = self.cmd {
            return self.quietly(Stage::LogShow, Action::ShowFile(log));
        }
        match self.env.get_non_empty("PAGER") {
            Some(pager) => {
                let mut parts = text::split_words(pager.as_str());
                let ghost all = views(parts@);
                let program = parts.remove(0);
                push_text(&mut parts, log.as_str());
                proof {
                    assert(program@ == all[0]);
                    assert(views(parts@) =~= all.drop_first().push(log@));
                }
                self.quietly(Stage::LogPage, Action::Page(program, parts))
            },
            None => self.quietly(Stage::LogLess, Action::AskLess),
        }
    }

    /// A command at its first step.
    pub fn begin(cmd: Cmd, cfg: Config, env: Environment) -> (r: (Run, Turn))
        ensures
            r.0.cmd == cmd,
            r.0.cfg == cfg,
            r.0.env == env,
            made(r.0, r.1) == first(r.0),
            r.0.id@.len() == 0,
            r.0.log@.len() == 0,
            in_step(r.0),
    {
        let mut run = Run {
            cmd,
            cfg,
            env,
            stage: Stage::Over,
            id: String::new(),
            log: String::new(),
        };
        let turn = match cmd {
            Cmd::Init => {
                let dir = run.cfg.devshell_dir();
                run.quietly(Stage::MakeDir, Action::CreateDir(dir))
            },
            Cmd::Start => run.start(Stage::Running, String::new()),
            Cmd::Stop => run.stop(After::End, String::new()),
            Cmd::Restart => run.restart(),
            Cmd::Enter => run.ask_cache(Stage::EnterCache),
            Cmd::ShowOptions => {
                let git = git_path(&run.cfg);
                run.quietly(Stage::ShowSurvey, Action::AskDir(git))
            },
            Cmd::Clean => run.stop(
                After::Clean,
                "cleaning all cached dev environments...\n".to_owned(),
            ),
            Cmd::Status => run.ask_cache(Stage::StatusCache),
            Cmd::Log { .. } => {
                let dir = run.cfg.log_dir.clone();
                run.quietly(Stage::LogPresent, Action::AskPresent(dir))
            },
        };
        proof {
            reveal_strlit("cleaning all cached dev environments...\n");
            reveal_strlit("cleaning all cached dev environments...");
            reveal_strlit("\n");
            assert("cleaning all cached dev environments...\n"@ =~= line(
                "cleaning all cached dev environments..."@,
            ));
        }
        (run, turn)
    }

    /// Whether the outcome can be taken in: it does not start a pager that
    /// names no program.
    pub fn pages(&self, event: &Event) -> (r: bool)
        ensures
            r == self.can_page(event@),
    {
        let names = match event {
            Event::Listed(names) => names,
            _ => return true,
        };
        if self.stage != Stage::LogList || self.cmd != (Cmd::Log { no_pager: false }) {
            return true;
        }
        match self.env.get_non_empty("PAGER") {
            Some(pager) => text::split_words(pager.as_str()).len() > 0 || find_latest(
                self.cfg.log_dir.as_str(),
                names,
            ).is_none(),
            None => true,
        }
    }

    /// Take in the outcome of the last step and say what to do next.
    pub fn step(&mut self, event: Event) -> (turn: Turn)
        requires
            in_step(*old(self)),
            old(self).can_page(event@),
            accepts(old(self).stage, event@),
        ensures
            same_command(*old(self), *final(self)),
            made(*final(self), turn) == next(*old(self), event@),
            in_step(*final(self)),
    {
        match self.stage {
            Stage::MakeDir | Stage::InitCache | Stage::Evaluate | Stage::Dump
                | Stage::Wipe => self.step_init(event),
            Stage::Stopping { after } => self.step_stop(after, event),
            Stage::Running | Stage::Cache | Stage::SocketKind | Stage::SocketEntries
                | Stage::SocketMake | Stage::Survey | Stage::Launch => self.step_start(event),
            Stage::LogPresent | Stage::LogList | Stage::LogLess | Stage::LogPage
                | Stage::LogShow => self.step_log(event),
            _ => self.step_other(event),
        }
    }

    fn step_init(&mut self, event: Event) -> (turn: Turn)
        requires
            accepts(old(self).stage, event@),
            old(self).stage is MakeDir || old(self).stage is InitCache || old(self).stage
                is Evaluate || old(self).stage is Dump || old(self).stage is Wipe,
        ensures
            same_command(*old(self), *final(self)),
            made(*final(self), turn) == init_step(*old(self), event@),
    {
        match (self.stage, event) {
            (Stage::MakeDir, Event::Failed(source)) => self.fail(Report::new(source)),
            (Stage::MakeDir, _) => if cache_signal(&self.env) {
                self.ask_cache(Stage::InitCache)
            } else {
                self.evaluate()
            },
            (Stage::InitCache, Event::Answer(true)) => self.start(Stage::Running, String::new()),
            (Stage::InitCache, _) => self.evaluate(),
            (Stage::Evaluate, Event::Evaluated(r, bytes)) => {
                let (result, echo) = run_piped("nix print-dev-env", r);
                match result {
                    Ok(_) => {
                        let path = self.cfg.cache_file();
                        self.quietly(Stage::Dump, Action::WriteDump { path, bytes })
                    },
                    Err(report) => {
                        let message = three(
                            "failed to evaluate devshell `",
                            self.cfg.devshell.as_str(),
                            "`",
                        );
                        let report = report.wrap(message).suggest(
                            "check that the flake attribute exists and Nix can evaluate it",
                        );
                        self.go(Stage::Over, echo, Action::Finish(Err(report)))
                    },
                }
            },
            (Stage::Dump, Event::Failed(source)) => self.fail(Report::new(source)),
            (Stage::Dump, _) => {
                let mut notes = "devshell cached".to_owned();
                notes.append("\n");
                let args = self.cfg.nix.wipe_history(self.cfg.nix_profile().as_str());
                self.go(Stage::Wipe, notes, Action::WipeHistory(args))
            },
            (Stage::Wipe, Event::Failed(source)) => self.fail(
                caused("nix profile wipe-history".to_owned(), source),
            ),
            _ => self.restart(),
        }
    }

    fn step_stop(&mut self, after: After, event: Event) -> (turn: Turn)
        requires
            event is Ran,
        ensures
            same_command(*old(self), *final(self)),
            made(*final(self), turn) == stop_step(*old(self), after, event@->Ran_0),
    {
        let r = match event {
            Event::Ran(r) => r,
            _ => return self.finish(),
        };
        let label = labelled(self.cfg.runtime.bin(), " stop");
        let (result, echo) = run_piped(label.as_str(), r);
        let (notes, fault) = match result {
            Ok(stdout) => (tell("container stopped: `", stdout.as_str()), None),
            Err(report) => (echo, Some(report)),
        };
        match after {
            After::End => match fault {
                None => self.succeed(notes),
                Some(report) => self.go(Stage::Over, notes, Action::Finish(Err(report))),
            },
            After::Start => self.start(Stage::Running, notes),
            After::Clean => {
                let cache = path::cache_root(self.cfg.project_root.as_str());
                self.go(Stage::CleanPresent, notes, Action::AskPresent(cache))
            },
        }
    }

    fn step_start(&mut self, event: Event) -> (turn: Turn)
        requires
            accepts(old(self).stage, event@),
            old(self).stage is Running || old(self).stage is Cache || old(self).stage is SocketKind
                || old(self).stage is SocketEntries || old(self).stage is SocketMake
                || old(self).stage is Survey || old(self).stage is Launch,
        ensures
            same_command(*old(self), *final(self)),
            made(*final(self), turn) == start_step(*old(self), event@),
    {
        match (self.stage, event) {
            (Stage::Running, Event::Ran(r)) => if tools::says_running(&r) {
                let notes = three_line(
                    "container `",
                    self.cfg.container.as_str(),
                    "` is already running",
                );
                self.succeed(notes)
            } else {
                self.ask_cache(Stage::Cache)
            },
            (Stage::Cache, Event::Answer(true)) => {
                let dir = self.cfg.socket_dir.clone();
                self.quietly(Stage::SocketKind, Action::AskRealDir(dir))
            },
            (Stage::Cache, _) => self.fail(no_cache_report()),
            (Stage::SocketKind, Event::Answer(true)) => {
                let dir = self.cfg.socket_dir.clone();
                self.quietly(Stage::SocketEntries, Action::AskEntries(dir))
            },
            (Stage::SocketKind, _) => {
                let dir = self.cfg.socket_dir.clone();
                self.quietly(Stage::SocketMake, Action::CreateDir(dir))
            },
            (Stage::SocketEntries, Event::Answer(true)) => {
                let notes = three_line(
                    "socket directory `",
                    self.cfg.socket_dir.as_str(),
                    "` is not empty",
                );
                self.survey(notes)
            },
            (Stage::SocketEntries, _) => self.survey(String::new()),
            (Stage::SocketMake, Event::Failed(source)) => self.fail(Report::new(source)),
            (Stage::SocketMake, _) => {
                let notes = three_line(
                    "created socket directory `",
                    self.cfg.socket_dir.as_str(),
                    "`",
                );
                self.survey(notes)
            },
            (Stage::Survey, Event::Answer(git_is_dir)) => {
                let container_args = self.cfg.run_args(git_is_dir, &self.env);
                let command = render_server_line(&self.cfg);
                let args = self.cfg.runtime.run(
                    &container_args,
                    self.cfg.image.as_str(),
                    self.cfg.bash_bin.as_str(),
                    command.as_str(),
                );
                self.quietly(Stage::Launch, Action::Capture(args))
            },
            (_, Event::Ran(r)) => {
                let label = labelled(self.cfg.runtime.bin(), " run");
                let (result, echo) = run_piped(label.as_str(), r);
                match result {
                    Ok(stdout) => {
                        let notes = tell("container started: `", stdout.as_str());
                        self.succeed(notes)
                    },
                    Err(report) => self.go(Stage::Over, echo, Action::Finish(Err(report))),
                }
            },
            _ => self.finish(),
        }
    }

    fn step_other(&mut self, event: Event) -> (turn: Turn)
        requires
            accepts(old(self).stage, event@),
        ensures
            same_command(*old(self), *final(self)),
            made(*final(self), turn) == other_step(*old(self), event@),
    {
        match (self.stage, event) {
            (Stage::EnterCache, Event::Answer(true)) => {
                let command = render_shell_line(&self.cfg);
                let args = self.cfg.runtime.exec_interactive(
                    self.cfg.container.as_str(),
                    self.cfg.bash_bin.as_str(),
                    command.as_str(),
                );
                self.quietly(Stage::EnterShell, Action::Shell(args))
            },
            (Stage::EnterCache, _) => self.fail(no_cache_report()),
            (Stage::EnterShell, Event::Exited(Ok(code))) => {
                let code: i32 = match code {
                    Some(code) => code,
                    None => 1,
                };
                self.quietly(Stage::Over, Action::Exit(code))
            },
            (Stage::EnterShell, Event::Exited(Err(source))) => self.fail(
                caused("failed to enter container".to_owned(), source).suggest(
                    "check that the container is running (`ncap-ctl start`)",
                ),
            ),
            (Stage::ShowSurvey, Event::Answer(git_is_dir)) => {
                let lines = self.cfg.run_args(git_is_dir, &self.env);
                self.print(lines)
            },
            (Stage::CleanPresent, Event::Answer(true)) => {
                let cache = path::cache_root(self.cfg.project_root.as_str());
                self.quietly(Stage::CleanRemove, Action::RemoveTree(cache))
            },
            (Stage::CleanRemove, Event::Failed(source)) => {
                let cache = path::cache_root(self.cfg.project_root.as_str());
                let message = three("failed to remove `", cache.as_str(), "`");
                self.fail(caused(message, source))
            },
            (Stage::CleanRemove, _) => {
                let cache = path::cache_root(self.cfg.project_root.as_str());
                let notes = three_line("removed `", cache.as_str(), "`");
                self.succeed(notes)
            },
            (Stage::StatusCache, Event::Answer(cached)) => self.start(
                Stage::StatusRunning { cached },
                String::new(),
            ),
            (Stage::StatusRunning { cached }, Event::Ran(r)) => if tools::says_running(&r) {
                let args = self.cfg.runtime.container_id(self.cfg.container.as_str());
                self.quietly(Stage::StatusId { cached }, Action::Inspect(args))
            } else {
                self.report(false, cached)
            },
            (Stage::StatusId { cached }, Event::Ran(Ok(piped))) => {
                self.id = text::trim(piped.stdout.as_str());
                self.report(true, cached)
            },
            (Stage::StatusId { .. }, Event::Ran(Err(source))) => self.fail(
                caused("failed to inspect container".to_owned(), source),
            ),
            (Stage::StatusUsable { cached, running }, Event::Answer(usable)) => {
                let lines = report_lines(&self.cfg, self.id.as_str(), running, cached, usable);
                self.print(lines)
            },
            _ => self.finish(),
        }
    }

    fn step_log(&mut self, event: Event) -> (turn: Turn)
        requires
            old(self).can_page(event@),
            old(self).cmd is Log,
            accepts(old(self).stage, event@),
            old(self).stage is LogPresent || old(self).stage is LogList || old(self).stage
                is LogLess || old(self).stage is LogPage || old(self).stage is LogShow,
        ensures
            same_command(*old(self), *final(self)),
            made(*final(self), turn) == log_step(*old(self), event@),
    {
        match (self.stage, event) {
            (Stage::LogPresent, Event::Answer(true)) => {
                let dir = self.cfg.log_dir.clone();
                self.quietly(Stage::LogList, Action::ListDir(dir))
            },
            (Stage::LogPresent, _) => {
                let message = three(
                    "log directory does not exist: `",
                    self.cfg.log_dir.as_str(),
                    "`",
                );
                self.fail(Report::new(message))
            },
            (Stage::LogList, Event::Failed(source)) => {
                let message = three(
                    "failed to read log directory `",
                    self.cfg.log_dir.as_str(),
                    "`",
                );
                self.fail(caused(message, source))
            },
            (Stage::LogList, Event::Listed(names)) => match find_latest(
                self.cfg.log_dir.as_str(),
                &names,
            ) {
                Some(log) => {
                    self.log = log;
                    self.show_log()
                },
                None => {
                    let message = three("no log files found in `", self.cfg.log_dir.as_str(), "`");
                    self.fail(Report::new(message))
                },
            },
            (Stage::LogLess, Event::Answer(true)) => {
                let mut args: Vec<String> = Vec::new();
                push_text(&mut args, "-R");
                push_text(&mut args, self.log.as_str());
                proof {
                    let less = seq!["less"@, "-R"@];
                    assert(views(args@) =~= less.drop_first().push(self.log@));
                }
                self.quietly(Stage::LogPage, Action::Page("less".to_owned(), args))
            },
            (Stage::LogLess, _) => {
                let log = self.log.clone();
                self.quietly(Stage::LogShow, Action::ShowFile(log))
            },
            (Stage::LogPage, Event::Exited(Err(source))) => {
                let pager = match self.env.get_non_empty("PAGER") {
                    Some(pager) => pager,
                    None => "less -R".to_owned(),
                };
                let message = three("failed to run pager `", pager.as_str(), "`");
                self.fail(caused(message, source))
            },
            (Stage::LogShow, Event::Failed(source)) => {
                let message = three("failed to read `", self.log.as_str(), "`");
                self.fail(caused(message, source))
            },
            _ => self.finish(),
        }
    }
}

/// The stages of the log belong to the log.
pub open spec fn in_step(run: Run) -> bool {
    match run.stage {
        Stage::LogPresent | Stage::LogList | Stage::LogLess | Stage::LogPage
            | Stage::LogShow => run.cmd is Log,
        _ => true,
    }
}

// ---------------------------------------------------------------------------
// What holds of every run
// ---------------------------------------------------------------------------

/// A command is over exactly when it reports a result or exits.
pub proof fn law_devshell_command_ends_with_a_result(run: Run, event: EventModel)
    requires
        accepts(run.stage, event),
    ensures
        ({
            let step = next(run, event);
            (step.stage == Stage::Over) <==> (step.action is Finish || step.action is Exit)
        }),
{
}

/// With the direnv signal and an activation script `init` goes straight to
/// the start; without either it evaluates, and nothing else ever does.
pub proof fn law_valid_cache_skips_the_evaluation(run: Run, event: EventModel)
    requires
        accepts(run.stage, event),
    ensures
        next(run, event).action is Evaluate <==> (run.stage == Stage::MakeDir && event is Done
            && !signalled(run.env@)) || (run.stage == Stage::InitCache && event
            == EventModel::Answer(false)),
        run.stage == Stage::InitCache && event == EventModel::Answer(true) ==> next(run, event)
            == goes_start(run, Seq::empty()),
{
}

/// The activation script holds exactly what nix printed, and it is written
/// only where the evaluation exited with 0.
pub proof fn law_activation_script_is_what_nix_printed(run: Run, event: EventModel)
    requires
        accepts(run.stage, event),
    ensures
        next(run, event).action matches ActionModel::WriteDump { path, bytes } ==> {
            &&& run.stage == Stage::Evaluate
            &&& event matches EventModel::Evaluated(Ok(piped), printed)
            &&& piped.success
            &&& path == run.cfg.cache_file_spec()
            &&& bytes == printed
        },
        run.stage == Stage::Evaluate && !(next(run, event).action is WriteDump) ==> (next(
            run,
            event,
        ).action matches ActionModel::Finish(r) && r is Err),
{
}

/// A failed stop does not keep a restart from starting.
pub proof fn law_restart_survives_a_failed_stop(run: Run, r: Result<PipedModel, Seq<char>>)
    requires
        run.stage == (Stage::Stopping { after: After::Start }),
    ensures
        next(run, EventModel::Ran(r)).stage == Stage::Running,
{
}

/// The container is launched only where there is an activation script: a
/// start comes past the look for it, and without one it ends in the failure
/// that says so.
pub proof fn law_no_launch_without_a_cache(run: Run, event: EventModel)
    requires
        accepts(run.stage, event),
    ensures
        next(run, event).stage == Stage::Launch ==> run.stage == Stage::Survey,
        next(run, event).stage == Stage::Survey ==> run.stage == Stage::SocketEntries || run.stage
            == Stage::SocketMake,
        next(run, event).stage == Stage::SocketEntries || next(run, event).stage
            == Stage::SocketMake ==> run.stage == Stage::SocketKind,
        next(run, event).stage == Stage::SocketKind ==> run.stage == Stage::Cache && event
            == EventModel::Answer(true),
        run.stage == Stage::Cache && event == EventModel::Answer(false) ==> next(run, event)
            == fails(run, Seq::empty(), no_cache()),
{
}

/// Each command begins with its own first step, and says what it is about to
/// do to a container that it stops.
pub proof fn law_devshell_commands_begin(run: Run)
    ensures
        ({
            let step = first(run);
            let container = run.cfg.container@;
            let stop = ActionModel::Capture(seq!["stop"@, container]);
            let git = run.cfg.project_root@ + "/.git"@;
            &&& run.cmd == Cmd::Init ==> step.action == ActionModel::CreateDir(
                run.cfg.devshell_dir_spec(),
            )
            &&& run.cmd == Cmd::Start ==> step.action == ActionModel::Inspect(
                seq!["inspect"@, "-f"@, "{{.State.Running}}"@, container],
            )
            &&& run.cmd == Cmd::Stop ==> step.action == stop && step.notes
                == "stopping container `"@ + container + "`..."@ + "\n"@
            &&& run.cmd == Cmd::Restart ==> step.action == stop && step.notes
                == "restarting container `"@ + container + "`..."@ + "\n"@
                + "stopping container `"@ + container + "`..."@ + "\n"@
            &&& run.cmd == Cmd::Clean ==> step.action == stop && step.notes
                == "cleaning all cached dev environments..."@ + "\n"@ + "stopping container `"@
                + container + "`..."@ + "\n"@
            &&& run.cmd == Cmd::Enter || run.cmd == Cmd::Status ==> step.action
                == ActionModel::AskPresent(run.cfg.cache_file_spec())
            &&& run.cmd == Cmd::ShowOptions ==> step.action == ActionModel::AskDir(git)
            &&& run.cmd is Log ==> step.action == ActionModel::AskPresent(run.cfg.log_dir@)
        }),
{
    let container = run.cfg.container@;
    let s = "stopping container `"@ + container + "`..."@ + "\n"@;
    let none = Seq::<char>::empty();
    assert(none + s =~= s);
    let r = "restarting container `"@ + container + "`..."@ + "\n"@;
    assert(r + s =~= r + "stopping container `"@ + container + "`..."@ + "\n"@);
    let c = "cleaning all cached dev environments..."@ + "\n"@;
    assert(c + s =~= c + "stopping container `"@ + container + "`..."@ + "\n"@);
}

/// `init` makes the cache directory, evaluates the devshell into its profile
/// unless direnv vouches for the script that is there, writes the script,
/// prunes the profile's history and restarts the container. Each failure on
/// the way ends it with its cause; that of the evaluation names the devshell
/// and what to check.
pub proof fn law_devshell_init_step_by_step(run: Run, event: EventModel)
    requires
        accepts(run.stage, event),
    ensures
        ({
            let step = next(run, event);
            let cfg = run.cfg;
            let evaluate = ActionModel::Evaluate(
                seq!["print-dev-env"@, "--profile"@, cfg.nix_profile_spec(), cfg.devshell@],
            );
            &&& run.stage == Stage::MakeDir && event is Done && signalled(run.env@) ==> step.action
                == ActionModel::AskPresent(cfg.cache_file_spec()) && step.stage == Stage::InitCache
            &&& run.stage == Stage::MakeDir && event is Done && !signalled(run.env@) ==> step.action
                == evaluate && step.notes == "evaluating devshell `"@ + cfg.devshell@
                + "` with nix print-dev-env..."@ + "\n"@
            &&& run.stage == Stage::InitCache && event == EventModel::Answer(false) ==> step.action
                == evaluate
            &&& run.stage == Stage::InitCache && event == EventModel::Answer(true) ==> step.action
                == ActionModel::Inspect(
                seq!["inspect"@, "-f"@, "{{.State.Running}}"@, cfg.container@],
            ) && step.stage == Stage::Running
            &&& run.stage == Stage::Dump && event is Done ==> step.notes == "devshell cached"@
                + "\n"@ && step.action == ActionModel::WipeHistory(
                seq!["profile"@, "wipe-history"@, "--profile"@, cfg.nix_profile_spec()],
            )
            &&& run.stage == Stage::Wipe && event is Done ==> step.action == ActionModel::Capture(
                seq!["stop"@, cfg.container@],
            ) && step.stage == (Stage::Stopping { after: After::Start })
            &&& (run.stage == Stage::MakeDir || run.stage == Stage::Dump) && event is Failed ==> (
            step.action matches ActionModel::Finish(Err(report)) && report.chain == seq![
                event->Failed_0,
            ] && report.suggestion is None)
            &&& run.stage == Stage::Wipe && event is Failed ==> (step.action matches
                ActionModel::Finish(Err(report)) && report.chain == seq![
                "nix profile wipe-history"@,
                event->Failed_0,
            ])
            &&& run.stage == Stage::Evaluate ==> match event {
                EventModel::Evaluated(Ok(piped), bytes) => if piped.success {
                    step.action == (ActionModel::WriteDump {
                        path: cfg.cache_file_spec(),
                        bytes,
                    }) && step.stage == Stage::Dump
                } else {
                    step.notes == piped.stdout && (step.action matches ActionModel::Finish(
                        Err(report),
                    ) && report.chain == seq![
                        "failed to evaluate devshell `"@ + cfg.devshell@ + "`"@,
                        "`nix print-dev-env` failed with exit code "@ + piped.status,
                    ] && report.suggestion == Some(
                        "check that the flake attribute exists and Nix can evaluate it"@,
                    ))
                },
                EventModel::Evaluated(Err(source), _) => step.action matches ActionModel::Finish(
                    Err(report),
                ) && report.chain == seq![
                    "failed to evaluate devshell `"@ + cfg.devshell@ + "`"@,
                    "nix print-dev-env"@,
                    source,
                ],
                _ => false,
            }
        }),
{
    if run.stage == Stage::Evaluate {
        if let EventModel::Evaluated(r, _) = event {
            let head = "failed to evaluate devshell `"@ + run.cfg.devshell@ + "`"@;
            assert("`"@ + "nix print-dev-env"@ + "` failed with exit code "@
                =~= "`nix print-dev-env` failed with exit code "@) by {
                reveal_strlit("`");
                reveal_strlit("nix print-dev-env");
                reveal_strlit("` failed with exit code ");
                reveal_strlit("`nix print-dev-env` failed with exit code ");
            }
            match r {
                Ok(piped) => {
                    let said = "`nix print-dev-env` failed with exit code "@ + piped.status;
                    assert(seq![head] + seq![said] =~= seq![head, said]);
                },
                Err(source) => {
                    assert(seq![head] + seq!["nix print-dev-env"@, source] =~= seq![
                        head,
                        "nix print-dev-env"@,
                        source,
                    ]);
                },
            }
        }
    }
}

/// A start leaves a container that runs, refuses to go on without the
/// activation script, makes the socket's directory where it is none, and
/// launches the container with its arguments: the defaults, the options, the
/// image, and the line that sources the script and becomes the server.
pub proof fn law_devshell_start_step_by_step(run: Run, event: EventModel)
    requires
        accepts(run.stage, event),
    ensures
        ({
            let step = next(run, event);
            let cfg = run.cfg;
            let dir = cfg.socket_dir@;
            let ask_git = ActionModel::AskDir(cfg.project_root@ + "/.git"@);
            let starting = "starting container `"@ + cfg.container@ + "`..."@ + "\n"@;
            &&& run.stage == Stage::Running && (event matches EventModel::Ran(r) && runs(r))
                ==> step.action == ActionModel::Finish(Ok(())) && step.notes == "container `"@
                + cfg.container@ + "` is already running"@ + "\n"@
            &&& run.stage == Stage::Running && (event matches EventModel::Ran(r) && !runs(r))
                ==> step.action == ActionModel::AskPresent(cfg.cache_file_spec())
            &&& run.stage == Stage::Cache && event == EventModel::Answer(false) ==> (step.action
                matches ActionModel::Finish(Err(report)) && report.chain == seq![
                "no cached dev environment found"@,
            ] && report.suggestion == Some("run `ncap-ctl init` first"@))
            &&& run.stage == Stage::Cache && event == EventModel::Answer(true) ==> step.action
                == ActionModel::AskRealDir(dir)
            &&& run.stage == Stage::SocketKind && event == EventModel::Answer(true) ==> step.action
                == ActionModel::AskEntries(dir)
            &&& run.stage == Stage::SocketKind && event == EventModel::Answer(false) ==> step.action
                == ActionModel::CreateDir(dir)
            &&& run.stage == Stage::SocketEntries && event == EventModel::Answer(false)
                ==> step.action == ask_git && step.notes == starting
            &&& run.stage == Stage::SocketEntries && event == EventModel::Answer(true)
                ==> step.action == ask_git && step.notes == "socket directory `"@ + dir
                + "` is not empty"@ + "\n"@ + starting
            &&& run.stage == Stage::SocketMake && event is Done ==> step.action == ask_git
                && step.notes == "created socket directory `"@ + dir + "`"@ + "\n"@ + starting
            &&& run.stage == Stage::SocketMake && event is Failed ==> (step.action matches
                ActionModel::Finish(Err(report)) && report.chain == seq![event->Failed_0])
            &&& run.stage == Stage::Survey ==> step.stage == Stage::Launch && step.action
                == ActionModel::Capture(
                seq!["run"@, "-d"@] + cfg.run_args_spec(event->Answer_0, run.env@) + seq![
                    "--"@,
                    cfg.image@,
                    cfg.bash_bin@,
                    "-c"@,
                    "source "@ + cfg.cache_file_spec() + " && exec "@ + cfg.server_bin@
                        + " --socket "@ + cfg.socket@ + " --log-dir "@ + cfg.log_dir@
                        + " --timeout "@ + number::decimal(cfg.timeout as nat),
                ],
            )
        }),
{
    let starting = "starting container `"@ + run.cfg.container@ + "`..."@ + "\n"@;
    let none = Seq::<char>::empty();
    assert(none + starting =~= starting);
}

/// A launch ends well where the runtime exited with 0, and tells the
/// container's id where it printed one; otherwise it fails with the
/// runtime's status, and what was printed is shown.
pub proof fn law_devshell_launch_is_told(
    run: Run,
    status: Seq<char>,
    stdout: Seq<char>,
    source: Seq<char>,
)
    requires
        run.stage == Stage::Launch,
    ensures
        ({
            let well = next(
                run,
                EventModel::Ran(Ok(PipedModel { success: true, status, stdout })),
            );
            let badly = next(
                run,
                EventModel::Ran(Ok(PipedModel { success: false, status, stdout })),
            );
            let never = next(run, EventModel::Ran(Err(source)));
            let bin = run.cfg.runtime.bin@;
            &&& well.action == ActionModel::Finish(Ok(()))
            &&& trimmed(stdout).len() > 0 ==> well.notes == "container started: `"@ + trimmed(
                stdout,
            ) + "`"@ + "\n"@
            &&& trimmed(stdout).len() == 0 ==> well.notes.len() == 0
            &&& badly.action matches ActionModel::Finish(Err(report))
            &&& report.chain == seq!["`"@ + (bin + " run"@) + "` failed with exit code "@ + status]
            &&& badly.notes == stdout
            &&& never.action matches ActionModel::Finish(Err(other))
            &&& other.chain == seq![bin + " run"@, source]
        }),
{
}

/// A stop by itself ends as the runtime does and tells what was stopped;
/// before a start or a removal only that follows, whatever came of it.
pub proof fn law_devshell_stop_is_told(
    run: Run,
    after: After,
    status: Seq<char>,
    stdout: Seq<char>,
    source: Seq<char>,
)
    requires
        run.stage == (Stage::Stopping { after }),
    ensures
        ({
            let well = next(
                run,
                EventModel::Ran(Ok(PipedModel { success: true, status, stdout })),
            );
            let badly = next(
                run,
                EventModel::Ran(Ok(PipedModel { success: false, status, stdout })),
            );
            let never = next(run, EventModel::Ran(Err(source)));
            let bin = run.cfg.runtime.bin@;
            let inspect = ActionModel::Inspect(
                seq!["inspect"@, "-f"@, "{{.State.Running}}"@, run.cfg.container@],
            );
            let look = ActionModel::AskPresent(cache_root_spec(run.cfg.project_root@));
            &&& trimmed(stdout).len() > 0 ==> well.notes == "container stopped: `"@ + trimmed(
                stdout,
            ) + "`"@ + "\n"@
            &&& trimmed(stdout).len() == 0 ==> well.notes.len() == 0
            &&& badly.notes == stdout
            &&& never.notes.len() == 0
            &&& after == After::End ==> well.action == ActionModel::Finish(Ok(())) && (badly.action
                matches ActionModel::Finish(Err(report)) && report.chain == seq![
                "`"@ + (bin + " stop"@) + "` failed with exit code "@ + status,
            ]) && (never.action matches ActionModel::Finish(Err(report)) && report.chain == seq![
                bin + " stop"@,
                source,
            ])
            &&& after == After::Start ==> well.action == inspect && badly.action == inspect
                && never.action == inspect
            &&& after == After::Clean ==> well.action == look && badly.action == look
                && never.action == look
        }),
{
}

/// `enter` opens a shell that sources the activation script and exits as the
/// shell does, with 1 where it has no code. Without the script, or where the
/// shell cannot be run, it fails and says what may help.
pub proof fn law_devshell_enter(run: Run, event: EventModel)
    requires
        accepts(run.stage, event),
    ensures
        ({
            let step = next(run, event);
            let cfg = run.cfg;
            &&& run.stage == Stage::EnterCache && event == EventModel::Answer(true) ==> step.action
                == ActionModel::Shell(
                seq![
                    "exec"@,
                    "-it"@,
                    cfg.container@,
                    cfg.bash_bin@,
                    "-c"@,
                    "source "@ + cfg.cache_file_spec() + " && exec "@ + cfg.bash_bin@,
                ],
            )
            &&& run.stage == Stage::EnterCache && event == EventModel::Answer(false) ==> (
            step.action matches ActionModel::Finish(Err(report)) && report.chain == seq![
                "no cached dev environment found"@,
            ] && report.suggestion == Some("run `ncap-ctl init` first"@))
            &&& run.stage == Stage::EnterShell ==> match event {
                EventModel::Exited(Ok(Some(code))) => step.action == ActionModel::Exit(code),
                EventModel::Exited(Ok(None)) => step.action == ActionModel::Exit(1),
                EventModel::Exited(Err(source)) => step.action matches ActionModel::Finish(
                    Err(report),
                ) && report.chain == seq!["failed to enter container"@, source]
                    && report.suggestion == Some(
                    "check that the container is running (`ncap-ctl start`)"@,
                ),
                _ => false,
            }
        }),
{
}

/// `show-options` prints the container's arguments, and `clean` removes the
/// cache of the project where there is one and says so.
pub proof fn law_devshell_show_and_clean(run: Run, event: EventModel)
    requires
        accepts(run.stage, event),
    ensures
        ({
            let step = next(run, event);
            let cache = cache_root_spec(run.cfg.project_root@);
            &&& run.stage == Stage::ShowSurvey ==> step.action == ActionModel::Print(
                run.cfg.run_args_spec(event->Answer_0, run.env@),
            )
            &&& run.stage == Stage::Printing ==> step.action == ActionModel::Finish(Ok(()))
            &&& run.stage == Stage::CleanPresent && event == EventModel::Answer(true)
                ==> step.action == ActionModel::RemoveTree(cache)
            &&& run.stage == Stage::CleanPresent && event == EventModel::Answer(false)
                ==> step.action == ActionModel::Finish(Ok(()))
            &&& run.stage == Stage::CleanRemove && event is Done ==> step.action
                == ActionModel::Finish(Ok(())) && step.notes == "removed `"@ + cache + "`"@ + "\n"@
            &&& run.stage == Stage::CleanRemove && event is Failed ==> (step.action matches
                ActionModel::Finish(Err(report)) && report.chain == seq![
                "failed to remove `"@ + cache + "`"@,
                event->Failed_0,
            ])
        }),
{
}

/// The report tells of the container first: its id, name, runtime and socket
/// where it runs, and otherwise what to run next. Its last line is about the
/// cache alone: valid where it is vouched for, stale where it is only there,
/// none where there is none.
pub proof fn law_devshell_status_lines(
    cfg: Config,
    id: Seq<char>,
    running: bool,
    cached: bool,
    usable: bool,
)
    ensures
        ({
            let lines = status_lines(cfg, id, running, cached, usable);
            &&& running ==> lines.len() == 6 && lines[0] == "container is running"@ && lines[1]
                == "  id:      "@ + id && lines[2] == "  name:    "@ + cfg.container@ && lines[3]
                == "  runtime: "@ + cfg.runtime.bin@ && lines[4] == "  socket:  "@ + cfg.socket@
            &&& !running ==> lines.len() == 3 && lines[0] == "container is not running"@
            &&& !running && cached ==> lines[1]
                == "  (cached environment exists — run `ncap-ctl start`)"@
            &&& !running && !cached ==> lines[1]
                == "  (no cached environment — run `ncap-ctl init`)"@
            &&& usable ==> lines.last() == "  cache:   valid (direnv inputs unchanged)"@
            &&& !usable && cached ==> lines.last() == "  cache:   stale (will re-evaluate on init)"@
            &&& !usable && !cached ==> lines.last() == "  cache:   none"@
        }),
{
}

/// `status` asks for the script, whether the container runs, and the id of
/// one that does, and prints those answers. Only with direnv's signal is the
/// script looked for again and taken for valid.
pub proof fn law_devshell_status_prints_its_answers(run: Run, event: EventModel)
    requires
        accepts(run.stage, event),
    ensures
        ({
            let step = next(run, event);
            let cfg = run.cfg;
            &&& run.stage == Stage::StatusCache ==> step.stage == (Stage::StatusRunning {
                cached: event->Answer_0,
            }) && step.action == ActionModel::Inspect(
                seq!["inspect"@, "-f"@, "{{.State.Running}}"@, cfg.container@],
            )
            &&& run.stage matches Stage::StatusRunning { cached } ==> match event {
                EventModel::Ran(r) => if runs(r) {
                    step.stage == (Stage::StatusId { cached }) && step.action
                        == ActionModel::Inspect(
                        seq!["inspect"@, "-f"@, "{{.Id}}"@, cfg.container@],
                    )
                } else if signalled(run.env@) {
                    step.stage == (Stage::StatusUsable { cached, running: false }) && step.action
                        == ActionModel::AskPresent(cfg.cache_file_spec())
                } else {
                    step.action == ActionModel::Print(
                        status_lines(cfg, run.id@, false, cached, false),
                    )
                },
                _ => false,
            }
            &&& run.stage matches Stage::StatusId { cached } ==> match event {
                EventModel::Ran(Ok(piped)) => step.id == trimmed(piped.stdout) && if signalled(
                    run.env@,
                ) {
                    step.stage == (Stage::StatusUsable { cached, running: true }) && step.action
                        == ActionModel::AskPresent(cfg.cache_file_spec())
                } else {
                    step.action == ActionModel::Print(
                        status_lines(cfg, trimmed(piped.stdout), true, cached, false),
                    )
                },
                EventModel::Ran(Err(source)) => step.action matches ActionModel::Finish(
                    Err(report),
                ) && report.chain == seq!["failed to inspect container"@, source],
                _ => false,
            }
            &&& run.stage matches Stage::StatusUsable { cached, running } ==> step.action
                == ActionModel::Print(
                status_lines(cfg, run.id@, running, cached, event->Answer_0),
            )
        }),
{
}

/// `log` shows the latest log of the log directory: in the pager that `PAGER`
/// names, else in `less -R` where there is one, else plainly; plainly at once
/// where no pager is wanted. A directory that is not there, cannot be read or
/// holds no log is refused by its name.
pub proof fn law_devshell_log(run: Run, names: Seq<Seq<char>>, i: int)
    requires
        run.stage == Stage::LogList,
        run.cmd is Log,
        is_latest(names, i),
    ensures
        ({
            let step = next(run, EventModel::Listed(names));
            let log = join_spec(run.cfg.log_dir@, names[i]);
            let vars = run.env@;
            let named = vars.contains_key("PAGER"@) && vars["PAGER"@].len() > 0;
            &&& step.log == log
            &&& run.cmd == (Cmd::Log { no_pager: true }) ==> step.action == ActionModel::ShowFile(
                log,
            )
            &&& run.cmd == (Cmd::Log { no_pager: false }) && !named ==> step.action is AskLess
            &&& run.cmd == (Cmd::Log { no_pager: false }) && named && words(vars["PAGER"@]).len()
                > 0 ==> (step.action matches ActionModel::Page(program, args) && seq![program]
                + args == words(vars["PAGER"@]) + seq![log])
        }),
{
    let k = choose|k: int| #[trigger] is_latest(names, k);
    assert(crate::path::log_secs(names[i]) is Some && crate::path::log_secs(names[k]) is Some);
    assert(i == k);
    let log = join_spec(run.cfg.log_dir@, names[i]);
    let vars = run.env@;
    if vars.contains_key("PAGER"@) && words(vars["PAGER"@]).len() > 0 {
        let pager = words(vars["PAGER"@]);
        assert(seq![pager[0]] + pager.drop_first().push(log) =~= pager + seq![log]);
    }
}

/// What `log` does about every other outcome.
pub proof fn law_devshell_log_otherwise(run: Run, event: EventModel)
    requires
        accepts(run.stage, event),
    ensures
        ({
            let step = next(run, event);
            let dir = run.cfg.log_dir@;
            let vars = run.env@;
            let pager = if vars.contains_key("PAGER"@) && vars["PAGER"@].len() > 0 {
                vars["PAGER"@]
            } else {
                "less -R"@
            };
            &&& run.stage == Stage::LogPresent && event == EventModel::Answer(true) ==> step.action
                == ActionModel::ListDir(dir)
            &&& run.stage == Stage::LogPresent && event == EventModel::Answer(false) ==> (
            step.action matches ActionModel::Finish(Err(report)) && report.chain == seq![
                "log directory does not exist: `"@ + dir + "`"@,
            ])
            &&& run.stage == Stage::LogList && event is Failed ==> (step.action matches
                ActionModel::Finish(Err(report)) && report.chain == seq![
                "failed to read log directory `"@ + dir + "`"@,
                event->Failed_0,
            ])
            &&& run.stage == Stage::LogList && (event matches EventModel::Listed(names)
                && forall|j: int|
                0 <= j < names.len() ==> crate::path::log_secs(#[trigger] names[j]) is None) ==> (
            step.action matches ActionModel::Finish(Err(report)) && report.chain == seq![
                "no log files found in `"@ + dir + "`"@,
            ])
            &&& run.stage == Stage::LogLess && event == EventModel::Answer(true) ==> step.action
                == ActionModel::Page("less"@, seq!["-R"@, run.log@])
            &&& run.stage == Stage::LogLess && event == EventModel::Answer(false) ==> step.action
                == ActionModel::ShowFile(run.log@)
            &&& run.stage == Stage::LogPage && (event matches EventModel::Exited(r) && r is Ok)
                ==> step.action == ActionModel::Finish(Ok(()))
            &&& run.stage == Stage::LogPage && (event matches EventModel::Exited(r) && r is Err)
                ==> (step.action matches ActionModel::Finish(Err(report)) && report.chain == seq![
                "failed to run pager `"@ + pager + "`"@,
                event->Exited_0->Err_0,
            ])
            &&& run.stage == Stage::LogShow && event is Done ==> step.action
                == ActionModel::Finish(Ok(()))
            &&& run.stage == Stage::LogShow && event is Failed ==> (step.action matches
                ActionModel::Finish(Err(report)) && report.chain == seq![
                "failed to read `"@ + run.log@ + "`"@,
                event->Failed_0,
            ])
        }),
{
    let less = seq!["less"@, "-R"@];
    assert(less.drop_first().push(run.log@) =~= seq!["-R"@, run.log@]);
    if let EventModel::Listed(names) = event {
        if forall|j: int| 0 <= j < names.len() ==> crate::path::log_secs(#[trigger] names[j])
            is None {
            assert forall|k: int| !(#[trigger] is_latest(names, k)) by {
                if is_latest(names, k) {
                    assert(crate::path::log_secs(names[k]) is None);
                }
            }
        }
    }
}

/// What came of a step and what is asked for next are modelled as they are.
pub proof fn law_step_models_keep_every_field(
    text: String,
    texts: Vec<String>,
    bytes: Vec<u8>,
    flag: bool,
    r: Result<Piped, String>,
    code: Option<i32>,
    number: i32,
    report: Report,
)
    ensures
        Event::Failed(text)@ == EventModel::Failed(text@),
        Event::Answer(flag)@ == EventModel::Answer(flag),
        Event::Ran(r)@ == EventModel::Ran(outcome(r)),
        Event::Evaluated(r, bytes)@ == EventModel::Evaluated(outcome(r), bytes@),
        Event::Exited(Ok(code))@ == EventModel::Exited(Ok(code)),
        Event::Exited(Err(text))@ == EventModel::Exited(Err(text@)),
        Event::Listed(texts)@ == EventModel::Listed(views(texts@)),
        Action::CreateDir(text)@ == ActionModel::CreateDir(text@),
        Action::AskPresent(text)@ == ActionModel::AskPresent(text@),
        Action::AskDir(text)@ == ActionModel::AskDir(text@),
        Action::AskRealDir(text)@ == ActionModel::AskRealDir(text@),
        Action::AskEntries(text)@ == ActionModel::AskEntries(text@),
        Action::Inspect(texts)@ == ActionModel::Inspect(views(texts@)),
        Action::Capture(texts)@ == ActionModel::Capture(views(texts@)),
        Action::Evaluate(texts)@ == ActionModel::Evaluate(views(texts@)),
        (Action::WriteDump { path: text, bytes })@ == (ActionModel::WriteDump {
            path: text@,
            bytes: bytes@,
        }),
        Action::WipeHistory(texts)@ == ActionModel::WipeHistory(views(texts@)),
        Action::Shell(texts)@ == ActionModel::Shell(views(texts@)),
        Action::Print(texts)@ == ActionModel::Print(views(texts@)),
        Action::RemoveTree(text)@ == ActionModel::RemoveTree(text@),
        Action::ListDir(text)@ == ActionModel::ListDir(text@),
        Action::Page(text, texts)@ == ActionModel::Page(text@, views(texts@)),
        Action::ShowFile(text)@ == ActionModel::ShowFile(text@),
        Action::Exit(number)@ == ActionModel::Exit(number),
        Action::Finish(Ok(()))@ == ActionModel::Finish(Ok(())),
        Action::Finish(Err(report))@ == ActionModel::Finish(Err(report@)),
{
}

} // verus!
