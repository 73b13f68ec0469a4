//! Runtime adapter: podman or docker, sharing one argument surface; probes
//! use Go-template `inspect`. Here stand the argument lists and what their
//! output means; running them is the caller's.

use vstd::prelude::*;

use super::paths;
use super::shell::{self, escaped};
use crate::number;
use crate::pathname::join_spec;
use crate::server::LogLevel;
use crate::text::{self, push_text, views};

verus! {

/// The runtime subcommands whose failure is reported.
#[derive(Clone, Copy, Debug, PartialEq, Eq, Structural)]
pub enum Verb {
    Run,
    Stop,
    Remove,
    Exec,
}

impl Verb {
    /// The subcommand on the command line.
    pub open spec fn word(self) -> Seq<char> {
        match self {
            Verb::Run => "run"@,
            Verb::Stop => "stop"@,
            Verb::Remove => "rm"@,
            Verb::Exec => "exec"@,
        }
    }

    /// The subcommand on the command line.
    pub fn name(self) -> (out: &'static str)
        ensures
            out@ == self.word(),
    {
        match self {
            Verb::Run => "run",
            Verb::Stop => "stop",
            Verb::Remove => "rm",
            Verb::Exec => "exec",
        }
    }
}

/// Failures of the runtime adapter: a failed run, stop or removal carries the
/// captured output.
#[derive(Debug, Clone, PartialEq, Eq)]
pub enum RuntimeError {
    Spawn { bin: String, verb: Verb, source: String },
    Failed { bin: String, verb: Verb, output: String },
    ExecFailed { bin: String },
    NotLive { container: String, timeout: u64, state: String },
}

impl RuntimeError {
    /// What `message` says.
    pub open spec fn text(self) -> Seq<char> {
        match self {
            RuntimeError::Spawn { bin, verb, source } => "cannot spawn `"@ + bin@ + " "@
                + verb.word() + "`: "@ + source@,
            RuntimeError::Failed { bin, verb, output } => "`"@ + bin@ + " "@ + verb.word()
                + "` failed:\n"@ + output@,
            RuntimeError::ExecFailed { bin } => "`"@ + bin@ + " exec` failed"@,
            RuntimeError::NotLive { container, timeout, state } => "container `"@ + container@
                + "` never became live within "@ + number::decimal(timeout as nat) + "s (state: "@
                + state@ + ")"@,
        }
    }

    /// The error for people.
    pub fn message(&self) -> (out: String)
        ensures
            out@ == self.text(),
    {
        let mut out: String = String::new();
        match self {
            RuntimeError::Spawn { bin, verb, source } => {
                out.append("cannot spawn `");
                out.append(bin.as_str());
                out.append(" ");
                out.append(verb.name());
                out.append("`: ");
                out.append(source.as_str());
            },
            RuntimeError::Failed { bin, verb, output } => {
                out.append("`");
                out.append(bin.as_str());
                out.append(" ");
                out.append(verb.name());
                out.append("` failed:\n");
                out.append(output.as_str());
            },
            RuntimeError::ExecFailed { bin } => {
                out.append("`");
                out.append(bin.as_str());
                out.append(" exec` failed");
            },
            RuntimeError::NotLive { container, timeout, state } => {
                out.append("container `");
                out.append(container.as_str());
                out.append("` never became live within ");
                out.append(number::format_decimal(*timeout as u128).as_str());
                out.append("s (state: ");
                out.append(state.as_str());
                out.append(")");
            },
        }
        proof {
            assert(out@ =~= self.text());
        }
        out
    }
}

/// Arguments of the ncap-server binary: exactly its CLI surface
/// (`--socket`, `--log-dir`, `--timeout`, `--log-level`).
#[derive(Clone, Debug)]
pub struct ServerArgs {
    /// Unix socket path the server binds.
    pub socket: String,
    /// Directory for per-run server logs.
    pub log_dir: String,
    /// Drain grace for live connections at shutdown, seconds.
    pub timeout: u64,
    /// Minimum severity the server logs at.
    pub log_level: LogLevel,
}

/// Server arguments as a mathematical value.
pub struct ServerArgsModel {
    pub socket: Seq<char>,
    pub log_dir: Seq<char>,
    pub timeout: u64,
    pub log_level: LogLevel,
}

impl View for ServerArgs {
    type V = ServerArgsModel;

    open spec fn view(&self) -> ServerArgsModel {
        ServerArgsModel {
            socket: self.socket@,
            log_dir: self.log_dir@,
            timeout: self.timeout,
            log_level: self.log_level,
        }
    }
}

/// The OCI runtime executable scoped to a single container.
#[derive(Clone, Debug)]
pub struct Runtime {
    pub bin: String,
    pub name: String,
    pub bash: String,
}

/// What a command printed, and whether it exited with 0.
#[derive(Debug, PartialEq, Eq)]
pub struct CommandOutput {
    pub success: bool,
    pub stdout: String,
    pub stderr: String,
}

/// The bash line that starts the server: the env dump is sourced, then the
/// server takes the shell's place. Paths are quoted, number and level are
/// not.
pub open spec fn launch_script(
    env_file: Seq<char>,
    server: Seq<char>,
    args: ServerArgsModel,
) -> Seq<char> {
    "source '"@ + escaped(env_file) + "' && exec '"@ + escaped(server) + "' --socket '"@ + escaped(
        args.socket,
    ) + "' --log-dir '"@ + escaped(args.log_dir) + "' --timeout "@ + number::decimal(
        args.timeout as nat,
    ) + " --log-level "@ + args.log_level.word()
}

/// The bash line of the interactive shell.
pub open spec fn enter_script(env_file: Seq<char>, bash: Seq<char>) -> Seq<char> {
    "source '"@ + escaped(env_file) + "' && exec '"@ + escaped(bash) + "'"@
}

fn render_launch_script(env_file: &str, server: &str, args: &ServerArgs) -> (out: String)
    ensures
        out@ == launch_script(env_file@, server@, args@),
{
    let mut out = "source '".to_owned();
    out.append(shell::shell_escape(env_file).as_str());
    out.append("' && exec '");
    out.append(shell::shell_escape(server).as_str());
    out.append("' --socket '");
    out.append(shell::shell_escape(args.socket.as_str()).as_str());
    out.append("' --log-dir '");
    out.append(shell::shell_escape(args.log_dir.as_str()).as_str());
    out.append("' --timeout ");
    out.append(number::format_decimal(args.timeout as u128).as_str());
    out.append(" --log-level ");
    out.append(args.log_level.name());
    out
}

impl Runtime {
    /// Scope the runtime executable to the named container.
    pub fn new(bin: String, name: String, bash: String) -> (rt: Self)
        ensures
            rt.bin == bin,
            rt.name == name,
            rt.bash == bash,
    {
        Runtime { bin, name, bash }
    }

    /// `inspect -f {{.State.Running}} <name>`.
    pub fn running_args(&self) -> (args: Vec<String>)
        ensures
            views(args@) == seq!["inspect"@, "-f"@, "{{.State.Running}}"@, self.name@],
    {
        let mut args: Vec<String> = Vec::new();
        push_text(&mut args, "inspect");
        push_text(&mut args, "-f");
        push_text(&mut args, "{{.State.Running}}");
        push_text(&mut args, self.name.as_str());
        proof {
            assert(views(args@) =~= seq!["inspect"@, "-f"@, "{{.State.Running}}"@, self.name@]);
        }
        args
    }

    /// `inspect -f {{json .State}} <name>`, for the failure report.
    pub fn state_args(&self) -> (args: Vec<String>)
        ensures
            views(args@) == seq!["inspect"@, "-f"@, "{{json .State}}"@, self.name@],
    {
        let mut args: Vec<String> = Vec::new();
        push_text(&mut args, "inspect");
        push_text(&mut args, "-f");
        push_text(&mut args, "{{json .State}}");
        push_text(&mut args, self.name.as_str());
        proof {
            assert(views(args@) =~= seq!["inspect"@, "-f"@, "{{json .State}}"@, self.name@]);
        }
        args
    }

    /// `inspect <name>`: succeeds where a container of the name exists at
    /// all.
    pub fn exists_args(&self) -> (args: Vec<String>)
        ensures
            views(args@) == seq!["inspect"@, self.name@],
    {
        let mut args: Vec<String> = Vec::new();
        push_text(&mut args, "inspect");
        push_text(&mut args, self.name.as_str());
        proof {
            assert(views(args@) =~= seq!["inspect"@, self.name@]);
        }
        args
    }

    /// `stop <name>`.
    pub fn stop_args(&self) -> (args: Vec<String>)
        ensures
            views(args@) == seq!["stop"@, self.name@],
    {
        let mut args: Vec<String> = Vec::new();
        push_text(&mut args, "stop");
        push_text(&mut args, self.name.as_str());
        proof {
            assert(views(args@) =~= seq!["stop"@, self.name@]);
        }
        args
    }

    /// `rm <name>`.
    pub fn remove_args(&self) -> (args: Vec<String>)
        ensures
            views(args@) == seq!["rm"@, self.name@],
    {
        let mut args: Vec<String> = Vec::new();
        push_text(&mut args, "rm");
        push_text(&mut args, self.name.as_str());
        proof {
            assert(views(args@) =~= seq!["rm"@, self.name@]);
        }
        args
    }

    /// `run -d --name <name> <mounts and options> -- <image> <bash> -c <line>`:
    /// the server, detached. `extra_args` are the mounts and options.
    pub fn run_detached_args(
        &self,
        image: &str,
        env_file: &str,
        server: &str,
        args: &ServerArgs,
        extra_args: &Vec<String>,
    ) -> (out: Vec<String>)
        ensures
            views(out@) == seq!["run"@, "-d"@, "--name"@, self.name@] + views(extra_args@) + seq![
                "--"@,
                image@,
                self.bash@,
                "-c"@,
                launch_script(env_file@, server@, args@),
            ],
    {
        let mut out: Vec<String> = Vec::new();
        push_text(&mut out, "run");
        push_text(&mut out, "-d");
        push_text(&mut out, "--name");
        push_text(&mut out, self.name.as_str());
        let ghost head = seq!["run"@, "-d"@, "--name"@, self.name@];
        let ghost extra = views(extra_args@);
        let mut i: usize = 0;
        proof {
            assert(views(out@) =~= head + extra.take(0));
        }
        while i < extra_args.len()
            invariant
                i <= extra_args@.len(),
                extra == views(extra_args@),
                views(out@) == head + extra.take(i as int),
            decreases extra_args@.len() - i,
        {
            push_text(&mut out, extra_args[i].as_str());
            i = i + 1;
            proof {
                assert(views(out@) =~= head + extra.take(i as int));
            }
        }
        proof {
            assert(extra.take(i as int) =~= extra);
        }
        push_text(&mut out, "--");
        push_text(&mut out, image);
        push_text(&mut out, self.bash.as_str());
        push_text(&mut out, "-c");
        push_text(&mut out, render_launch_script(env_file, server, args).as_str());
        proof {
            assert(views(out@) =~= head + extra + seq![
                "--"@,
                image@,
                self.bash@,
                "-c"@,
                launch_script(env_file@, server@, args@),
            ]);
        }
        out
    }

    /// `exec -it <name> <bash> -c "source '<cache>/env' && exec '<bash>'"`:
    /// the interactive shell.
    pub fn exec_interactive_args(&self, cache_dir: &str) -> (args: Vec<String>)
        ensures
            views(args@) == seq![
                "exec"@,
                "-it"@,
                self.name@,
                self.bash@,
                "-c"@,
                enter_script(join_spec(cache_dir@, "env"@), self.bash@),
            ],
    {
        let mut line = "source '".to_owned();
        line.append(shell::shell_escape(paths::env_file(cache_dir).as_str()).as_str());
        line.append("' && exec '");
        line.append(shell::shell_escape(self.bash.as_str()).as_str());
        line.append("'");
        let mut args: Vec<String> = Vec::new();
        push_text(&mut args, "exec");
        push_text(&mut args, "-it");
        push_text(&mut args, self.name.as_str());
        push_text(&mut args, self.bash.as_str());
        push_text(&mut args, "-c");
        push_text(&mut args, line.as_str());
        proof {
            assert(views(args@) =~= seq![
                "exec"@,
                "-it"@,
                self.name@,
                self.bash@,
                "-c"@,
                enter_script(join_spec(cache_dir@, "env"@), self.bash@),
            ]);
        }
        args
    }

    /// What a run, stop or removal came to: the trimmed stdout of a success,
    /// otherwise the failure to spawn or the captured output.
    pub fn checked(&self, verb: Verb, output: Result<CommandOutput, String>) -> (r: Result<
        String,
        RuntimeError,
    >)
        ensures
            match output {
                Err(source) => r matches Err(RuntimeError::Spawn { bin, verb: v, source: s })
                    && bin@ == self.bin@ && v == verb && s == source,
                Ok(out) => if out.success {
                    r is Ok && r->Ok_0@ == text::trimmed(out.stdout@)
                } else {
                    r matches Err(RuntimeError::Failed { bin, verb: v, output: o }) && bin@
                        == self.bin@ && v == verb && o@ == captured(out)
                },
            },
    {
        match output {
            Err(source) => Err(RuntimeError::Spawn { bin: self.bin.clone(), verb, source }),
            Ok(out) => if out.success {
                Ok(text::trim(out.stdout.as_str()))
            } else {
                Err(
                    RuntimeError::Failed {
                        bin: self.bin.clone(),
                        verb,
                        output: captured_output(&out),
                    },
                )
            },
        }
    }

    /// What the interactive shell came to: whether it exited with 0, or why
    /// it could not be spawned.
    pub fn exec_checked(&self, status: Result<bool, String>) -> (r: Result<(), RuntimeError>)
        ensures
            match status {
                Err(source) => r matches Err(RuntimeError::Spawn { bin, verb, source: s }) && bin@
                    == self.bin@ && verb == Verb::Exec && s == source,
                Ok(true) => r is Ok,
                Ok(false) => r matches Err(RuntimeError::ExecFailed { bin }) && bin@ == self.bin@,
            },
    {
        match status {
            Err(source) => Err(
                RuntimeError::Spawn { bin: self.bin.clone(), verb: Verb::Exec, source },
            ),
            Ok(true) => Ok(()),
            Ok(false) => Err(RuntimeError::ExecFailed { bin: self.bin.clone() }),
        }
    }
}

/// What a failed invocation left behind: stderr, or stdout where stderr is
/// blank, trimmed.
pub open spec fn captured(output: CommandOutput) -> Seq<char> {
    if text::trimmed(output.stderr@).len() == 0 {
        text::trimmed(output.stdout@)
    } else {
        text::trimmed(output.stderr@)
    }
}

/// The captured output of a failed runtime invocation, for the error.
pub fn captured_output(output: &CommandOutput) -> (out: String)
    ensures
        out@ == captured(*output),
{
    let message = text::trim(output.stderr.as_str());
    if message.as_str().is_empty() {
        text::trim(output.stdout.as_str())
    } else {
        message
    }
}

/// Whether an inspection says that the container's init process runs. Any
/// failure to spawn reads as not running.
pub fn says_running(output: &Result<CommandOutput, String>) -> (r: bool)
    ensures
        r == match output {
            Ok(out) => text::trimmed(out.stdout@) == "true"@,
            Err(_) => false,
        },
{
    match output {
        Ok(out) => text::same(text::trim(out.stdout.as_str()).as_str(), "true"),
        Err(_) => false,
    }
}

/// The state for the failure report: what the inspection printed, or why it
/// did not.
pub fn state_report(output: Result<CommandOutput, String>) -> (out: String)
    ensures
        out@ == match output {
            Ok(o) => if o.success {
                text::trimmed(o.stdout@)
            } else {
                text::trimmed(o.stderr@)
            },
            Err(source) => source@,
        },
{
    match output {
        Ok(o) => if o.success {
            text::trim(o.stdout.as_str())
        } else {
            text::trim(o.stderr.as_str())
        },
        Err(source) => source,
    }
}

/// Whether a failed run says that the container name is taken, in any case
/// of letters.
pub fn is_name_in_use(stderr: &str) -> (r: bool)
    ensures
        r == name_in_use(stderr@),
{
    let lower = text::to_lower(stderr);
    text::contains(&lower, &text::chars_of("already in use")) || text::contains(
        &lower,
        &text::chars_of("name in use"),
    )
}

/// The output says that the container name is taken.
pub open spec fn name_in_use(stderr: Seq<char>) -> bool {
    text::occurs(text::lowered(stderr), "already in use"@) || text::occurs(
        text::lowered(stderr),
        "name in use"@,
    )
}

/// The launch line sources the env dump and puts the server in the shell's
/// place, with each path as one quoted word and every option with its own
/// value.
pub proof fn law_launch_line_word_by_word(
    env_file: Seq<char>,
    server: Seq<char>,
    args: ServerArgsModel,
)
    ensures
        launch_script(env_file, server, args) == "source "@ + ("'"@ + escaped(env_file) + "'"@)
            + " && exec "@ + ("'"@ + escaped(server) + "'"@) + " --socket "@ + ("'"@ + escaped(
            args.socket,
        ) + "'"@) + " --log-dir "@ + ("'"@ + escaped(args.log_dir) + "'"@) + " --timeout "@
            + number::decimal(args.timeout as nat) + " --log-level "@ + args.log_level.word(),
        enter_script(env_file, server) == "source "@ + ("'"@ + escaped(env_file) + "'"@)
            + " && exec "@ + ("'"@ + escaped(server) + "'"@),
{
    reveal_strlit("source '");
    reveal_strlit("source ");
    reveal_strlit("'");
    reveal_strlit("' && exec '");
    reveal_strlit(" && exec ");
    reveal_strlit("' --socket '");
    reveal_strlit(" --socket ");
    reveal_strlit("' --log-dir '");
    reveal_strlit(" --log-dir ");
    reveal_strlit("' --timeout ");
    reveal_strlit(" --timeout ");
    assert("source '"@ =~= "source "@ + "'"@);
    assert("' && exec '"@ =~= "'"@ + " && exec "@ + "'"@);
    assert("' --socket '"@ =~= "'"@ + " --socket "@ + "'"@);
    assert("' --log-dir '"@ =~= "'"@ + " --log-dir "@ + "'"@);
    assert("' --timeout "@ =~= "'"@ + " --timeout "@);
    assert(launch_script(env_file, server, args) =~= "source "@ + ("'"@ + escaped(env_file) + "'"@)
        + " && exec "@ + ("'"@ + escaped(server) + "'"@) + " --socket "@ + ("'"@ + escaped(
        args.socket,
    ) + "'"@) + " --log-dir "@ + ("'"@ + escaped(args.log_dir) + "'"@) + " --timeout "@
        + number::decimal(args.timeout as nat) + " --log-level "@ + args.log_level.word());
    assert(enter_script(env_file, server) =~= "source "@ + ("'"@ + escaped(env_file) + "'"@)
        + " && exec "@ + ("'"@ + escaped(server) + "'"@));
}

/// A failure shows what was printed to stderr, or to stdout where stderr is
/// blank, without the white space round it.
pub proof fn law_failure_shows_the_output(
    output: CommandOutput,
    front: Seq<char>,
    said: Seq<char>,
    back: Seq<char>,
)
    requires
        forall|i: int| 0 <= i < front.len() ==> text::is_space(#[trigger] front[i]),
        forall|i: int| 0 <= i < back.len() ==> text::is_space(#[trigger] back[i]),
        said.len() > 0,
        !text::is_space(said[0]),
        !text::is_space(said.last()),
    ensures
        output.stderr@ == front + said + back ==> captured(output) == said,
        output.stderr@ == front && output.stdout@ == front + said + back ==> captured(output)
            == said,
{
    text::law_trim_keeps_the_middle(front, said, back);
    let none = Seq::<char>::empty();
    text::law_trim_keeps_the_middle(front, none, none);
    assert(front + none + none =~= front);
}

/// A name conflict is told by either of two phrases, anywhere in the output
/// and in any case of letters, and by nothing else.
pub proof fn law_name_conflict_is_told_by_its_phrases(
    a: Seq<char>,
    b: Seq<char>,
    stderr: Seq<char>,
    other: Seq<char>,
)
    ensures
        name_in_use(a + "already in use"@ + b),
        name_in_use(a + "name in use"@ + b),
        text::lowered(stderr) == text::lowered(other) ==> name_in_use(stderr) == name_in_use(other),
        name_in_use(stderr) ==> exists|i: int|
            0 <= i <= stderr.len() && ({
                let rest = #[trigger] text::lowered(stderr).skip(i);
                text::has_prefix(rest, "already in use"@) || text::has_prefix(
                    rest,
                    "name in use"@,
                )
            }),
{
    reveal_strlit("already in use");
    reveal_strlit("name in use");
    let one = a + "already in use"@ + b;
    let two = a + "name in use"@ + b;
    let la = text::lowered(a);
    let lb = text::lowered(b);
    assert(text::lowered("already in use"@) =~= "already in use"@);
    assert(text::lowered("name in use"@) =~= "name in use"@);
    assert(text::lowered(one) =~= la + "already in use"@ + lb);
    assert(text::lowered(two) =~= la + "name in use"@ + lb);
    text::law_occurrence_splits_the_text(la, "already in use"@, lb);
    text::law_occurrence_splits_the_text(la, "name in use"@, lb);
    let low = text::lowered(stderr);
    if text::occurs(low, "already in use"@) {
        let i = choose|i: int| #[trigger] text::occurs_at(low, "already in use"@, i);
        let rest = low.skip(i);
        assert(rest.subrange(0, "already in use"@.len() as int) =~= low.subrange(
            i,
            i + "already in use"@.len(),
        ));
        assert(text::has_prefix(low.skip(i), "already in use"@));
    } else if text::occurs(low, "name in use"@) {
        let i = choose|i: int| #[trigger] text::occurs_at(low, "name in use"@, i);
        let rest = low.skip(i);
        assert(rest.subrange(0, "name in use"@.len() as int) =~= low.subrange(
            i,
            i + "name in use"@.len(),
        ));
        assert(text::has_prefix(low.skip(i), "name in use"@));
    }
}

/// The subcommands are those of podman and docker.
pub proof fn law_verbs_are_the_runtimes_subcommands()
    ensures
        Verb::Run.word() == "run"@,
        Verb::Stop.word() == "stop"@,
        Verb::Remove.word() == "rm"@,
        Verb::Exec.word() == "exec"@,
{
}

/// A failure of the runtime names the program and the subcommand, and ends
/// in what is known of it.
pub proof fn law_runtime_errors_say_what_ran(err: RuntimeError)
    ensures
        err matches RuntimeError::Spawn { bin, verb, source } ==> text::occurs(
            err.text(),
            "`"@ + bin@ + " "@ + verb.word() + "`"@,
        ) && source@.is_suffix_of(err.text()),
        err matches RuntimeError::Failed { bin, verb, output } ==> text::occurs(
            err.text(),
            "`"@ + bin@ + " "@ + verb.word() + "`"@,
        ) && output@.is_suffix_of(err.text()),
        err matches RuntimeError::ExecFailed { bin } ==> text::occurs(err.text(), bin@),
        err matches RuntimeError::NotLive { container, timeout, state } ==> text::occurs(
            err.text(),
            container@,
        ) && text::occurs(err.text(), state@) && text::occurs(
            err.text(),
            number::decimal(timeout as nat) + "s"@,
        ),
{
    reveal_strlit("`");
    reveal_strlit("`: ");
    reveal_strlit(": ");
    reveal_strlit("cannot spawn `");
    reveal_strlit("cannot spawn ");
    reveal_strlit("` failed:\n");
    reveal_strlit(" failed:\n");
    reveal_strlit("s (state: ");
    reveal_strlit(" (state: ");
    reveal_strlit("s");
    let t = err.text();
    match err {
        RuntimeError::Spawn { bin, verb, source } => {
            let call = "`"@ + bin@ + " "@ + verb.word() + "`"@;
            text::law_occurrence_splits_the_text("cannot spawn "@, call, ": "@ + source@);
            assert("cannot spawn "@ + call + (": "@ + source@) =~= t);
            assert(source@ =~= t.subrange(t.len() - source@.len(), t.len() as int));
        },
        RuntimeError::Failed { bin, verb, output } => {
            let call = "`"@ + bin@ + " "@ + verb.word() + "`"@;
            let none = Seq::<char>::empty();
            text::law_occurrence_splits_the_text(none, call, " failed:\n"@ + output@);
            assert(none + call + (" failed:\n"@ + output@) =~= t);
            assert(output@ =~= t.subrange(t.len() - output@.len(), t.len() as int));
        },
        RuntimeError::ExecFailed { bin } => {
            text::law_occurrence_splits_the_text("`"@, bin@, " exec` failed"@);
        },
        RuntimeError::NotLive { container, timeout, state } => {
            let a = "container `"@;
            let b = "` never became live within "@;
            let c = number::decimal(timeout as nat) + "s"@;
            let d = " (state: "@;
            let e = ")"@;
            assert(t =~= a + container@ + b + c + d + state@ + e);
            text::law_occurrence_splits_the_text(a, container@, b + c + d + state@ + e);
            assert(a + container@ + (b + c + d + state@ + e) =~= t);
            text::law_occurrence_splits_the_text(a + container@ + b, c, d + state@ + e);
            assert(a + container@ + b + c + (d + state@ + e) =~= t);
            text::law_occurrence_splits_the_text(a + container@ + b + c + d, state@, e);
        },
    }
}

} // verus!
