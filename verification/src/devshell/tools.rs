//! The two programs that devshell control drives, as argument lists and what
//! their outcome means. Running them is the caller's.

use vstd::prelude::*;

use crate::text::{self, push_text, trimmed, views};

verus! {

/// A failure: what went wrong, outermost first, and what may help.
pub struct Report {
    pub chain: Vec<String>,
    pub suggestion: Option<String>,
}

/// A failure as a mathematical value.
pub struct ReportModel {
    pub chain: Seq<Seq<char>>,
    pub suggestion: Option<Seq<char>>,
}

impl View for Report {
    type V = ReportModel;

    open spec fn view(&self) -> ReportModel {
        ReportModel {
            chain: views(self.chain@),
            suggestion: match self.suggestion {
                Some(text) => Some(text@),
                None => None,
            },
        }
    }
}

/// A failure without a suggestion.
pub open spec fn plain(chain: Seq<Seq<char>>) -> ReportModel {
    ReportModel { chain, suggestion: None }
}

/// A failure within another.
pub open spec fn wrapped(message: Seq<char>, report: ReportModel) -> ReportModel {
    ReportModel { chain: seq![message] + report.chain, suggestion: report.suggestion }
}

/// A failure with a suggestion.
pub open spec fn suggesting(report: ReportModel, suggestion: Seq<char>) -> ReportModel {
    ReportModel { chain: report.chain, suggestion: Some(suggestion) }
}

impl Report {
    /// A failure with a message alone.
    pub fn new(message: String) -> (r: Report)
        ensures
            r@ == plain(seq![message@]),
    {
        let mut chain: Vec<String> = Vec::new();
        chain.push(message);
        proof {
            assert(views(chain@) =~= seq![chain@[0]@]);
        }
        Report { chain, suggestion: None }
    }

    /// The failure, told as part of another.
    pub fn wrap(self, message: String) -> (r: Report)
        ensures
            r@ == wrapped(message@, self@),
    {
        let mut chain: Vec<String> = Vec::new();
        chain.push(message);
        let ghost inner = views(self.chain@);
        proof {
            assert(views(chain@) =~= seq![message@] + inner.take(0));
        }
        let mut i: usize = 0;
        while i < self.chain.len()
            invariant
                i <= self.chain@.len(),
                inner == views(self.chain@),
                views(chain@) == seq![message@] + inner.take(i as int),
            decreases self.chain@.len() - i,
        {
            push_text(&mut chain, self.chain[i].as_str());
            i = i + 1;
            proof {
                assert(inner.take(i as int) =~= inner.take(i - 1).push(inner[i - 1]));
                assert((seq![message@] + inner.take(i - 1)).push(inner[i - 1]) =~= seq![message@]
                    + inner.take(i as int));
            }
        }
        proof {
            assert(inner.take(i as int) =~= inner);
        }
        Report { chain, suggestion: self.suggestion }
    }

    /// The failure, with what may help.
    pub fn suggest(self, suggestion: &str) -> (r: Report)
        ensures
            r@ == suggesting(self@, suggestion@),
    {
        Report { chain: self.chain, suggestion: Some(suggestion.to_owned()) }
    }
}

/// What came of a program whose output was captured.
pub struct Piped {
    /// It exited with 0.
    pub success: bool,
    /// How it exited, for people.
    pub status: String,
    pub stdout: String,
}

/// What came of a captured program, as a mathematical value.
pub struct PipedModel {
    pub success: bool,
    pub status: Seq<char>,
    pub stdout: Seq<char>,
}

impl View for Piped {
    type V = PipedModel;

    open spec fn view(&self) -> PipedModel {
        PipedModel { success: self.success, status: self.status@, stdout: self.stdout@ }
    }
}

/// What the capture of a program came to, or why it could not be run.
pub open spec fn outcome(r: Result<Piped, String>) -> Result<PipedModel, Seq<char>> {
    match r {
        Ok(piped) => Ok(piped@),
        Err(source) => Err(source@),
    }
}

/// What a captured program is taken for: its output where it exited with 0,
/// otherwise the failure, told under its label.
pub open spec fn checked(label: Seq<char>, r: Result<PipedModel, Seq<char>>) -> Result<
    Seq<char>,
    ReportModel,
> {
    match r {
        Err(source) => Err(plain(seq![label, source])),
        Ok(piped) => if piped.success {
            Ok(piped.stdout)
        } else {
            Err(plain(seq!["`"@ + label + "` failed with exit code "@ + piped.status]))
        },
    }
}

/// What is shown of a captured program: the output of one that failed.
pub open spec fn echoed(r: Result<PipedModel, Seq<char>>) -> Seq<char> {
    match r {
        Ok(piped) => if piped.success {
            Seq::empty()
        } else {
            piped.stdout
        },
        Err(_) => Seq::empty(),
    }
}

/// Take a captured program for its output or its failure. Besides, what to
/// show of it.
pub fn run_piped(label: &str, r: Result<Piped, String>) -> (out: (Result<String, Report>, String))
    ensures
        match checked(label@, outcome(r)) {
            Ok(stdout) => out.0 is Ok && out.0->Ok_0@ == stdout,
            Err(report) => out.0 is Err && out.0->Err_0@ == report,
        },
        out.1@ == echoed(outcome(r)),
{
    match r {
        Err(source) => {
            let report = Report::new(source).wrap(label.to_owned());
            proof {
                assert(report@.chain =~= seq![label@, source@]);
            }
            (Err(report), String::new())
        },
        Ok(piped) => if piped.success {
            (Ok(piped.stdout), String::new())
        } else {
            let mut message = "`".to_owned();
            message.append(label);
            message.append("` failed with exit code ");
            message.append(piped.status.as_str());
            (Err(Report::new(message)), piped.stdout)
        },
    }
}

/// Container runtime adapter (podman/docker): the Go-template format strings
/// and the argument list of each operation.
pub struct Runtime {
    pub bin: String,
}

/// `run -d <args> -- <image> <bash> -c <command>`.
pub open spec fn run_argv(
    container_args: Seq<Seq<char>>,
    image: Seq<char>,
    bash_bin: Seq<char>,
    exec_cmd: Seq<char>,
) -> Seq<Seq<char>> {
    seq!["run"@, "-d"@] + container_args + seq!["--"@, image, bash_bin, "-c"@, exec_cmd]
}

impl Runtime {
    /// The adapter of the given executable.
    pub fn new(bin: String) -> (rt: Self)
        ensures
            rt.bin == bin,
    {
        Runtime { bin }
    }

    /// The executable.
    pub fn bin(&self) -> (out: &str)
        ensures
            out@ == self.bin@,
    {
        self.bin.as_str()
    }

    /// `run -d` a container with the given volume and workdir arguments,
    /// image, and `bash -c` command. It prints the container id.
    pub fn run(
        &self,
        container_args: &Vec<String>,
        image: &str,
        bash_bin: &str,
        exec_cmd: &str,
    ) -> (args: Vec<String>)
        ensures
            views(args@) == run_argv(views(container_args@), image@, bash_bin@, exec_cmd@),
    {
        let mut args: Vec<String> = Vec::new();
        push_text(&mut args, "run");
        push_text(&mut args, "-d");
        let ghost head = seq!["run"@, "-d"@];
        let ghost extra = views(container_args@);
        let mut i: usize = 0;
        proof {
            assert(views(args@) =~= head + extra.take(0));
        }
        while i < container_args.len()
            invariant
                i <= container_args@.len(),
                extra == views(container_args@),
                views(args@) == head + extra.take(i as int),
            decreases container_args@.len() - i,
        {
            push_text(&mut args, container_args[i].as_str());
            i = i + 1;
            proof {
                assert(extra.take(i as int) =~= extra.take(i - 1).push(extra[i - 1]));
                assert((head + extra.take(i - 1)).push(extra[i - 1]) =~= head + extra.take(
                    i as int,
                ));
            }
        }
        proof {
            assert(extra.take(i as int) =~= extra);
        }
        push_text(&mut args, "--");
        push_text(&mut args, image);
        push_text(&mut args, bash_bin);
        push_text(&mut args, "-c");
        push_text(&mut args, exec_cmd);
        proof {
            assert(views(args@) =~= run_argv(extra, image@, bash_bin@, exec_cmd@));
        }
        args
    }

    /// `stop` the named container.
    pub fn stop(&self, container: &str) -> (args: Vec<String>)
        ensures
            views(args@) == seq!["stop"@, container@],
    {
        let mut args: Vec<String> = Vec::new();
        push_text(&mut args, "stop");
        push_text(&mut args, container);
        proof {
            assert(views(args@) =~= seq!["stop"@, container@]);
        }
        args
    }

    /// `exec -it` an interactive shell into the container.
    pub fn exec_interactive(&self, container: &str, bash_bin: &str, shell_cmd: &str) -> (args: Vec<
        String,
    >)
        ensures
            views(args@) == seq!["exec"@, "-it"@, container@, bash_bin@, "-c"@, shell_cmd@],
    {
        let mut args: Vec<String> = Vec::new();
        push_text(&mut args, "exec");
        push_text(&mut args, "-it");
        push_text(&mut args, container);
        push_text(&mut args, bash_bin);
        push_text(&mut args, "-c");
        push_text(&mut args, shell_cmd);
        proof {
            assert(views(args@) =~= seq![
                "exec"@,
                "-it"@,
                container@,
                bash_bin@,
                "-c"@,
                shell_cmd@,
            ]);
        }
        args
    }

    /// `inspect -f {{.State.Running}}`: it prints `true` for a container that
    /// runs.
    pub fn is_running(&self, container: &str) -> (args: Vec<String>)
        ensures
            views(args@) == seq!["inspect"@, "-f"@, "{{.State.Running}}"@, container@],
    {
        let mut args: Vec<String> = Vec::new();
        push_text(&mut args, "inspect");
        push_text(&mut args, "-f");
        push_text(&mut args, "{{.State.Running}}");
        push_text(&mut args, container);
        proof {
            assert(views(args@) =~= seq!["inspect"@, "-f"@, "{{.State.Running}}"@, container@]);
        }
        args
    }

    /// `inspect -f {{.Id}}`: it prints the container id.
    pub fn container_id(&self, container: &str) -> (args: Vec<String>)
        ensures
            views(args@) == seq!["inspect"@, "-f"@, "{{.Id}}"@, container@],
    {
        let mut args: Vec<String> = Vec::new();
        push_text(&mut args, "inspect");
        push_text(&mut args, "-f");
        push_text(&mut args, "{{.Id}}");
        push_text(&mut args, container);
        proof {
            assert(views(args@) =~= seq!["inspect"@, "-f"@, "{{.Id}}"@, container@]);
        }
        args
    }
}

/// Whether an inspection says that the container runs; one that could not be
/// run says that it does not.
pub open spec fn runs(r: Result<PipedModel, Seq<char>>) -> bool {
    match r {
        Ok(piped) => trimmed(piped.stdout) == "true"@,
        Err(_) => false,
    }
}

/// Whether an inspection says that the container runs.
pub fn says_running(r: &Result<Piped, String>) -> (b: bool)
    ensures
        b == runs(outcome(*r)),
{
    match r {
        Ok(piped) => text::same(text::trim(piped.stdout.as_str()).as_str(), "true"),
        Err(_) => false,
    }
}

/// `nix` adapter for `print-dev-env` and `profile wipe-history`.
pub struct NixInvoker {
    pub bin: String,
}

impl NixInvoker {
    /// The adapter of the given executable.
    pub fn new(bin: String) -> (nix: Self)
        ensures
            nix.bin == bin,
    {
        NixInvoker { bin }
    }

    /// `print-dev-env --profile <profile> <devshell>`: it prints the
    /// activation script.
    pub fn print_dev_env(&self, profile: &str, devshell: &str) -> (args: Vec<String>)
        ensures
            views(args@) == seq!["print-dev-env"@, "--profile"@, profile@, devshell@],
    {
        crate::ctl::nix::print_dev_env_args(profile, devshell)
    }

    /// `profile wipe-history --profile <profile>`.
    pub fn wipe_history(&self, profile: &str) -> (args: Vec<String>)
        ensures
            views(args@) == seq!["profile"@, "wipe-history"@, "--profile"@, profile@],
    {
        crate::ctl::nix::wipe_history_args(profile)
    }
}

/// A program that exited with 0 is taken for its output, and nothing of it
/// is shown. One that failed is a failure under its label, with its status,
/// and its output is shown. One that could not be run is a failure with the
/// reason below the label.
pub proof fn law_captured_program_is_judged(
    label: Seq<char>,
    status: Seq<char>,
    stdout: Seq<char>,
    source: Seq<char>,
)
    ensures
        ({
            let well = Ok::<PipedModel, Seq<char>>(PipedModel { success: true, status, stdout });
            let badly = Ok::<PipedModel, Seq<char>>(PipedModel { success: false, status, stdout });
            let never = Err::<PipedModel, Seq<char>>(source);
            &&& checked(label, well) == Ok::<Seq<char>, ReportModel>(stdout)
            &&& echoed(well) == Seq::<char>::empty()
            &&& checked(label, badly) is Err
            &&& checked(label, badly)->Err_0.chain == seq![
                "`"@ + label + "` failed with exit code "@ + status,
            ]
            &&& checked(label, badly)->Err_0.suggestion is None
            &&& echoed(badly) == stdout
            &&& checked(label, never) is Err
            &&& checked(label, never)->Err_0.chain == seq![label, source]
            &&& checked(label, never)->Err_0.suggestion is None
            &&& echoed(never) == Seq::<char>::empty()
        }),
{
}

/// An inspection says that the container runs where it prints `true`, white
/// space round it aside, and in no other case.
pub proof fn law_running_is_told_by_true(
    front: Seq<char>,
    said: Seq<char>,
    back: Seq<char>,
    piped: PipedModel,
    source: Seq<char>,
)
    requires
        forall|i: int| 0 <= i < front.len() ==> text::is_space(#[trigger] front[i]),
        forall|i: int| 0 <= i < back.len() ==> text::is_space(#[trigger] back[i]),
        said.len() > 0 ==> !text::is_space(said[0]) && !text::is_space(said.last()),
        piped.stdout == front + said + back,
    ensures
        runs(Ok(piped)) <==> said == "true"@,
        !runs(Err(source)),
{
    text::law_trim_keeps_the_middle(front, said, back);
}

/// Wrapping puts the message before the failure, a suggestion leaves the
/// failure as it is.
pub proof fn law_reports_keep_their_causes(
    message: Seq<char>,
    report: ReportModel,
    suggestion: Seq<char>,
)
    ensures
        wrapped(message, report).chain == seq![message] + report.chain,
        wrapped(message, report).suggestion == report.suggestion,
        suggesting(report, suggestion).chain == report.chain,
        suggesting(report, suggestion).suggestion == Some(suggestion),
        plain(seq![message]).chain == seq![message],
        plain(seq![message]).suggestion is None,
{
}

/// The command line of a run: detached, the arguments, the image after `--`,
/// and the command as one argument of its bash.
pub proof fn law_run_line(
    args: Seq<Seq<char>>,
    image: Seq<char>,
    bash: Seq<char>,
    command: Seq<char>,
)
    ensures
        ({
            let argv = run_argv(args, image, bash, command);
            let n = args.len() as int;
            &&& argv.len() == n + 7
            &&& argv[0] == "run"@ && argv[1] == "-d"@
            &&& argv.subrange(2, 2 + n) == args
            &&& argv[n + 2] == "--"@ && argv[n + 3] == image && argv[n + 4] == bash
            &&& argv[n + 5] == "-c"@ && argv[n + 6] == command
        }),
{
    let argv = run_argv(args, image, bash, command);
    assert(argv.subrange(2, 2 + args.len() as int) =~= args);
}

/// A failure's chain and suggestion, and what came of a captured program, are
/// modelled as they are.
pub proof fn law_tool_models_keep_every_field(report: Report, piped: Piped, source: String)
    ensures
        report@.chain == views(report.chain@),
        report@.suggestion is Some <==> report.suggestion is Some,
        report.suggestion is Some ==> report@.suggestion->0 == report.suggestion->0@,
        piped@.success == piped.success,
        piped@.status == piped.status@,
        piped@.stdout == piped.stdout@,
        outcome(Ok(piped)) == Ok::<PipedModel, Seq<char>>(piped@),
        outcome(Err(source)) == Err::<PipedModel, Seq<char>>(source@),
{
}

} // verus!
