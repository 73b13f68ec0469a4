//! Failures of the control flows, and how they are told to people.

use vstd::prelude::*;

use super::config::ConfigError;
use super::fs_error::FsError;
use super::nix::PrintDevEnvError;
use super::runtime::RuntimeError;
use super::stamp::StampError;

verus! {

/// Failures of the control flows: context variants name the failed operation
/// and its object, errors of the parts pass through.
#[derive(Debug, Clone, PartialEq, Eq)]
pub enum CtlError {
    Config(ConfigError),
    Stamp(StampError),
    PrintDevEnv(PrintDevEnvError),
    Runtime(RuntimeError),
    Fs(FsError),
    Digest { source: String },
    SocketNoParent { socket: String },
    NoLog { dir: String },
    PagerSpawn { prog: String, source: String },
    PagerFailed { prog: String },
    UnsetVar { name: String },
    NotRunning { container: String },
    NoCachedEnv { dir: String },
}

impl CtlError {
    /// What `message` says.
    pub open spec fn text(self) -> Seq<char> {
        match self {
            CtlError::Config(err) => err.text(),
            CtlError::Stamp(err) => err.text(),
            CtlError::PrintDevEnv(err) => err.text(),
            CtlError::Runtime(err) => err.text(),
            CtlError::Fs(err) => err.text(),
            CtlError::Digest { source } => "cannot hash the watched files: "@ + source@,
            CtlError::SocketNoParent { socket } => "socket path `"@ + socket@
                + "` has no parent directory"@,
            CtlError::NoLog { dir } => "no `ncap-server-*.log` file in `"@ + dir@ + "`"@,
            CtlError::PagerSpawn { prog, source } => "cannot run pager `"@ + prog@ + "`: "@
                + source@,
            CtlError::PagerFailed { prog } => "pager `"@ + prog@ + "` failed"@,
            CtlError::UnsetVar { name } => "referenced unset variable `"@ + name@ + "`"@,
            CtlError::NotRunning { container } => "container `"@ + container@
                + "` is not running"@,
            CtlError::NoCachedEnv { dir } => "no cached dev environment in `"@ + dir@ + "`"@,
        }
    }

    /// The error for people, without advice.
    pub fn message(&self) -> (out: String)
        ensures
            out@ == self.text(),
    {
        match self {
            CtlError::Config(err) => err.message(),
            CtlError::Stamp(err) => err.message(),
            CtlError::PrintDevEnv(err) => err.message(),
            CtlError::Runtime(err) => err.message(),
            CtlError::Fs(err) => err.message(),
            CtlError::Digest { source } => say("cannot hash the watched files: ", source, ""),
            CtlError::SocketNoParent { socket } => say(
                "socket path `",
                socket,
                "` has no parent directory",
            ),
            CtlError::NoLog { dir } => say("no `ncap-server-*.log` file in `", dir, "`"),
            CtlError::PagerSpawn { prog, source } => {
                let mut out = say("cannot run pager `", prog, "`: ");
                out.append(source.as_str());
                out
            },
            CtlError::PagerFailed { prog } => say("pager `", prog, "` failed"),
            CtlError::UnsetVar { name } => say("referenced unset variable `", name, "`"),
            CtlError::NotRunning { container } => say("container `", container, "` is not running"),
            CtlError::NoCachedEnv { dir } => say("no cached dev environment in `", dir, "`"),
        }
    }

    /// What to do about it, where there is something.
    pub open spec fn advice(self) -> Option<Seq<char>> {
        match self {
            CtlError::NotRunning { .. } | CtlError::NoCachedEnv { .. } => Some(
                "run `ncap-ctl init` to start this project's container"@,
            ),
            CtlError::Config(ConfigError::EmptyProjectName { .. }) | CtlError::Stamp(
                StampError::AlreadyClaimed { .. },
            ) => Some("set `project` to a value mapping to a unique root"@),
            _ => None,
        }
    }
}

fn say(before: &str, middle: &String, after: &str) -> (out: String)
    ensures
        out@ == before@ + middle@ + after@,
        after@ == ""@ ==> out@ == before@ + middle@,
{
    let mut out = before.to_owned();
    out.append(middle.as_str());
    out.append(after);
    proof {
        reveal_strlit("");
        assert(after@ == ""@ ==> out@ =~= before@ + middle@);
    }
    out
}

/// The message on stderr for a failed command, without the program's name:
/// the error, and the advice where there is some as a line of its own.
pub open spec fn failure_text(err: CtlError) -> Seq<char> {
    match err.advice() {
        Some(advice) => err.text() + "\n"@ + advice,
        None => err.text(),
    }
}

/// Render `err` without the program prefix, which the binary applies, plus
/// prescriptive advice as a sibling line where there is some.
pub fn fail(err: &CtlError) -> (out: String)
    ensures
        out@ == failure_text(*err),
{
    let mut out = err.message();
    match err {
        CtlError::NotRunning { .. } | CtlError::NoCachedEnv { .. } => {
            out.append("\n");
            out.append("run `ncap-ctl init` to start this project's container");
        },
        CtlError::Config(ConfigError::EmptyProjectName { .. }) | CtlError::Stamp(
            StampError::AlreadyClaimed { .. },
        ) => {
            out.append("\n");
            out.append("set `project` to a value mapping to a unique root");
        },
        _ => {},
    }
    out
}

/// A failure names its object, and ends in its cause where it has one.
pub proof fn law_control_errors_name_their_object(err: CtlError)
    ensures
        err matches CtlError::Digest { source } ==> source@.is_suffix_of(err.text()),
        err matches CtlError::SocketNoParent { socket } ==> crate::text::occurs(
            err.text(),
            "`"@ + socket@ + "`"@,
        ),
        err matches CtlError::NoLog { dir } ==> crate::text::occurs(err.text(), "`"@ + dir@ + "`"@),
        err matches CtlError::PagerSpawn { prog, source } ==> crate::text::occurs(
            err.text(),
            "`"@ + prog@ + "`"@,
        ) && source@.is_suffix_of(err.text()),
        err matches CtlError::PagerFailed { prog } ==> crate::text::occurs(
            err.text(),
            "`"@ + prog@ + "`"@,
        ),
        err matches CtlError::UnsetVar { name } ==> crate::text::occurs(
            err.text(),
            "`"@ + name@ + "`"@,
        ),
        err matches CtlError::NotRunning { container } ==> crate::text::occurs(
            err.text(),
            "`"@ + container@ + "`"@,
        ),
        err matches CtlError::NoCachedEnv { dir } ==> crate::text::occurs(
            err.text(),
            "`"@ + dir@ + "`"@,
        ),
        err matches CtlError::Config(inner) ==> err.text() == inner.text(),
        err matches CtlError::Stamp(inner) ==> err.text() == inner.text(),
        err matches CtlError::PrintDevEnv(inner) ==> err.text() == inner.text(),
        err matches CtlError::Runtime(inner) ==> err.text() == inner.text(),
        err matches CtlError::Fs(inner) ==> err.text() == inner.text(),
{
    reveal_strlit("`");
    reveal_strlit("`: ");
    reveal_strlit(": ");
    reveal_strlit("socket path `");
    reveal_strlit("socket path ");
    reveal_strlit("` has no parent directory");
    reveal_strlit(" has no parent directory");
    reveal_strlit("no `ncap-server-*.log` file in `");
    reveal_strlit("no `ncap-server-*.log` file in ");
    reveal_strlit("cannot run pager `");
    reveal_strlit("cannot run pager ");
    reveal_strlit("pager `");
    reveal_strlit("pager ");
    reveal_strlit("` failed");
    reveal_strlit(" failed");
    reveal_strlit("referenced unset variable `");
    reveal_strlit("referenced unset variable ");
    reveal_strlit("container `");
    reveal_strlit("container ");
    reveal_strlit("` is not running");
    reveal_strlit(" is not running");
    reveal_strlit("no cached dev environment in `");
    reveal_strlit("no cached dev environment in ");
    let t = err.text();
    let none = Seq::<char>::empty();
    match err {
        CtlError::Digest { source } => {
            assert(source@ =~= t.subrange(t.len() - source@.len(), t.len() as int));
        },
        CtlError::SocketNoParent { socket } => {
            lemma_named("socket path "@, socket@, " has no parent directory"@, t);
        },
        CtlError::NoLog { dir } => {
            lemma_named("no `ncap-server-*.log` file in "@, dir@, none, t);
        },
        CtlError::PagerSpawn { prog, source } => {
            lemma_named("cannot run pager "@, prog@, ": "@ + source@, t);
            assert(source@ =~= t.subrange(t.len() - source@.len(), t.len() as int));
        },
        CtlError::PagerFailed { prog } => {
            lemma_named("pager "@, prog@, " failed"@, t);
        },
        CtlError::UnsetVar { name } => {
            lemma_named("referenced unset variable "@, name@, none, t);
        },
        CtlError::NotRunning { container } => {
            lemma_named("container "@, container@, " is not running"@, t);
        },
        CtlError::NoCachedEnv { dir } => {
            lemma_named("no cached dev environment in "@, dir@, none, t);
        },
        _ => {},
    }
}

proof fn lemma_named(front: Seq<char>, object: Seq<char>, back: Seq<char>, t: Seq<char>)
    requires
        t =~= front + ("`"@ + object + "`"@) + back,
    ensures
        crate::text::occurs(t, "`"@ + object + "`"@),
{
    crate::text::law_occurrence_splits_the_text(front, "`"@ + object + "`"@, back);
}

/// Advice comes on a line of its own below the failure: to start the
/// container where it or its environment is missing, to choose another name
/// where the name is empty or taken, and none otherwise.
pub proof fn law_advice_follows_the_failure(err: CtlError)
    ensures
        err is NotRunning || err is NoCachedEnv ==> failure_text(err) == err.text()
            + "\nrun `ncap-ctl init` to start this project's container"@,
        (err matches CtlError::Config(c) && c is EmptyProjectName) || (err matches CtlError::Stamp(
            s,
        ) && s is AlreadyClaimed) ==> failure_text(err) == err.text()
            + "\nset `project` to a value mapping to a unique root"@,
        !(err is NotRunning || err is NoCachedEnv || (err matches CtlError::Config(c)
            && c is EmptyProjectName) || (err matches CtlError::Stamp(s) && s is AlreadyClaimed))
            ==> failure_text(err) == err.text(),
{
    reveal_strlit("\n");
    reveal_strlit("run `ncap-ctl init` to start this project's container");
    reveal_strlit("\nrun `ncap-ctl init` to start this project's container");
    reveal_strlit("set `project` to a value mapping to a unique root");
    reveal_strlit("\nset `project` to a value mapping to a unique root");
    assert("\n"@ + "run `ncap-ctl init` to start this project's container"@
        =~= "\nrun `ncap-ctl init` to start this project's container"@);
    assert("\n"@ + "set `project` to a value mapping to a unique root"@
        =~= "\nset `project` to a value mapping to a unique root"@);
    let a = "run `ncap-ctl init` to start this project's container"@;
    let b = "set `project` to a value mapping to a unique root"@;
    assert(err.text() + "\n"@ + a =~= err.text() + ("\n"@ + a));
    assert(err.text() + "\n"@ + b =~= err.text() + ("\n"@ + b));
}

} // verus!
