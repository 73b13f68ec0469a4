//! Nix adapter: `print-dev-env` into the cache and profile-history pruning,
//! as argument lists and what their outcome means.

use vstd::prelude::*;

use crate::text::views;

verus! {

/// Failure of `nix print-dev-env`.
#[derive(Debug, Clone, PartialEq, Eq)]
pub enum PrintDevEnvError {
    Spawn { source: String },
    Failed { devshell: String },
}

impl PrintDevEnvError {
    /// What `message` says.
    pub open spec fn text(self) -> Seq<char> {
        match self {
            PrintDevEnvError::Spawn { source } => "cannot run `nix print-dev-env`: "@ + source@,
            PrintDevEnvError::Failed { devshell } => "cannot eval `"@ + devshell@
                + "` with `nix print-dev-env`"@,
        }
    }

    /// One line for people.
    pub fn message(&self) -> (out: String)
        ensures
            out@ == self.text(),
    {
        match self {
            PrintDevEnvError::Spawn { source } => {
                let mut out = "cannot run `nix print-dev-env`: ".to_owned();
                out.append(source.as_str());
                out
            },
            PrintDevEnvError::Failed { devshell } => {
                let mut out = "cannot eval `".to_owned();
                out.append(devshell.as_str());
                out.append("` with `nix print-dev-env`");
                out
            },
        }
    }
}

/// `print-dev-env --profile <profile> <devshell>`: its stdout is the env
/// dump.
pub fn print_dev_env_args(profile: &str, devshell: &str) -> (args: Vec<String>)
    ensures
        views(args@) == seq!["print-dev-env"@, "--profile"@, profile@, devshell@],
{
    let args: Vec<String> = vec![
        "print-dev-env".to_owned(),
        "--profile".to_owned(),
        profile.to_owned(),
        devshell.to_owned(),
    ];
    proof {
        assert(views(args@) =~= seq!["print-dev-env"@, "--profile"@, profile@, devshell@]);
    }
    args
}

/// `profile wipe-history --profile <profile>`.
pub fn wipe_history_args(profile: &str) -> (args: Vec<String>)
    ensures
        views(args@) == seq!["profile"@, "wipe-history"@, "--profile"@, profile@],
{
    let args: Vec<String> = vec![
        "profile".to_owned(),
        "wipe-history".to_owned(),
        "--profile".to_owned(),
        profile.to_owned(),
    ];
    proof {
        assert(views(args@) =~= seq!["profile"@, "wipe-history"@, "--profile"@, profile@]);
    }
    args
}

/// What came of an evaluation that was spawned.
pub struct Evaluation {
    /// It exited with 0.
    pub success: bool,
    /// What it printed: the env dump of a success.
    pub stdout: Vec<u8>,
}

/// The env dump of an evaluation that exited with 0, otherwise the failure to
/// evaluate or to spawn.
pub fn evaluated(outcome: Result<Evaluation, String>, devshell: &str) -> (r: Result<
    Vec<u8>,
    PrintDevEnvError,
>)
    ensures
        match outcome {
            Ok(evaluation) => if evaluation.success {
                r == Ok::<Vec<u8>, PrintDevEnvError>(evaluation.stdout)
            } else {
                r matches Err(PrintDevEnvError::Failed { devshell: d }) && d@ == devshell@
            },
            Err(source) => r == Err::<Vec<u8>, PrintDevEnvError>(
                PrintDevEnvError::Spawn { source },
            ),
        },
{
    match outcome {
        Ok(evaluation) => if evaluation.success {
            Ok(evaluation.stdout)
        } else {
            Err(PrintDevEnvError::Failed { devshell: devshell.to_owned() })
        },
        Err(source) => Err(PrintDevEnvError::Spawn { source }),
    }
}

/// A failed evaluation names the devshell, or why nix could not be run.
pub proof fn law_evaluation_errors_say_what_failed(source: String, devshell: String)
    ensures
        (PrintDevEnvError::Spawn { source }).text() == "cannot run `nix print-dev-env`: "@
            + source@,
        (PrintDevEnvError::Failed { devshell }).text() == "cannot eval `"@ + devshell@
            + "` with `nix print-dev-env`"@,
{
}

} // verus!
