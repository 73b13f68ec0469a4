//! Env-contract resolution: uniform demands and defaults. Every command
//! except `SetupEnv` demands the full set, and a missing variable is named in
//! the error. `SetupEnv` derives the five project-scoped variables and prints
//! them as bash `export` lines for the host shell to source.

use vstd::prelude::*;

use super::names;
use super::paths::{self, NoHome};
use super::runtime::Runtime;
use super::shell;
use crate::environment::Environment;
use crate::json;
use crate::number::{self, NumberError};
use crate::pathname::{self, file_name_spec, has_parent_component, is_absolute, join_spec};
use crate::server::LogLevel;
use crate::text::{self, views};

verus! {

/// A `ncap-ctl` subcommand: the variant selects the control flow and the
/// demand set.
#[derive(Clone, Copy, Debug, PartialEq, Eq, Structural)]
pub enum Cmd {
    /// Evaluate the devshell, cache it, and start/restart the container
    Init,
    /// Start the container from a cached env dump
    Start,
    /// Stop the running container
    Stop,
    /// Stop and restart the container
    Restart,
    /// Enter an interactive shell inside the container
    Enter,
    /// Print container status
    Status,
    /// Show the latest server log
    Log,
    /// Wipe all project state: cache, state dir, runtime dir
    Clean,
    /// Print the expanded runtime adapter options
    ShowOptions,
    /// Resolve the project-scoped envs and print them as bash `export` lines
    SetupEnv,
}

/// Resolved configuration for one command. Fields a command does not use are
/// populated anyway; the flows read what they demanded upfront.
#[derive(Debug)]
pub struct Config {
    /// Project root the container mounts and runs in.
    pub root: String,
    /// Sanitized project name scoping container, socket, cache, and logs.
    pub project: String,
    /// Container name managed by the runtime adapter.
    pub container: String,
    /// Unix socket path served by `ncap-server`.
    pub socket: String,
    /// Cache dir holding the env dump, hash, profile, and stamp.
    pub cache_dir: String,
    /// Log dir holding per-run `ncap-server-*.log` files.
    pub log_dir: String,
    /// OCI runtime binary (`podman` or `docker`).
    pub runtime: String,
    /// Seconds to wait for liveness before reporting not-live.
    pub timeout: u64,
    /// Project-root-relative watched files gating freshness.
    pub watch_files: Vec<String>,
    /// Extra runtime options appended after the defaults.
    pub run_opts: Vec<String>,
    /// Whether to drop capabilities and bind-mount watches read-only.
    pub harden: bool,
    /// Minimum severity the server logs at.
    pub log_level: LogLevel,
    /// Container image to launch.
    pub image: String,
    /// Server binary path executed inside the container.
    pub server: String,
    /// Nix binary used for `print-dev-env`.
    pub nix: String,
    /// Bash binary used for launch and exec commands.
    pub bash: String,
    /// Devshell attribute evaluated by `print-dev-env`.
    pub devshell: String,
}

/// A configuration as a mathematical value.
#[verifier::ext_equal]
pub struct ConfigModel {
    pub root: Seq<char>,
    pub project: Seq<char>,
    pub container: Seq<char>,
    pub socket: Seq<char>,
    pub cache_dir: Seq<char>,
    pub log_dir: Seq<char>,
    pub runtime: Seq<char>,
    pub timeout: u64,
    pub watch_files: Seq<Seq<char>>,
    pub run_opts: Seq<Seq<char>>,
    pub harden: bool,
    pub log_level: LogLevel,
    pub image: Seq<char>,
    pub server: Seq<char>,
    pub nix: Seq<char>,
    pub bash: Seq<char>,
    pub devshell: Seq<char>,
}

impl View for Config {
    type V = ConfigModel;

    open spec fn view(&self) -> ConfigModel {
        ConfigModel {
            root: self.root@,
            project: self.project@,
            container: self.container@,
            socket: self.socket@,
            cache_dir: self.cache_dir@,
            log_dir: self.log_dir@,
            runtime: self.runtime@,
            timeout: self.timeout,
            watch_files: views(self.watch_files@),
            run_opts: views(self.run_opts@),
            harden: self.harden,
            log_level: self.log_level,
            image: self.image@,
            server: self.server@,
            nix: self.nix@,
            bash: self.bash@,
            devshell: self.devshell@,
        }
    }
}

impl Config {
    /// A [`Runtime`] scoped to this config's container: the executable name,
    /// container name, and bash path copied from the config.
    pub fn runtime(&self) -> (rt: Runtime)
        ensures
            rt.bin@ == self.runtime@,
            rt.name@ == self.container@,
            rt.bash@ == self.bash@,
    {
        Runtime::new(self.runtime.clone(), self.container.clone(), self.bash.clone())
    }
}

/// Failures resolving the `NCAP_*` env contract into a [`Config`].
#[derive(Debug, Clone, PartialEq, Eq)]
pub enum ConfigError {
    Missing { var: &'static str },
    EmptyProjectName { root: String },
    NotJsonArray { var: &'static str, source: String },
    BadTimeout { source: NumberError },
    NotRelativeWatchFile { entry: String },
    WatchFileNotFile { entry: String },
    BadRuntime { value: String },
    BadHarden { value: String },
    BadLevel { value: String },
    NoHome(NoHome),
}

/// A failure as a mathematical value.
#[verifier::ext_equal]
pub enum ConfigFault {
    Missing(Seq<char>),
    EmptyProjectName(Seq<char>),
    NotJsonArray(Seq<char>, Seq<char>),
    BadTimeout(NumberError),
    NotRelativeWatchFile(Seq<char>),
    WatchFileNotFile(Seq<char>),
    BadRuntime(Seq<char>),
    BadHarden(Seq<char>),
    BadLevel(Seq<char>),
    NoHome(Seq<char>, Seq<char>),
}

impl View for ConfigError {
    type V = ConfigFault;

    open spec fn view(&self) -> ConfigFault {
        match self {
            ConfigError::Missing { var } => ConfigFault::Missing(var@),
            ConfigError::EmptyProjectName { root } => ConfigFault::EmptyProjectName(root@),
            ConfigError::NotJsonArray { var, source } => ConfigFault::NotJsonArray(var@, source@),
            ConfigError::BadTimeout { source } => ConfigFault::BadTimeout(*source),
            ConfigError::NotRelativeWatchFile { entry } => ConfigFault::NotRelativeWatchFile(
                entry@,
            ),
            ConfigError::WatchFileNotFile { entry } => ConfigFault::WatchFileNotFile(entry@),
            ConfigError::BadRuntime { value } => ConfigFault::BadRuntime(value@),
            ConfigError::BadHarden { value } => ConfigFault::BadHarden(value@),
            ConfigError::BadLevel { value } => ConfigFault::BadLevel(value@),
            ConfigError::NoHome(err) => ConfigFault::NoHome(err.what@, err.var@),
        }
    }
}

impl ConfigError {
    /// What `message` says.
    pub open spec fn text(self) -> Seq<char> {
        match self {
            ConfigError::Missing { var } => "required `"@ + var@ + "` is not set"@,
            ConfigError::EmptyProjectName { root } => "cannot derive a project name from root `"@
                + root@ + "`"@,
            ConfigError::NotJsonArray { var, source } => "`"@ + var@
                + "` is not a JSON array of strings: "@ + source@,
            ConfigError::BadTimeout { source } => "`NCAP_TIMEOUT` is not a number of seconds: "@
                + source.description(),
            ConfigError::NotRelativeWatchFile { entry } => "`NCAP_WATCH_FILES` entry `"@ + entry@
                + "` is not a project-root-relative path"@,
            ConfigError::WatchFileNotFile { entry } => "`NCAP_WATCH_FILES` entry `"@ + entry@
                + "` is not a file"@,
            ConfigError::BadRuntime {
                value,
            } => "`NCAP_RUNTIME` must be `podman` or `docker`, got `"@ + value@ + "`"@,
            ConfigError::BadHarden { value } => "`NCAP_HARDEN` must be `true` or `false`, got `"@
                + value@ + "`"@,
            ConfigError::BadLevel {
                value,
            } => "`NCAP_LOG_LEVEL` must be `debug`, `info`, `warning`, or `error`, got `"@ + value@
                + "`"@,
            ConfigError::NoHome(err) => err.text(),
        }
    }

    /// One line for people.
    pub fn message(&self) -> (out: String)
        ensures
            out@ == self.text(),
    {
        let mut out: String = String::new();
        match self {
            ConfigError::Missing { var } => {
                out.append("required `");
                out.append(var);
                out.append("` is not set");
            },
            ConfigError::EmptyProjectName { root } => {
                out.append("cannot derive a project name from root `");
                out.append(root.as_str());
                out.append("`");
            },
            ConfigError::NotJsonArray { var, source } => {
                out.append("`");
                out.append(var);
                out.append("` is not a JSON array of strings: ");
                out.append(source.as_str());
            },
            ConfigError::BadTimeout { source } => {
                out.append("`NCAP_TIMEOUT` is not a number of seconds: ");
                out.append(source.describe().as_str());
            },
            ConfigError::NotRelativeWatchFile { entry } => {
                out.append("`NCAP_WATCH_FILES` entry `");
                out.append(entry.as_str());
                out.append("` is not a project-root-relative path");
            },
            ConfigError::WatchFileNotFile { entry } => {
                out.append("`NCAP_WATCH_FILES` entry `");
                out.append(entry.as_str());
                out.append("` is not a file");
            },
            ConfigError::BadRuntime { value } => {
                out.append("`NCAP_RUNTIME` must be `podman` or `docker`, got `");
                out.append(value.as_str());
                out.append("`");
            },
            ConfigError::BadHarden { value } => {
                out.append("`NCAP_HARDEN` must be `true` or `false`, got `");
                out.append(value.as_str());
                out.append("`");
            },
            ConfigError::BadLevel { value } => {
                out.append(
                    "`NCAP_LOG_LEVEL` must be `debug`, `info`, `warning`, or `error`, got `",
                );
                out.append(value.as_str());
                out.append("`");
            },
            ConfigError::NoHome(err) => {
                out.append(err.message().as_str());
            },
        }
        proof {
            assert(out@ =~= self.text());
        }
        out
    }
}

// ---------------------------------------------------------------------------
// Single variables
// ---------------------------------------------------------------------------

/// Names and values.
pub type Vars = Map<Seq<char>, Seq<char>>;

/// `var` is set, and not empty.
pub open spec fn is_set(vars: Vars, var: Seq<char>) -> bool {
    vars.contains_key(var) && vars[var].len() > 0
}

/// The value of a variable that must be set.
pub open spec fn demanded(vars: Vars, var: Seq<char>) -> Result<Seq<char>, ConfigFault> {
    if is_set(vars, var) {
        Ok(vars[var])
    } else {
        Err(ConfigFault::Missing(var))
    }
}

/// `r` is the text that `want` says, or the failure.
pub open spec fn text_result(
    r: Result<String, ConfigError>,
    want: Result<Seq<char>, ConfigFault>,
) -> bool {
    match want {
        Ok(value) => r is Ok && r->Ok_0@ == value,
        Err(fault) => r is Err && r->Err_0@ == fault,
    }
}

fn demand(env: &Environment, var: &'static str) -> (r: Result<String, ConfigError>)
    ensures
        text_result(r, demanded(env@, var@)),
{
    match env.get_non_empty(var) {
        Some(value) => Ok(value),
        None => Err(ConfigError::Missing { var }),
    }
}

/// `podman` or `docker`, nothing else.
pub open spec fn runtime_of(vars: Vars) -> Result<Seq<char>, ConfigFault> {
    match demanded(vars, "NCAP_RUNTIME"@) {
        Err(fault) => Err(fault),
        Ok(raw) => if raw == "podman"@ || raw == "docker"@ {
            Ok(raw)
        } else {
            Err(ConfigFault::BadRuntime(raw))
        },
    }
}

pub fn parse_runtime(env: &Environment) -> (r: Result<String, ConfigError>)
    ensures
        text_result(r, runtime_of(env@)),
{
    match demand(env, "NCAP_RUNTIME") {
        Err(err) => Err(err),
        Ok(raw) => if text::same(raw.as_str(), "podman") || text::same(raw.as_str(), "docker") {
            Ok(raw)
        } else {
            Err(ConfigError::BadRuntime { value: raw })
        },
    }
}

/// A number of seconds.
pub open spec fn timeout_of(vars: Vars) -> Result<u64, ConfigFault> {
    match demanded(vars, "NCAP_TIMEOUT"@) {
        Err(fault) => Err(fault),
        Ok(raw) => match number::number_value(raw) {
            Ok(secs) => Ok(secs as u64),
            Err(source) => Err(ConfigFault::BadTimeout(source)),
        },
    }
}

pub fn parse_timeout(env: &Environment) -> (r: Result<u64, ConfigError>)
    ensures
        match timeout_of(env@) {
            Ok(secs) => r is Ok && r->Ok_0 == secs,
            Err(fault) => r is Err && r->Err_0@ == fault,
        },
{
    match demand(env, "NCAP_TIMEOUT") {
        Err(err) => Err(err),
        Ok(raw) => match number::parse_number(raw.as_str()) {
            Ok(secs) => Ok(secs),
            Err(source) => Err(ConfigError::BadTimeout { source }),
        },
    }
}

/// The list in a JSON array variable, whose text reads as `parsed`.
pub open spec fn list_of(
    vars: Vars,
    var: Seq<char>,
    parsed: Result<Seq<Seq<char>>, Seq<char>>,
) -> Result<Seq<Seq<char>>, ConfigFault> {
    match demanded(vars, var) {
        Err(fault) => Err(fault),
        Ok(_) => match parsed {
            Ok(list) => Ok(list),
            Err(source) => Err(ConfigFault::NotJsonArray(var, source)),
        },
    }
}

/// `r` is the list that `want` says, or the failure.
pub open spec fn list_result(
    r: Result<Vec<String>, ConfigError>,
    want: Result<Seq<Seq<char>>, ConfigFault>,
) -> bool {
    match want {
        Ok(list) => r is Ok && views(r->Ok_0@) == list,
        Err(fault) => r is Err && r->Err_0@ == fault,
    }
}

/// The list in `var`, whose raw text the JSON reader turned into `parsed`.
fn take_list(
    env: &Environment,
    var: &'static str,
    parsed: Result<Vec<String>, String>,
) -> (r: Result<Vec<String>, ConfigError>)
    ensures
        list_result(r, list_of(env@, var@, parsed_view(parsed))),
{
    match demand(env, var) {
        Err(err) => Err(err),
        Ok(_) => match parsed {
            Ok(list) => Ok(list),
            Err(source) => Err(ConfigError::NotJsonArray { var, source }),
        },
    }
}

/// A reading of JSON text as a mathematical value.
pub open spec fn parsed_view(parsed: Result<Vec<String>, String>) -> Result<
    Seq<Seq<char>>,
    Seq<char>,
> {
    match parsed {
        Ok(list) => Ok(views(list@)),
        Err(source) => Err(source@),
    }
}

/// What the JSON reader makes of the value of `var`; of no interest where it
/// is not set.
fn read_list(env: &Environment, var: &'static str) -> (r: Result<Vec<String>, String>)
    ensures
        is_set(env@, var@) ==> parsed_view(r) == json::string_array(env@[var@]),
{
    match env.get_non_empty(var) {
        Some(raw) => json::read_string_array(raw.as_str()),
        None => Ok(Vec::new()),
    }
}

pub fn parse_watch_files(env: &Environment) -> (r: Result<Vec<String>, ConfigError>)
    ensures
        list_result(
            r,
            list_of(
                env@,
                "NCAP_WATCH_FILES"@,
                json::string_array(env@["NCAP_WATCH_FILES"@]),
            ),
        ),
{
    take_list(env, "NCAP_WATCH_FILES", read_list(env, "NCAP_WATCH_FILES"))
}

pub fn parse_run_opts(env: &Environment) -> (r: Result<Vec<String>, ConfigError>)
    ensures
        list_result(
            r,
            list_of(env@, "NCAP_RUN_OPTS"@, json::string_array(env@["NCAP_RUN_OPTS"@])),
        ),
{
    take_list(env, "NCAP_RUN_OPTS", read_list(env, "NCAP_RUN_OPTS"))
}

/// `true` or `false`, nothing else.
pub open spec fn harden_of(vars: Vars) -> Result<bool, ConfigFault> {
    match demanded(vars, "NCAP_HARDEN"@) {
        Err(fault) => Err(fault),
        Ok(raw) => if raw == "true"@ {
            Ok(true)
        } else if raw == "false"@ {
            Ok(false)
        } else {
            Err(ConfigFault::BadHarden(raw))
        },
    }
}

pub fn parse_harden(env: &Environment) -> (r: Result<bool, ConfigError>)
    ensures
        match harden_of(env@) {
            Ok(on) => r is Ok && r->Ok_0 == on,
            Err(fault) => r is Err && r->Err_0@ == fault,
        },
{
    match demand(env, "NCAP_HARDEN") {
        Err(err) => Err(err),
        Ok(raw) => if text::same(raw.as_str(), "true") {
            Ok(true)
        } else if text::same(raw.as_str(), "false") {
            Ok(false)
        } else {
            Err(ConfigError::BadHarden { value: raw })
        },
    }
}

/// One of the four level words, nothing else.
pub open spec fn level_of(vars: Vars) -> Result<LogLevel, ConfigFault> {
    match demanded(vars, "NCAP_LOG_LEVEL"@) {
        Err(fault) => Err(fault),
        Ok(raw) => if raw == LogLevel::Debug.word() {
            Ok(LogLevel::Debug)
        } else if raw == LogLevel::Info.word() {
            Ok(LogLevel::Info)
        } else if raw == LogLevel::Warning.word() {
            Ok(LogLevel::Warning)
        } else if raw == LogLevel::Error.word() {
            Ok(LogLevel::Error)
        } else {
            Err(ConfigFault::BadLevel(raw))
        },
    }
}

/// The server's level vocabulary is the contract: exact match against the
/// four words.
pub fn parse_log_level(env: &Environment) -> (r: Result<LogLevel, ConfigError>)
    ensures
        match level_of(env@) {
            Ok(level) => r is Ok && r->Ok_0 == level,
            Err(fault) => r is Err && r->Err_0@ == fault,
        },
{
    match demand(env, "NCAP_LOG_LEVEL") {
        Err(err) => Err(err),
        Ok(raw) => match LogLevel::parse(raw.as_str()) {
            Some(level) => {
                proof {
                    crate::server::law_level_words_are_distinct(level, LogLevel::Debug);
                    crate::server::law_level_words_are_distinct(level, LogLevel::Info);
                    crate::server::law_level_words_are_distinct(level, LogLevel::Warning);
                    crate::server::law_level_words_are_distinct(level, LogLevel::Error);
                }
                Ok(level)
            },
            None => Err(ConfigError::BadLevel { value: raw }),
        },
    }
}

// ---------------------------------------------------------------------------
// Watched files
// ---------------------------------------------------------------------------

/// What stands at a path, links followed.
#[derive(Clone, Copy, Debug, PartialEq, Eq, Structural)]
pub enum FileKind {
    /// Nothing, or a dangling link.
    Absent,
    File,
    /// A directory or another thing that is no file.
    Other,
}

/// What stands at the paths that were looked at.
pub struct FileTable {
    pub entries: Vec<(String, FileKind)>,
}

/// The kinds as a function of the path: the first entry for it counts, and
/// where there is none nothing stands.
pub open spec fn kind_at(entries: Seq<(String, FileKind)>, path: Seq<char>) -> FileKind
    decreases entries.len(),
{
    if entries.len() == 0 {
        FileKind::Absent
    } else if entries[0].0@ == path {
        entries[0].1
    } else {
        kind_at(entries.drop_first(), path)
    }
}

impl FileTable {
    /// What stands at `path`.
    pub open spec fn at(self, path: Seq<char>) -> FileKind {
        kind_at(self.entries@, path)
    }

    /// What stands at `path`.
    pub fn kind(&self, path: &str) -> (kind: FileKind)
        ensures
            kind == self.at(path@),
    {
        let mut i: usize = 0;
        proof {
            assert(self.entries@.skip(0) =~= self.entries@);
        }
        while i < self.entries.len()
            invariant
                i <= self.entries@.len(),
                kind_at(self.entries@.skip(i as int), path@) == self.at(path@),
            decreases self.entries@.len() - i,
        {
            proof {
                assert(self.entries@.skip(i as int).drop_first() =~= self.entries@.skip(i + 1));
            }
            if text::same(self.entries[i].0.as_str(), path) {
                return self.entries[i].1;
            }
            i = i + 1;
        }
        FileKind::Absent
    }
}

/// The failure of a single watched file.
pub open spec fn watch_fault(root: Seq<char>, entry: Seq<char>, files: FileTable) -> Option<
    ConfigFault,
> {
    if is_absolute(entry) || has_parent_component(entry) {
        Some(ConfigFault::NotRelativeWatchFile(entry))
    } else if files.at(join_spec(root, entry)) == FileKind::Other {
        Some(ConfigFault::WatchFileNotFile(entry))
    } else {
        None
    }
}

/// The failure of the first watched file that has one.
pub open spec fn watch_files_fault(
    root: Seq<char>,
    entries: Seq<Seq<char>>,
    files: FileTable,
) -> Option<ConfigFault>
    decreases entries.len(),
{
    if entries.len() == 0 {
        None
    } else {
        match watch_fault(root, entries[0], files) {
            Some(fault) => Some(fault),
            None => watch_files_fault(root, entries.drop_first(), files),
        }
    }
}

/// Every entry must be a project-root-relative path, with no `..` component
/// to escape the root; an entry that exists must be a file. Absent entries
/// are fine, and a dangling link counts as absent.
pub fn validate_watch_files(root: &str, entries: &Vec<String>, files: &FileTable) -> (r: Result<
    (),
    ConfigError,
>)
    ensures
        match watch_files_fault(root@, views(entries@), *files) {
            Some(fault) => r is Err && r->Err_0@ == fault,
            None => r is Ok,
        },
{
    let ghost all = views(entries@);
    let mut i: usize = 0;
    proof {
        assert(all.skip(0) =~= all);
    }
    while i < entries.len()
        invariant
            i <= entries@.len(),
            all == views(entries@),
            watch_files_fault(root@, all.skip(i as int), *files) == watch_files_fault(
                root@,
                all,
                *files,
            ),
        decreases entries@.len() - i,
    {
        let entry = &entries[i];
        proof {
            assert(all.skip(i as int)[0] == entry@);
            assert(all.skip(i as int).drop_first() =~= all.skip(i + 1));
        }
        if pathname::absolute(entry.as_str()) || pathname::climbs(entry.as_str()) {
            return Err(ConfigError::NotRelativeWatchFile { entry: entry.clone() });
        }
        if files.kind(pathname::join(root, entry.as_str()).as_str()) == FileKind::Other {
            return Err(ConfigError::WatchFileNotFile { entry: entry.clone() });
        }
        i = i + 1;
    }
    Ok(())
}

// ---------------------------------------------------------------------------
// The whole configuration
// ---------------------------------------------------------------------------

/// The configuration that the variables come to, or the first failure: the
/// checked variables in their order, the root and the watched files below
/// it, then the rest, all of it demanded.
pub open spec fn resolved(
    vars: Vars,
    files: FileTable,
    watch: Result<Seq<Seq<char>>, Seq<char>>,
    opts: Result<Seq<Seq<char>>, Seq<char>>,
) -> Result<ConfigModel, ConfigFault> {
    match checked(vars, watch, opts) {
        Err(fault) => Err(fault),
        Ok(early) => match demanded(vars, "NCAP_PROJECT_ROOT"@) {
            Err(fault) => Err(fault),
            Ok(root) => match watch_files_fault(root, early.watch_files, files) {
                Some(fault) => Err(fault),
                None => match first_missing(vars, project_vars()) {
                    Some(var) => Err(ConfigFault::Missing(var)),
                    None => Ok(
                        ConfigModel {
                            root,
                            project: vars["NCAP_PROJECT"@],
                            container: vars["NCAP_CONTAINER"@],
                            socket: vars["NCAP_SOCKET"@],
                            cache_dir: vars["NCAP_CACHE_DIR"@],
                            log_dir: vars["NCAP_LOG_DIR"@],
                            runtime: early.runtime,
                            timeout: early.timeout,
                            watch_files: early.watch_files,
                            run_opts: early.run_opts,
                            harden: early.harden,
                            log_level: early.log_level,
                            image: vars["NCAP_IMAGE"@],
                            server: vars["NCAP_SERVER"@],
                            nix: vars["NCAP_NIX"@],
                            bash: vars["NCAP_BASH"@],
                            devshell: vars["NCAP_DEVSHELL"@],
                        },
                    ),
                },
            },
        },
    }
}

/// The variables that have a form of their own.
#[verifier::ext_equal]
pub struct Checked {
    pub runtime: Seq<char>,
    pub timeout: u64,
    pub watch_files: Seq<Seq<char>>,
    pub run_opts: Seq<Seq<char>>,
    pub harden: bool,
    pub log_level: LogLevel,
}

/// The checked variables, or the first failure among them.
pub open spec fn checked(
    vars: Vars,
    watch: Result<Seq<Seq<char>>, Seq<char>>,
    opts: Result<Seq<Seq<char>>, Seq<char>>,
) -> Result<Checked, ConfigFault> {
    match (
        runtime_of(vars),
        timeout_of(vars),
        list_of(vars, "NCAP_WATCH_FILES"@, watch),
        list_of(vars, "NCAP_RUN_OPTS"@, opts),
        harden_of(vars),
        level_of(vars),
    ) {
        (Err(fault), _, _, _, _, _) => Err(fault),
        (Ok(_), Err(fault), _, _, _, _) => Err(fault),
        (Ok(_), Ok(_), Err(fault), _, _, _) => Err(fault),
        (Ok(_), Ok(_), Ok(_), Err(fault), _, _) => Err(fault),
        (Ok(_), Ok(_), Ok(_), Ok(_), Err(fault), _) => Err(fault),
        (Ok(_), Ok(_), Ok(_), Ok(_), Ok(_), Err(fault)) => Err(fault),
        (Ok(runtime), Ok(timeout), Ok(watch_files), Ok(run_opts), Ok(harden), Ok(log_level)) => Ok(
            Checked { runtime, timeout, watch_files, run_opts, harden, log_level },
        ),
    }
}

/// The variables demanded after the root, in the order of the demand.
pub open spec fn project_vars() -> Seq<Seq<char>> {
    seq![
        "NCAP_PROJECT"@,
        "NCAP_CONTAINER"@,
        "NCAP_SOCKET"@,
        "NCAP_CACHE_DIR"@,
        "NCAP_LOG_DIR"@,
        "NCAP_DEVSHELL"@,
        "NCAP_NIX"@,
        "NCAP_IMAGE"@,
        "NCAP_SERVER"@,
        "NCAP_BASH"@,
    ]
}

/// The first of `names` that is not set.
pub open spec fn first_missing(vars: Vars, names: Seq<Seq<char>>) -> Option<Seq<char>>
    decreases names.len(),
{
    if names.len() == 0 {
        None
    } else if !is_set(vars, names[0]) {
        Some(names[0])
    } else {
        first_missing(vars, names.drop_first())
    }
}

/// Where the first `k` names are set and the next is not, that one is the
/// first missing; where all are set there is none.
proof fn lemma_first_missing(vars: Vars, names: Seq<Seq<char>>, k: int)
    requires
        0 <= k <= names.len(),
        forall|i: int| 0 <= i < k ==> is_set(vars, #[trigger] names[i]),
        k < names.len() ==> !is_set(vars, names[k]),
    ensures
        first_missing(vars, names) == if k < names.len() {
            Some(names[k])
        } else {
            None
        },
    decreases k,
{
    if k > 0 {
        let rest = names.drop_first();
        assert forall|i: int| 0 <= i < k - 1 implies is_set(vars, #[trigger] rest[i]) by {
            assert(rest[i] == names[i + 1]);
        }
        assert(is_set(vars, names[0]));
        if k < names.len() {
            assert(rest[k - 1] == names[k]);
        }
        lemma_first_missing(vars, rest, k - 1);
    }
}

/// `r` is the configuration that `want` says, or the failure.
pub open spec fn config_result(
    r: Result<Config, ConfigError>,
    want: Result<ConfigModel, ConfigFault>,
) -> bool {
    match want {
        Ok(config) => r is Ok && r->Ok_0@ == config,
        Err(fault) => r is Err && r->Err_0@ == fault,
    }
}

/// Resolve the full configuration, with the two JSON array variables already
/// read: `watch` and `opts` are what their texts come to.
pub fn resolve_parsed(
    env: &Environment,
    files: &FileTable,
    watch: Result<Vec<String>, String>,
    opts: Result<Vec<String>, String>,
) -> (r: Result<Config, ConfigError>)
    ensures
        config_result(r, resolved(env@, *files, parsed_view(watch), parsed_view(opts))),
{
    let ghost vars = env@;
    let runtime = match parse_runtime(env) {
        Ok(runtime) => runtime,
        Err(err) => return Err(err),
    };
    let timeout: u64 = match parse_timeout(env) {
        Ok(timeout) => timeout,
        Err(err) => return Err(err),
    };
    let watch_files = match take_list(env, "NCAP_WATCH_FILES", watch) {
        Ok(list) => list,
        Err(err) => return Err(err),
    };
    let run_opts = match take_list(env, "NCAP_RUN_OPTS", opts) {
        Ok(list) => list,
        Err(err) => return Err(err),
    };
    let harden = match parse_harden(env) {
        Ok(harden) => harden,
        Err(err) => return Err(err),
    };
    let log_level = match parse_log_level(env) {
        Ok(level) => level,
        Err(err) => return Err(err),
    };
    let root = match demand(env, "NCAP_PROJECT_ROOT") {
        Ok(root) => root,
        Err(err) => return Err(err),
    };
    match validate_watch_files(root.as_str(), &watch_files, files) {
        Ok(_) => {},
        Err(err) => return Err(err),
    }
    let ghost names = project_vars();
    let project = match demand(env, "NCAP_PROJECT") {
        Ok(value) => value,
        Err(err) => {
            proof {
                lemma_first_missing(vars, names, 0);
            }
            return Err(err);
        },
    };
    let container = match demand(env, "NCAP_CONTAINER") {
        Ok(value) => value,
        Err(err) => {
            proof {
                lemma_first_missing(vars, names, 1);
            }
            return Err(err);
        },
    };
    let socket = match demand(env, "NCAP_SOCKET") {
        Ok(value) => value,
        Err(err) => {
            proof {
                lemma_first_missing(vars, names, 2);
            }
            return Err(err);
        },
    };
    let cache_dir = match demand(env, "NCAP_CACHE_DIR") {
        Ok(value) => value,
        Err(err) => {
            proof {
                lemma_first_missing(vars, names, 3);
            }
            return Err(err);
        },
    };
    let log_dir = match demand(env, "NCAP_LOG_DIR") {
        Ok(value) => value,
        Err(err) => {
            proof {
                lemma_first_missing(vars, names, 4);
            }
            return Err(err);
        },
    };
    let devshell = match demand(env, "NCAP_DEVSHELL") {
        Ok(value) => value,
        Err(err) => {
            proof {
                lemma_first_missing(vars, names, 5);
            }
            return Err(err);
        },
    };
    let nix = match demand(env, "NCAP_NIX") {
        Ok(value) => value,
        Err(err) => {
            proof {
                lemma_first_missing(vars, names, 6);
            }
            return Err(err);
        },
    };
    let image = match demand(env, "NCAP_IMAGE") {
        Ok(value) => value,
        Err(err) => {
            proof {
                lemma_first_missing(vars, names, 7);
            }
            return Err(err);
        },
    };
    let server = match demand(env, "NCAP_SERVER") {
        Ok(value) => value,
        Err(err) => {
            proof {
                lemma_first_missing(vars, names, 8);
            }
            return Err(err);
        },
    };
    let bash = match demand(env, "NCAP_BASH") {
        Ok(value) => value,
        Err(err) => {
            proof {
                lemma_first_missing(vars, names, 9);
            }
            return Err(err);
        },
    };
    proof {
        lemma_first_missing(vars, names, 10);
    }
    Ok(
        Config {
            root,
            project,
            container,
            socket,
            cache_dir,
            log_dir,
            runtime,
            timeout,
            watch_files,
            run_opts,
            harden,
            log_level,
            image,
            server,
            nix,
            bash,
            devshell,
        },
    )
}

/// Resolve the full configuration. All commands except `SetupEnv` share one
/// demand set: derived variables are demanded non-empty, never derived here.
/// `files` says what stands at the paths of [`watch_paths`].
pub fn resolve(env: &Environment, files: &FileTable) -> (r: Result<Config, ConfigError>)
    ensures
        config_result(
            r,
            resolved(
                env@,
                *files,
                json::string_array(env@["NCAP_WATCH_FILES"@]),
                json::string_array(env@["NCAP_RUN_OPTS"@]),
            ),
        ),
{
    let watch = read_list(env, "NCAP_WATCH_FILES");
    let opts = read_list(env, "NCAP_RUN_OPTS");
    resolve_parsed(env, files, watch, opts)
}

/// Each of `entries` below `root`.
pub open spec fn below(root: Seq<char>, entries: Seq<Seq<char>>) -> Seq<Seq<char>> {
    entries.map_values(|entry: Seq<char>| join_spec(root, entry))
}

/// Each of `entries` below `root`.
pub fn paths_below(root: &str, entries: &Vec<String>) -> (out: Vec<String>)
    ensures
        views(out@) == below(root@, views(entries@)),
{
    let mut out: Vec<String> = Vec::new();
    let mut i: usize = 0;
    while i < entries.len()
        invariant
            i <= entries@.len(),
            out@.len() == i,
            forall|j: int| 0 <= j < i ==> (#[trigger] out@[j])@ == join_spec(root@, entries@[j]@),
        decreases entries@.len() - i,
    {
        out.push(pathname::join(root, entries[i].as_str()));
        i = i + 1;
    }
    proof {
        assert(views(out@) =~= below(root@, views(entries@)));
    }
    out
}

/// The paths of the watched files, for the caller to look at before it
/// resolves the configuration: none while the list or the root is not there.
pub fn watch_paths(env: &Environment) -> (out: Vec<String>)
    ensures
        match (
            list_of(
                env@,
                "NCAP_WATCH_FILES"@,
                json::string_array(env@["NCAP_WATCH_FILES"@]),
            ),
            demanded(env@, "NCAP_PROJECT_ROOT"@),
        ) {
            (Ok(list), Ok(root)) => views(out@) == below(root, list),
            _ => out@.len() == 0,
        },
{
    let list = match parse_watch_files(env) {
        Ok(list) => list,
        Err(_) => return Vec::new(),
    };
    match demand(env, "NCAP_PROJECT_ROOT") {
        Ok(root) => paths_below(root.as_str(), &list),
        Err(_) => Vec::new(),
    }
}

/// Where a variable is demanded, nothing resolves without it: a command that
/// got its configuration has every variable of the contract set.
pub proof fn law_every_variable_is_demanded(
    vars: Vars,
    files: FileTable,
    watch: Result<Seq<Seq<char>>, Seq<char>>,
    opts: Result<Seq<Seq<char>>, Seq<char>>,
)
    ensures
        resolved(vars, files, watch, opts) is Ok ==> {
            &&& is_set(vars, "NCAP_RUNTIME"@)
            &&& is_set(vars, "NCAP_TIMEOUT"@)
            &&& is_set(vars, "NCAP_WATCH_FILES"@)
            &&& is_set(vars, "NCAP_RUN_OPTS"@)
            &&& is_set(vars, "NCAP_HARDEN"@)
            &&& is_set(vars, "NCAP_LOG_LEVEL"@)
            &&& is_set(vars, "NCAP_PROJECT_ROOT"@)
            &&& forall|i: int|
                0 <= i < project_vars().len() ==> is_set(vars, #[trigger] project_vars()[i])
        },
{
    lemma_none_missing(vars, project_vars());
}

proof fn lemma_none_missing(vars: Vars, names: Seq<Seq<char>>)
    ensures
        first_missing(vars, names) is None ==> forall|i: int|
            0 <= i < names.len() ==> is_set(vars, #[trigger] names[i]),
    decreases names.len(),
{
    if names.len() > 0 {
        let rest = names.drop_first();
        lemma_none_missing(vars, rest);
        if first_missing(vars, names) is None {
            assert forall|i: int| 0 <= i < names.len() implies is_set(
                vars,
                #[trigger] names[i],
            ) by {
                if i > 0 {
                    assert(names[i] == rest[i - 1]);
                }
            }
        }
    }
}

/// The watched files of a resolved configuration are relative, do not climb
/// out of the root, and none that exists is anything but a file.
pub proof fn law_watched_files_stay_below_the_root(
    vars: Vars,
    files: FileTable,
    watch: Result<Seq<Seq<char>>, Seq<char>>,
    opts: Result<Seq<Seq<char>>, Seq<char>>,
)
    ensures
        resolved(vars, files, watch, opts) matches Ok(config) ==> forall|i: int|
            0 <= i < config.watch_files.len() ==> watch_fault(
                config.root,
                #[trigger] config.watch_files[i],
                files,
            ) is None,
{
    if let Ok(config) = resolved(vars, files, watch, opts) {
        lemma_no_watch_fault(config.root, config.watch_files, files);
    }
}

proof fn lemma_no_watch_fault(root: Seq<char>, entries: Seq<Seq<char>>, files: FileTable)
    ensures
        watch_files_fault(root, entries, files) is None ==> forall|i: int|
            0 <= i < entries.len() ==> watch_fault(root, #[trigger] entries[i], files) is None,
    decreases entries.len(),
{
    if entries.len() > 0 {
        let rest = entries.drop_first();
        lemma_no_watch_fault(root, rest, files);
        if watch_files_fault(root, entries, files) is None {
            assert forall|i: int| 0 <= i < entries.len() implies watch_fault(
                root,
                #[trigger] entries[i],
                files,
            ) is None by {
                if i > 0 {
                    assert(entries[i] == rest[i - 1]);
                }
            }
        }
    }
}

// ---------------------------------------------------------------------------
// Deriving the project-scoped variables
// ---------------------------------------------------------------------------

/// An explicit project name, else the slug of the root's basename.
pub open spec fn project_of(vars: Vars, root: Option<Seq<char>>) -> Result<Seq<char>, ConfigFault> {
    if is_set(vars, "NCAP_PROJECT"@) {
        Ok(vars["NCAP_PROJECT"@])
    } else {
        match root {
            None => Err(ConfigFault::Missing("NCAP_PROJECT_ROOT"@)),
            Some(root) => {
                let name = match file_name_spec(root) {
                    Some(basename) => names::slug(basename),
                    None => Seq::empty(),
                };
                if name.len() == 0 {
                    Err(ConfigFault::EmptyProjectName(root))
                } else {
                    Ok(name)
                }
            },
        }
    }
}

/// The project name of `root`, unless one is set.
pub fn resolve_project(env: &Environment, root: Option<&str>) -> (r: Result<String, ConfigError>)
    ensures
        text_result(r, project_of(env@, paths::opt_str_view(root))),
{
    if let Some(project) = env.get_non_empty("NCAP_PROJECT") {
        return Ok(project);
    }
    let root = match root {
        Some(root) => root,
        None => return Err(ConfigError::Missing { var: "NCAP_PROJECT_ROOT" }),
    };
    let name = match pathname::file_name(root) {
        Some(basename) => names::sanitize(basename.as_str()),
        None => None,
    };
    match name {
        Some(name) => Ok(name),
        None => Err(ConfigError::EmptyProjectName { root: root.to_owned() }),
    }
}

/// The base directories that the layout is built on.
pub struct Bases {
    pub runtime: Option<Seq<char>>,
    pub tmpdir: Option<Seq<char>>,
    pub cache: Option<Seq<char>>,
    pub state: Option<Seq<char>>,
}

/// The value of `var` where it is set, else `derived`.
pub open spec fn explicit_or(vars: Vars, var: Seq<char>, derived: Seq<char>) -> Seq<char> {
    if is_set(vars, var) {
        vars[var]
    } else {
        derived
    }
}

/// One `export` line: the value single-quoted.
pub open spec fn export_line(var: Seq<char>, value: Seq<char>) -> Seq<char> {
    "export "@ + var + "='"@ + shell::escaped(value) + "'\n"@
}

/// The five project-scoped values.
#[verifier::ext_equal]
pub struct Scoped {
    pub project: Seq<char>,
    pub container: Seq<char>,
    pub socket: Seq<char>,
    pub cache_dir: Seq<char>,
    pub log_dir: Seq<char>,
}

/// The project-scoped values, explicit or derived, or the failure.
pub open spec fn scoped(vars: Vars, bases: Bases) -> Result<Scoped, ConfigFault> {
    match demanded(vars, "NCAP_PROJECT_ROOT"@) {
        Err(fault) => Err(fault),
        Ok(root) => match project_of(vars, Some(root)) {
            Err(fault) => Err(fault),
            Ok(project) => if !is_set(vars, "NCAP_CACHE_DIR"@) && bases.cache is None {
                Err(ConfigFault::NoHome("cache dir"@, "XDG_CACHE_HOME"@))
            } else if !is_set(vars, "NCAP_LOG_DIR"@) && bases.state is None {
                Err(ConfigFault::NoHome("log dir"@, "XDG_STATE_HOME"@))
            } else {
                Ok(
                    Scoped {
                        project,
                        container: explicit_or(vars, "NCAP_CONTAINER"@, "ncap-"@ + project),
                        socket: explicit_or(
                            vars,
                            "NCAP_SOCKET"@,
                            paths::socket_spec(
                                paths::socket_base(bases.runtime, bases.tmpdir),
                                project,
                            ),
                        ),
                        cache_dir: explicit_or(
                            vars,
                            "NCAP_CACHE_DIR"@,
                            paths::project_dir(bases.cache->0, project),
                        ),
                        log_dir: explicit_or(
                            vars,
                            "NCAP_LOG_DIR"@,
                            join_spec(paths::project_dir(bases.state->0, project), "logs"@),
                        ),
                    },
                )
            },
        },
    }
}

/// The five `export` lines, in their fixed order.
pub open spec fn export_lines(values: Scoped) -> Seq<char> {
    export_line("NCAP_PROJECT"@, values.project) + export_line(
        "NCAP_CONTAINER"@,
        values.container,
    ) + export_line("NCAP_SOCKET"@, values.socket) + export_line(
        "NCAP_CACHE_DIR"@,
        values.cache_dir,
    ) + export_line("NCAP_LOG_DIR"@, values.log_dir)
}

/// What `setup-env` prints, or the failure.
pub open spec fn exports(vars: Vars, bases: Bases) -> Result<Seq<char>, ConfigFault> {
    match scoped(vars, bases) {
        Ok(values) => Ok(export_lines(values)),
        Err(fault) => Err(fault),
    }
}

/// The variables of a shell that sourced the `export` lines of `values`.
pub open spec fn sourced(vars: Vars, values: Scoped) -> Vars {
    vars.insert("NCAP_PROJECT"@, values.project).insert(
        "NCAP_CONTAINER"@,
        values.container,
    ).insert("NCAP_SOCKET"@, values.socket).insert("NCAP_CACHE_DIR"@, values.cache_dir).insert(
        "NCAP_LOG_DIR"@,
        values.log_dir,
    )
}

/// The names of the project-scoped variables and of the root differ.
proof fn lemma_names_differ()
    ensures
        "NCAP_PROJECT"@ != "NCAP_CONTAINER"@,
        "NCAP_PROJECT"@ != "NCAP_SOCKET"@,
        "NCAP_PROJECT"@ != "NCAP_CACHE_DIR"@,
        "NCAP_PROJECT"@ != "NCAP_LOG_DIR"@,
        "NCAP_PROJECT"@ != "NCAP_PROJECT_ROOT"@,
        "NCAP_CONTAINER"@ != "NCAP_SOCKET"@,
        "NCAP_CONTAINER"@ != "NCAP_CACHE_DIR"@,
        "NCAP_CONTAINER"@ != "NCAP_LOG_DIR"@,
        "NCAP_CONTAINER"@ != "NCAP_PROJECT_ROOT"@,
        "NCAP_SOCKET"@ != "NCAP_CACHE_DIR"@,
        "NCAP_SOCKET"@ != "NCAP_LOG_DIR"@,
        "NCAP_SOCKET"@ != "NCAP_PROJECT_ROOT"@,
        "NCAP_CACHE_DIR"@ != "NCAP_LOG_DIR"@,
        "NCAP_CACHE_DIR"@ != "NCAP_PROJECT_ROOT"@,
        "NCAP_LOG_DIR"@ != "NCAP_PROJECT_ROOT"@,
{
    reveal_strlit("NCAP_PROJECT");
    reveal_strlit("NCAP_CONTAINER");
    reveal_strlit("NCAP_SOCKET");
    reveal_strlit("NCAP_CACHE_DIR");
    reveal_strlit("NCAP_LOG_DIR");
    reveal_strlit("NCAP_PROJECT_ROOT");
    assert("NCAP_PROJECT"@.len() == 12);
    assert("NCAP_CONTAINER"@.len() == 14);
    assert("NCAP_SOCKET"@.len() == 11);
    assert("NCAP_CACHE_DIR"@.len() == 14);
    assert("NCAP_LOG_DIR"@.len() == 12);
    assert("NCAP_PROJECT_ROOT"@.len() == 17);
    assert("NCAP_PROJECT"@[5] == 'P');
    assert("NCAP_LOG_DIR"@[5] == 'L');
    assert("NCAP_CONTAINER"@[6] == 'O');
    assert("NCAP_CACHE_DIR"@[6] == 'A');
}

/// Explicit values win: where all five are set, they are printed as they
/// are, whatever the base directories.
pub proof fn law_explicit_values_win(vars: Vars, bases: Bases)
    requires
        is_set(vars, "NCAP_PROJECT_ROOT"@),
        is_set(vars, "NCAP_PROJECT"@),
        is_set(vars, "NCAP_CONTAINER"@),
        is_set(vars, "NCAP_SOCKET"@),
        is_set(vars, "NCAP_CACHE_DIR"@),
        is_set(vars, "NCAP_LOG_DIR"@),
    ensures
        scoped(vars, bases) == Ok::<Scoped, ConfigFault>(
            Scoped {
                project: vars["NCAP_PROJECT"@],
                container: vars["NCAP_CONTAINER"@],
                socket: vars["NCAP_SOCKET"@],
                cache_dir: vars["NCAP_CACHE_DIR"@],
                log_dir: vars["NCAP_LOG_DIR"@],
            },
        ),
{
}

/// A shell that sourced what `setup-env` printed has all five variables set,
/// and printing them again, on whatever base directories, gives the same
/// lines.
pub proof fn law_sourced_exports_are_stable(vars: Vars, bases: Bases, later: Bases)
    requires
        scoped(vars, bases) is Ok,
    ensures
        ({
            let values = scoped(vars, bases)->Ok_0;
            let after = sourced(vars, values);
            &&& is_set(after, "NCAP_PROJECT"@)
            &&& is_set(after, "NCAP_CONTAINER"@)
            &&& is_set(after, "NCAP_SOCKET"@)
            &&& is_set(after, "NCAP_CACHE_DIR"@)
            &&& is_set(after, "NCAP_LOG_DIR"@)
            &&& exports(after, later) == exports(vars, bases)
        }),
{
    let values = scoped(vars, bases)->Ok_0;
    lemma_names_differ();
    reveal_strlit("ncap-");
    reveal_strlit("ncap.sock");
    reveal_strlit("nix-capsule");
    reveal_strlit("logs");
    law_explicit_values_win(sourced(vars, values), later);
}

fn push_export(out: &mut String, var: &str, value: &str)
    ensures
        final(out)@ == old(out)@ + export_line(var@, value@),
{
    let ghost before = out@;
    out.append("export ");
    out.append(var);
    out.append("='");
    out.append(shell::shell_escape(value).as_str());
    out.append("'\n");
    proof {
        assert(out@ =~= before + export_line(var@, value@));
    }
}

/// The `export` lines for the given values.
fn render_exports(
    project: &str,
    container: &str,
    socket: &str,
    cache_dir: &str,
    log_dir: &str,
) -> (out: String)
    ensures
        out@ == export_lines(
            (Scoped {
                project: project@,
                container: container@,
                socket: socket@,
                cache_dir: cache_dir@,
                log_dir: log_dir@,
            }),
        ),
{
    let mut out: String = String::new();
    push_export(&mut out, "NCAP_PROJECT", project);
    push_export(&mut out, "NCAP_CONTAINER", container);
    push_export(&mut out, "NCAP_SOCKET", socket);
    push_export(&mut out, "NCAP_CACHE_DIR", cache_dir);
    push_export(&mut out, "NCAP_LOG_DIR", log_dir);
    proof {
        assert(Seq::<char>::empty() + export_line("NCAP_PROJECT"@, project@) =~= export_line(
            "NCAP_PROJECT"@,
            project@,
        ));
    }
    out
}

/// The container name where none is set.
fn derive_container(project: &str) -> (out: String)
    ensures
        out@ == "ncap-"@ + project@,
{
    let mut out = "ncap-".to_owned();
    out.append(project);
    out
}

/// Resolve the five project-scoped variables on given base directories and
/// render them as bash `export` lines. Explicit non-empty values win; the
/// others derive: project from the root's basename, container as
/// `ncap-<project>`, socket, cache and log dir from the layout.
pub fn setup_env_in(
    env: &Environment,
    runtime: Option<String>,
    tmpdir: Option<&str>,
    cache: Option<String>,
    state: Option<String>,
) -> (r: Result<String, ConfigError>)
    ensures
        text_result(
            r,
            exports(
                env@,
                (Bases {
                    runtime: paths::opt_view(runtime),
                    tmpdir: paths::opt_str_view(tmpdir),
                    cache: paths::opt_view(cache),
                    state: paths::opt_view(state),
                }),
            ),
        ),
{
    let root = match demand(env, "NCAP_PROJECT_ROOT") {
        Ok(root) => root,
        Err(err) => return Err(err),
    };
    let project = match resolve_project(env, Some(root.as_str())) {
        Ok(project) => project,
        Err(err) => return Err(err),
    };
    let container = match env.get_non_empty("NCAP_CONTAINER") {
        Some(container) => container,
        None => derive_container(project.as_str()),
    };
    let socket = match env.get_non_empty("NCAP_SOCKET") {
        Some(socket) => socket,
        None => paths::socket_path_in(runtime, tmpdir, project.as_str()),
    };
    let cache_dir = match env.get_non_empty("NCAP_CACHE_DIR") {
        Some(dir) => dir,
        None => match paths::cache_dir_in(cache, project.as_str()) {
            Ok(dir) => dir,
            Err(err) => return Err(ConfigError::NoHome(err)),
        },
    };
    let log_dir = match env.get_non_empty("NCAP_LOG_DIR") {
        Some(dir) => dir,
        None => match paths::log_dir_in(state, project.as_str()) {
            Ok(dir) => dir,
            Err(err) => return Err(ConfigError::NoHome(err)),
        },
    };
    Ok(
        render_exports(
            project.as_str(),
            container.as_str(),
            socket.as_str(),
            cache_dir.as_str(),
            log_dir.as_str(),
        ),
    )
}

/// Resolve the five project-scoped variables and render them as bash
/// `export` lines for the host shell to source, on the base directories of
/// this process. Needs only `NCAP_PROJECT_ROOT`.
pub fn setup_env(env: &Environment, tmpdir: Option<&str>) -> (r: Result<String, ConfigError>)
    ensures
        exists|bases: Bases|
            bases.tmpdir == paths::opt_str_view(tmpdir) && (bases.runtime is Some ==> is_absolute(
                bases.runtime->0,
            )) && text_result(r, #[trigger] exports(env@, bases)),
{
    let runtime = paths::runtime_base();
    let cache = paths::cache_base();
    let state = paths::state_base();
    let ghost bases = Bases {
        runtime: paths::opt_view(runtime),
        tmpdir: paths::opt_str_view(tmpdir),
        cache: paths::opt_view(cache),
        state: paths::opt_view(state),
    };
    let r = setup_env_in(env, runtime, tmpdir, cache, state);
    proof {
        assert(text_result(r, exports(env@, bases)));
    }
    r
}

// ---------------------------------------------------------------------------
// What the variables mean
// ---------------------------------------------------------------------------

/// A variable counts as set where it has a value that is not empty.
pub proof fn law_empty_counts_as_unset(vars: Vars, var: Seq<char>)
    ensures
        is_set(vars, var) <==> vars.contains_key(var) && vars[var] != Seq::<char>::empty(),
{
    if vars.contains_key(var) && vars[var].len() == 0 {
        assert(vars[var] =~= Seq::<char>::empty());
    }
}

/// Each of the five values for itself: an explicit one wins, whatever the
/// others are, and the rest derive from the project name that was resolved,
/// not from the root.
pub proof fn law_derived_values_follow_the_project(vars: Vars, bases: Bases)
    requires
        scoped(vars, bases) is Ok,
    ensures
        ({
            let v = scoped(vars, bases)->Ok_0;
            &&& is_set(vars, "NCAP_PROJECT"@) ==> v.project == vars["NCAP_PROJECT"@]
            &&& is_set(vars, "NCAP_CONTAINER"@) ==> v.container == vars["NCAP_CONTAINER"@]
            &&& is_set(vars, "NCAP_SOCKET"@) ==> v.socket == vars["NCAP_SOCKET"@]
            &&& is_set(vars, "NCAP_CACHE_DIR"@) ==> v.cache_dir == vars["NCAP_CACHE_DIR"@]
            &&& is_set(vars, "NCAP_LOG_DIR"@) ==> v.log_dir == vars["NCAP_LOG_DIR"@]
            &&& !is_set(vars, "NCAP_CONTAINER"@) ==> v.container == "ncap-"@ + v.project
            &&& !is_set(vars, "NCAP_SOCKET"@) ==> v.socket == paths::socket_spec(
                paths::socket_base(bases.runtime, bases.tmpdir),
                v.project,
            )
            &&& !is_set(vars, "NCAP_CACHE_DIR"@) ==> bases.cache is Some && v.cache_dir
                == paths::project_dir(bases.cache->0, v.project)
            &&& !is_set(vars, "NCAP_LOG_DIR"@) ==> bases.state is Some && v.log_dir == join_spec(
                paths::project_dir(bases.state->0, v.project),
                "logs"@,
            )
        }),
{
}

/// Without an explicit name the project is named after the last component of
/// its root, in letters, digits and dashes. A root without such a component
/// is refused, and so is no root at all.
pub proof fn law_project_is_named_after_its_root(vars: Vars, bases: Bases, dir: Seq<char>, name: Seq<char>)
    requires
        !is_set(vars, "NCAP_PROJECT"@),
        pathname::ends_in_component(dir),
        pathname::is_component(name),
    ensures
        vars.contains_key("NCAP_PROJECT_ROOT"@) && vars["NCAP_PROJECT_ROOT"@] == dir + seq!['/']
            + name ==> (match scoped(vars, bases) {
            Ok(v) => v.project == names::slug(name) && v.project.len() > 0,
            Err(fault) => names::slug(name).len() == 0 ==> fault == ConfigFault::EmptyProjectName(
                dir + seq!['/'] + name,
            ),
        }),
        vars.contains_key("NCAP_PROJECT_ROOT"@) && vars["NCAP_PROJECT_ROOT"@] == seq!['/']
            ==> scoped(vars, bases) == Err::<Scoped, ConfigFault>(
            ConfigFault::EmptyProjectName(seq!['/']),
        ),
        !is_set(vars, "NCAP_PROJECT_ROOT"@) ==> scoped(vars, bases) == Err::<Scoped, ConfigFault>(
            ConfigFault::Missing("NCAP_PROJECT_ROOT"@),
        ),
{
    pathname::law_path_comes_apart_as_it_was_joined(dir, name);
}

/// With a root, a project name, and either explicit directories or the bases
/// to derive them from, setting up never fails; a missing base is named by
/// what it is for.
pub proof fn law_setup_needs_only_the_bases(vars: Vars, bases: Bases)
    requires
        is_set(vars, "NCAP_PROJECT_ROOT"@),
        is_set(vars, "NCAP_PROJECT"@),
    ensures
        scoped(vars, bases) is Ok <==> (is_set(vars, "NCAP_CACHE_DIR"@) || bases.cache is Some) && (
        is_set(vars, "NCAP_LOG_DIR"@) || bases.state is Some),
        !is_set(vars, "NCAP_CACHE_DIR"@) && bases.cache is None ==> scoped(vars, bases) == Err::<
            Scoped,
            ConfigFault,
        >(ConfigFault::NoHome("cache dir"@, "XDG_CACHE_HOME"@)),
        (is_set(vars, "NCAP_CACHE_DIR"@) || bases.cache is Some) && !is_set(
            vars,
            "NCAP_LOG_DIR"@,
        ) && bases.state is None ==> scoped(vars, bases) == Err::<Scoped, ConfigFault>(
            ConfigFault::NoHome("log dir"@, "XDG_STATE_HOME"@),
        ),
{
}

/// What is printed are five `export` lines in a fixed order, each of one
/// variable with its own value in single quotes.
pub proof fn law_exports_are_one_line_each(vars: Vars, bases: Bases)
    ensures
        exports(vars, bases) == match scoped(vars, bases) {
            Err(fault) => Err::<Seq<char>, ConfigFault>(fault),
            Ok(v) => Ok(
                "export NCAP_PROJECT="@ + ("'"@ + shell::escaped(v.project) + "'"@) + "\n"@
                    + "export NCAP_CONTAINER="@ + ("'"@ + shell::escaped(v.container) + "'"@)
                    + "\n"@ + "export NCAP_SOCKET="@ + ("'"@ + shell::escaped(v.socket) + "'"@)
                    + "\n"@ + "export NCAP_CACHE_DIR="@ + ("'"@ + shell::escaped(v.cache_dir)
                    + "'"@) + "\n"@ + "export NCAP_LOG_DIR="@ + ("'"@ + shell::escaped(v.log_dir)
                    + "'"@) + "\n"@,
            ),
        },
{
    reveal_strlit("export ");
    reveal_strlit("='");
    reveal_strlit("'\n");
    reveal_strlit("'");
    reveal_strlit("\n");
    reveal_strlit("NCAP_PROJECT");
    reveal_strlit("NCAP_CONTAINER");
    reveal_strlit("NCAP_SOCKET");
    reveal_strlit("NCAP_CACHE_DIR");
    reveal_strlit("NCAP_LOG_DIR");
    reveal_strlit("export NCAP_PROJECT=");
    reveal_strlit("export NCAP_CONTAINER=");
    reveal_strlit("export NCAP_SOCKET=");
    reveal_strlit("export NCAP_CACHE_DIR=");
    reveal_strlit("export NCAP_LOG_DIR=");
    if let Ok(v) = scoped(vars, bases) {
        assert(export_line("NCAP_PROJECT"@, v.project) =~= "export NCAP_PROJECT="@ + ("'"@
            + shell::escaped(v.project) + "'"@) + "\n"@);
        assert(export_line("NCAP_CONTAINER"@, v.container) =~= "export NCAP_CONTAINER="@ + ("'"@
            + shell::escaped(v.container) + "'"@) + "\n"@);
        assert(export_line("NCAP_SOCKET"@, v.socket) =~= "export NCAP_SOCKET="@ + ("'"@
            + shell::escaped(v.socket) + "'"@) + "\n"@);
        assert(export_line("NCAP_CACHE_DIR"@, v.cache_dir) =~= "export NCAP_CACHE_DIR="@ + ("'"@
            + shell::escaped(v.cache_dir) + "'"@) + "\n"@);
        assert(export_line("NCAP_LOG_DIR"@, v.log_dir) =~= "export NCAP_LOG_DIR="@ + ("'"@
            + shell::escaped(v.log_dir) + "'"@) + "\n"@);
        assert(export_lines(v) =~= "export NCAP_PROJECT="@ + ("'"@ + shell::escaped(v.project)
            + "'"@) + "\n"@ + "export NCAP_CONTAINER="@ + ("'"@ + shell::escaped(v.container)
            + "'"@) + "\n"@ + "export NCAP_SOCKET="@ + ("'"@ + shell::escaped(v.socket) + "'"@)
            + "\n"@ + "export NCAP_CACHE_DIR="@ + ("'"@ + shell::escaped(v.cache_dir) + "'"@)
            + "\n"@ + "export NCAP_LOG_DIR="@ + ("'"@ + shell::escaped(v.log_dir) + "'"@)
            + "\n"@);
    }
}

/// A configuration is its variables: each setting is the value of its own
/// variable, read as what it is.
pub proof fn law_configuration_is_its_variables(
    vars: Vars,
    files: FileTable,
    watch: Result<Seq<Seq<char>>, Seq<char>>,
    opts: Result<Seq<Seq<char>>, Seq<char>>,
)
    requires
        resolved(vars, files, watch, opts) is Ok,
    ensures
        ({
            let c = resolved(vars, files, watch, opts)->Ok_0;
            &&& c.root == vars["NCAP_PROJECT_ROOT"@]
            &&& c.project == vars["NCAP_PROJECT"@]
            &&& c.container == vars["NCAP_CONTAINER"@]
            &&& c.socket == vars["NCAP_SOCKET"@]
            &&& c.cache_dir == vars["NCAP_CACHE_DIR"@]
            &&& c.log_dir == vars["NCAP_LOG_DIR"@]
            &&& c.runtime == vars["NCAP_RUNTIME"@] && (c.runtime == "podman"@ || c.runtime
                == "docker"@)
            &&& number::number_value(vars["NCAP_TIMEOUT"@]) == Ok::<nat, NumberError>(
                c.timeout as nat,
            )
            &&& watch == Ok::<Seq<Seq<char>>, Seq<char>>(c.watch_files)
            &&& opts == Ok::<Seq<Seq<char>>, Seq<char>>(c.run_opts)
            &&& c.harden ==> vars["NCAP_HARDEN"@] == "true"@
            &&& !c.harden ==> vars["NCAP_HARDEN"@] == "false"@
            &&& c.log_level == LogLevel::Debug ==> vars["NCAP_LOG_LEVEL"@] == "debug"@
            &&& c.log_level == LogLevel::Info ==> vars["NCAP_LOG_LEVEL"@] == "info"@
            &&& c.log_level == LogLevel::Warning ==> vars["NCAP_LOG_LEVEL"@] == "warning"@
            &&& c.log_level == LogLevel::Error ==> vars["NCAP_LOG_LEVEL"@] == "error"@
            &&& c.image == vars["NCAP_IMAGE"@]
            &&& c.server == vars["NCAP_SERVER"@]
            &&& c.nix == vars["NCAP_NIX"@]
            &&& c.bash == vars["NCAP_BASH"@]
            &&& c.devshell == vars["NCAP_DEVSHELL"@]
        }),
{
    lemma_digits_fit(vars["NCAP_TIMEOUT"@]);
    lemma_digits_fit(vars["NCAP_TIMEOUT"@].drop_first());
}

proof fn lemma_digits_fit(s: Seq<char>)
    ensures
        number::digits_value(s) matches Ok(v) ==> v <= u64::MAX,
    decreases s.len(),
{
    if s.len() > 0 {
        lemma_digits_fit(s.drop_last());
    }
}

/// With every variable set and well formed, and every watched file a
/// relative path that stays below the root and is a file where it exists,
/// the configuration resolves.
pub proof fn law_well_formed_variables_resolve(
    vars: Vars,
    files: FileTable,
    watch: Seq<Seq<char>>,
    opts: Seq<Seq<char>>,
)
    requires
        is_set(vars, "NCAP_PROJECT_ROOT"@),
        is_set(vars, "NCAP_PROJECT"@),
        is_set(vars, "NCAP_CONTAINER"@),
        is_set(vars, "NCAP_SOCKET"@),
        is_set(vars, "NCAP_CACHE_DIR"@),
        is_set(vars, "NCAP_LOG_DIR"@),
        is_set(vars, "NCAP_DEVSHELL"@),
        is_set(vars, "NCAP_NIX"@),
        is_set(vars, "NCAP_IMAGE"@),
        is_set(vars, "NCAP_SERVER"@),
        is_set(vars, "NCAP_BASH"@),
        is_set(vars, "NCAP_WATCH_FILES"@),
        is_set(vars, "NCAP_RUN_OPTS"@),
        vars.contains_key("NCAP_RUNTIME"@),
        vars["NCAP_RUNTIME"@] == "podman"@ || vars["NCAP_RUNTIME"@] == "docker"@,
        is_set(vars, "NCAP_TIMEOUT"@),
        number::number_value(vars["NCAP_TIMEOUT"@]) is Ok,
        vars.contains_key("NCAP_HARDEN"@),
        vars["NCAP_HARDEN"@] == "true"@ || vars["NCAP_HARDEN"@] == "false"@,
        vars.contains_key("NCAP_LOG_LEVEL"@),
        vars["NCAP_LOG_LEVEL"@] == "debug"@ || vars["NCAP_LOG_LEVEL"@] == "info"@
            || vars["NCAP_LOG_LEVEL"@] == "warning"@ || vars["NCAP_LOG_LEVEL"@] == "error"@,
        forall|i: int|
            0 <= i < watch.len() ==> !((#[trigger] watch[i]).len() > 0 && watch[i][0] == '/')
                && !has_parent_component(watch[i]) && files.at(
                join_spec(vars["NCAP_PROJECT_ROOT"@], watch[i]),
            ) != FileKind::Other,
    ensures
        resolved(vars, files, Ok(watch), Ok(opts)) is Ok,
{
    reveal_strlit("podman");
    reveal_strlit("docker");
    reveal_strlit("true");
    reveal_strlit("false");
    reveal_strlit("debug");
    reveal_strlit("info");
    reveal_strlit("warning");
    reveal_strlit("error");
    lemma_all_watch_files_fine(vars["NCAP_PROJECT_ROOT"@], watch, files);
    let names = project_vars();
    assert forall|i: int| 0 <= i < names.len() implies is_set(vars, #[trigger] names[i]) by {
        assert(i == 0 || i == 1 || i == 2 || i == 3 || i == 4 || i == 5 || i == 6 || i == 7 || i
            == 8 || i == 9);
    }
    lemma_first_missing(vars, names, names.len() as int);
}

proof fn lemma_all_watch_files_fine(root: Seq<char>, entries: Seq<Seq<char>>, files: FileTable)
    requires
        forall|i: int|
            0 <= i < entries.len() ==> !((#[trigger] entries[i]).len() > 0 && entries[i][0] == '/')
                && !has_parent_component(entries[i]) && files.at(join_spec(root, entries[i]))
                != FileKind::Other,
    ensures
        watch_files_fault(root, entries, files) is None,
    decreases entries.len(),
{
    if entries.len() > 0 {
        let rest = entries.drop_first();
        assert(!(entries[0].len() > 0 && entries[0][0] == '/'));
        assert forall|i: int| 0 <= i < rest.len() implies !((#[trigger] rest[i]).len() > 0
            && rest[i][0] == '/') && !has_parent_component(rest[i]) && files.at(
            join_spec(root, rest[i]),
        ) != FileKind::Other by {
            assert(rest[i] == entries[i + 1]);
        }
        lemma_all_watch_files_fine(root, rest, files);
    }
}

/// The watched files of a configuration that resolved stay below its root:
/// each is relative, none climbs, and what stands there is a file or
/// nothing.
pub proof fn law_resolved_watch_files_are_files_below_the_root(
    vars: Vars,
    files: FileTable,
    watch: Result<Seq<Seq<char>>, Seq<char>>,
    opts: Result<Seq<Seq<char>>, Seq<char>>,
)
    ensures
        resolved(vars, files, watch, opts) matches Ok(config) ==> forall|i: int|
            0 <= i < config.watch_files.len() ==> !((#[trigger] config.watch_files[i]).len() > 0
                && config.watch_files[i][0] == '/') && !has_parent_component(
                config.watch_files[i],
            ) && files.at(join_spec(config.root, config.watch_files[i])) != FileKind::Other,
{
    law_watched_files_stay_below_the_root(vars, files, watch, opts);
    if let Ok(config) = resolved(vars, files, watch, opts) {
        assert forall|i: int| 0 <= i < config.watch_files.len() implies !((
        #[trigger] config.watch_files[i]).len() > 0 && config.watch_files[i][0] == '/')
            && !has_parent_component(config.watch_files[i]) && files.at(
            join_spec(config.root, config.watch_files[i]),
        ) != FileKind::Other by {
            assert(watch_fault(config.root, config.watch_files[i], files) is None);
        }
    }
}

/// A configuration that does not resolve says what is wrong: a variable that
/// is reported missing is not set, and a value that is reported wrong is
/// that of its variable and has none of the accepted forms.
pub proof fn law_configuration_faults_are_true(
    vars: Vars,
    files: FileTable,
    watch: Result<Seq<Seq<char>>, Seq<char>>,
    opts: Result<Seq<Seq<char>>, Seq<char>>,
)
    requires
        resolved(vars, files, watch, opts) is Err,
    ensures
        match resolved(vars, files, watch, opts)->Err_0 {
            ConfigFault::Missing(var) => !is_set(vars, var),
            ConfigFault::BadRuntime(value) => value == vars["NCAP_RUNTIME"@] && value
                != "podman"@ && value != "docker"@,
            ConfigFault::BadTimeout(source) => number::number_value(vars["NCAP_TIMEOUT"@])
                == Err::<nat, NumberError>(source),
            ConfigFault::BadHarden(value) => value == vars["NCAP_HARDEN"@] && value != "true"@
                && value != "false"@,
            ConfigFault::BadLevel(value) => value == vars["NCAP_LOG_LEVEL"@] && value != "debug"@
                && value != "info"@ && value != "warning"@ && value != "error"@,
            ConfigFault::NotJsonArray(var, source) => ({
                ||| var == "NCAP_WATCH_FILES"@ && watch == Err::<Seq<Seq<char>>, Seq<char>>(source)
                ||| var == "NCAP_RUN_OPTS"@ && opts == Err::<Seq<Seq<char>>, Seq<char>>(source)
            }),
            ConfigFault::NotRelativeWatchFile(entry) => watch->Ok_0.contains(entry) && (
            is_absolute(entry) || has_parent_component(entry)),
            ConfigFault::WatchFileNotFile(entry) => watch->Ok_0.contains(entry) && files.at(
                join_spec(vars["NCAP_PROJECT_ROOT"@], entry),
            ) == FileKind::Other,
            _ => false,
        },
{
    lemma_some_missing(vars, project_vars());
    if watch is Ok {
        lemma_watch_fault_is_of_an_entry(vars["NCAP_PROJECT_ROOT"@], watch->Ok_0, files);
    }
}

proof fn lemma_some_missing(vars: Vars, names: Seq<Seq<char>>)
    ensures
        first_missing(vars, names) matches Some(var) ==> !is_set(vars, var),
    decreases names.len(),
{
    if names.len() > 0 {
        lemma_some_missing(vars, names.drop_first());
    }
}

proof fn lemma_watch_fault_is_of_an_entry(
    root: Seq<char>,
    entries: Seq<Seq<char>>,
    files: FileTable,
)
    ensures
        watch_files_fault(root, entries, files) matches Some(fault) ==> match fault {
            ConfigFault::NotRelativeWatchFile(entry) => entries.contains(entry) && (is_absolute(
                entry,
            ) || has_parent_component(entry)),
            ConfigFault::WatchFileNotFile(entry) => entries.contains(entry) && files.at(
                join_spec(root, entry),
            ) == FileKind::Other,
            _ => false,
        },
    decreases entries.len(),
{
    if entries.len() > 0 {
        let rest = entries.drop_first();
        lemma_watch_fault_is_of_an_entry(root, rest, files);
        assert(entries.contains(entries[0]));
        assert forall|e: Seq<char>| #[trigger] rest.contains(e) implies entries.contains(e) by {
            let i = choose|i: int| 0 <= i < rest.len() && rest[i] == e;
            assert(entries[i + 1] == e);
        }
    }
}

/// What was seen at a path is what the first look at it says, and nothing
/// stands where nobody looked.
pub proof fn law_first_look_counts(table: FileTable, i: int, path: Seq<char>)
    ensures
        0 <= i < table.entries@.len() && table.entries@[i].0@ == path && (forall|j: int|
            0 <= j < i ==> (#[trigger] table.entries@[j]).0@ != path) ==> table.at(path)
            == table.entries@[i].1,
        (forall|j: int| 0 <= j < table.entries@.len() ==> (#[trigger] table.entries@[j]).0@ != path)
            ==> table.at(path) == FileKind::Absent,
{
    if 0 <= i < table.entries@.len() && table.entries@[i].0@ == path && (forall|j: int|
        0 <= j < i ==> (#[trigger] table.entries@[j]).0@ != path) {
        lemma_first_look(table.entries@, i, path);
    }
    if forall|j: int| 0 <= j < table.entries@.len() ==> (#[trigger] table.entries@[j]).0@ != path {
        lemma_first_look(table.entries@, table.entries@.len() as int, path);
    }
}

proof fn lemma_first_look(entries: Seq<(String, FileKind)>, i: int, path: Seq<char>)
    requires
        0 <= i <= entries.len(),
        i < entries.len() ==> entries[i].0@ == path,
        forall|j: int| 0 <= j < i ==> (#[trigger] entries[j]).0@ != path,
    ensures
        kind_at(entries, path) == if i < entries.len() {
            entries[i].1
        } else {
            FileKind::Absent
        },
    decreases i,
{
    if i > 0 {
        assert(entries[0].0@ != path);
        let rest = entries.drop_first();
        assert forall|j: int| 0 <= j < i - 1 implies (#[trigger] rest[j]).0@ != path by {
            assert(rest[j] == entries[j + 1]);
        }
        lemma_first_look(rest, i - 1, path);
    }
}

/// Each watched path is its entry below the root, in order.
pub proof fn law_watched_paths_are_below_the_root(root: Seq<char>, entries: Seq<Seq<char>>)
    ensures
        below(root, entries).len() == entries.len(),
        forall|i: int|
            0 <= i < entries.len() ==> #[trigger] below(root, entries)[i] == join_spec(
                root,
                entries[i],
            ),
{
}

/// The variables are checked in a fixed order, and the first that is missing
/// or wrong is the one that is reported, whatever the later ones are: the
/// runtime, the timeout, the watched files, the options, the hardening, the
/// log level, and then the root.
pub proof fn law_first_fault_is_reported(
    vars: Vars,
    files: FileTable,
    watch: Result<Seq<Seq<char>>, Seq<char>>,
    opts: Result<Seq<Seq<char>>, Seq<char>>,
)
    ensures
        ({
            let r = resolved(vars, files, watch, opts);
            let runtime = is_set(vars, "NCAP_RUNTIME"@) && (vars["NCAP_RUNTIME"@] == "podman"@
                || vars["NCAP_RUNTIME"@] == "docker"@);
            let timeout = runtime && is_set(vars, "NCAP_TIMEOUT"@) && number::number_value(
                vars["NCAP_TIMEOUT"@],
            ) is Ok;
            let watched = timeout && is_set(vars, "NCAP_WATCH_FILES"@) && watch is Ok;
            let optioned = watched && is_set(vars, "NCAP_RUN_OPTS"@) && opts is Ok;
            let hardened = optioned && is_set(vars, "NCAP_HARDEN"@) && (vars["NCAP_HARDEN"@]
                == "true"@ || vars["NCAP_HARDEN"@] == "false"@);
            let levelled = hardened && is_set(vars, "NCAP_LOG_LEVEL"@) && (vars["NCAP_LOG_LEVEL"@]
                == "debug"@ || vars["NCAP_LOG_LEVEL"@] == "info"@ || vars["NCAP_LOG_LEVEL"@]
                == "warning"@ || vars["NCAP_LOG_LEVEL"@] == "error"@);
            &&& !is_set(vars, "NCAP_RUNTIME"@) ==> r == Err::<ConfigModel, ConfigFault>(
                ConfigFault::Missing("NCAP_RUNTIME"@),
            )
            &&& is_set(vars, "NCAP_RUNTIME"@) && !runtime ==> r == Err::<ConfigModel, ConfigFault>(
                ConfigFault::BadRuntime(vars["NCAP_RUNTIME"@]),
            )
            &&& runtime && !is_set(vars, "NCAP_TIMEOUT"@) ==> r == Err::<ConfigModel, ConfigFault>(
                ConfigFault::Missing("NCAP_TIMEOUT"@),
            )
            &&& runtime && is_set(vars, "NCAP_TIMEOUT"@) && !timeout ==> r == Err::<
                ConfigModel,
                ConfigFault,
            >(ConfigFault::BadTimeout(number::number_value(vars["NCAP_TIMEOUT"@])->Err_0))
            &&& timeout && !is_set(vars, "NCAP_WATCH_FILES"@) ==> r == Err::<
                ConfigModel,
                ConfigFault,
            >(ConfigFault::Missing("NCAP_WATCH_FILES"@))
            &&& timeout && is_set(vars, "NCAP_WATCH_FILES"@) && watch is Err ==> r == Err::<
                ConfigModel,
                ConfigFault,
            >(ConfigFault::NotJsonArray("NCAP_WATCH_FILES"@, watch->Err_0))
            &&& watched && !is_set(vars, "NCAP_RUN_OPTS"@) ==> r == Err::<
                ConfigModel,
                ConfigFault,
            >(ConfigFault::Missing("NCAP_RUN_OPTS"@))
            &&& watched && is_set(vars, "NCAP_RUN_OPTS"@) && opts is Err ==> r == Err::<
                ConfigModel,
                ConfigFault,
            >(ConfigFault::NotJsonArray("NCAP_RUN_OPTS"@, opts->Err_0))
            &&& optioned && !is_set(vars, "NCAP_HARDEN"@) ==> r == Err::<ConfigModel, ConfigFault>(
                ConfigFault::Missing("NCAP_HARDEN"@),
            )
            &&& optioned && is_set(vars, "NCAP_HARDEN"@) && !hardened ==> r == Err::<
                ConfigModel,
                ConfigFault,
            >(ConfigFault::BadHarden(vars["NCAP_HARDEN"@]))
            &&& hardened && !is_set(vars, "NCAP_LOG_LEVEL"@) ==> r == Err::<
                ConfigModel,
                ConfigFault,
            >(ConfigFault::Missing("NCAP_LOG_LEVEL"@))
            &&& hardened && is_set(vars, "NCAP_LOG_LEVEL"@) && !levelled ==> r == Err::<
                ConfigModel,
                ConfigFault,
            >(ConfigFault::BadLevel(vars["NCAP_LOG_LEVEL"@]))
            &&& levelled && !is_set(vars, "NCAP_PROJECT_ROOT"@) ==> r == Err::<
                ConfigModel,
                ConfigFault,
            >(ConfigFault::Missing("NCAP_PROJECT_ROOT"@))
        }),
{
}

/// The first watched file that does not stay below the root, or is no file,
/// is the one that is reported.
pub proof fn law_first_bad_watch_file_is_reported(
    root: Seq<char>,
    entries: Seq<Seq<char>>,
    k: int,
    files: FileTable,
)
    requires
        0 <= k < entries.len(),
        forall|i: int|
            0 <= i < k ==> !((#[trigger] entries[i]).len() > 0 && entries[i][0] == '/')
                && !has_parent_component(entries[i]) && files.at(join_spec(root, entries[i]))
                != FileKind::Other,
    ensures
        (entries[k].len() > 0 && entries[k][0] == '/') || has_parent_component(entries[k])
            ==> watch_files_fault(root, entries, files) == Some(
            ConfigFault::NotRelativeWatchFile(entries[k]),
        ),
        !(entries[k].len() > 0 && entries[k][0] == '/') && !has_parent_component(entries[k])
            && files.at(join_spec(root, entries[k])) == FileKind::Other ==> watch_files_fault(
            root,
            entries,
            files,
        ) == Some(ConfigFault::WatchFileNotFile(entries[k])),
    decreases k,
{
    if k > 0 {
        assert(!(entries[0].len() > 0 && entries[0][0] == '/'));
        let rest = entries.drop_first();
        assert forall|i: int| 0 <= i < k - 1 implies !((#[trigger] rest[i]).len() > 0
            && rest[i][0] == '/') && !has_parent_component(rest[i]) && files.at(
            join_spec(root, rest[i]),
        ) != FileKind::Other by {
            assert(rest[i] == entries[i + 1]);
        }
        assert(rest[k - 1] == entries[k]);
        law_first_bad_watch_file_is_reported(root, rest, k - 1, files);
    }
}

/// Behind the root the remaining variables are demanded in this order, and
/// the first that is not set is the one that is reported.
pub proof fn law_first_missing_variable_is_reported(
    vars: Vars,
    files: FileTable,
    watch: Result<Seq<Seq<char>>, Seq<char>>,
    opts: Result<Seq<Seq<char>>, Seq<char>>,
    names: Seq<Seq<char>>,
    k: int,
)
    requires
        checked(vars, watch, opts) is Ok,
        is_set(vars, "NCAP_PROJECT_ROOT"@),
        watch_files_fault(
            vars["NCAP_PROJECT_ROOT"@],
            checked(vars, watch, opts)->Ok_0.watch_files,
            files,
        ) is None,
        names == seq![
            "NCAP_PROJECT"@,
            "NCAP_CONTAINER"@,
            "NCAP_SOCKET"@,
            "NCAP_CACHE_DIR"@,
            "NCAP_LOG_DIR"@,
            "NCAP_DEVSHELL"@,
            "NCAP_NIX"@,
            "NCAP_IMAGE"@,
            "NCAP_SERVER"@,
            "NCAP_BASH"@,
        ],
        0 <= k < names.len(),
        !is_set(vars, names[k]),
        forall|i: int| 0 <= i < k ==> is_set(vars, #[trigger] names[i]),
    ensures
        resolved(vars, files, watch, opts) == Err::<ConfigModel, ConfigFault>(
            ConfigFault::Missing(names[k]),
        ),
{
    lemma_first_missing(vars, project_vars(), k);
}

/// Each variable with a form of its own, read by itself: it is demanded, and
/// then it is its text, its number, its list, its truth value or its level.
pub proof fn law_checked_variables_read_alone(
    vars: Vars,
    var: Seq<char>,
    parsed: Result<Seq<Seq<char>>, Seq<char>>,
)
    ensures
        demanded(vars, var) == if vars.contains_key(var) && vars[var].len() > 0 {
            Ok::<Seq<char>, ConfigFault>(vars[var])
        } else {
            Err(ConfigFault::Missing(var))
        },
        runtime_of(vars) is Ok <==> is_set(vars, "NCAP_RUNTIME"@) && (vars["NCAP_RUNTIME"@]
            == "podman"@ || vars["NCAP_RUNTIME"@] == "docker"@),
        runtime_of(vars) is Ok ==> runtime_of(vars)->Ok_0 == vars["NCAP_RUNTIME"@],
        timeout_of(vars) is Ok <==> is_set(vars, "NCAP_TIMEOUT"@) && number::number_value(
            vars["NCAP_TIMEOUT"@],
        ) is Ok,
        timeout_of(vars) is Ok ==> timeout_of(vars)->Ok_0 == number::number_value(
            vars["NCAP_TIMEOUT"@],
        )->Ok_0,
        list_of(vars, var, parsed) is Ok <==> is_set(vars, var) && parsed is Ok,
        list_of(vars, var, parsed) is Ok ==> list_of(vars, var, parsed)->Ok_0 == parsed->Ok_0,
        harden_of(vars) == Ok::<bool, ConfigFault>(true) <==> is_set(vars, "NCAP_HARDEN"@)
            && vars["NCAP_HARDEN"@] == "true"@,
        harden_of(vars) == Ok::<bool, ConfigFault>(false) <==> is_set(vars, "NCAP_HARDEN"@)
            && vars["NCAP_HARDEN"@] == "false"@,
        level_of(vars) == Ok::<LogLevel, ConfigFault>(LogLevel::Debug) <==> is_set(
            vars,
            "NCAP_LOG_LEVEL"@,
        ) && vars["NCAP_LOG_LEVEL"@] == "debug"@,
        level_of(vars) == Ok::<LogLevel, ConfigFault>(LogLevel::Info) <==> is_set(
            vars,
            "NCAP_LOG_LEVEL"@,
        ) && vars["NCAP_LOG_LEVEL"@] == "info"@,
        level_of(vars) == Ok::<LogLevel, ConfigFault>(LogLevel::Warning) <==> is_set(
            vars,
            "NCAP_LOG_LEVEL"@,
        ) && vars["NCAP_LOG_LEVEL"@] == "warning"@,
        level_of(vars) == Ok::<LogLevel, ConfigFault>(LogLevel::Error) <==> is_set(
            vars,
            "NCAP_LOG_LEVEL"@,
        ) && vars["NCAP_LOG_LEVEL"@] == "error"@,
{
    lemma_digits_fit(vars["NCAP_TIMEOUT"@]);
    lemma_digits_fit(vars["NCAP_TIMEOUT"@].drop_first());
    crate::server::law_level_words_are_distinct(LogLevel::Debug, LogLevel::Info);
    crate::server::law_level_words_are_distinct(LogLevel::Debug, LogLevel::Warning);
    crate::server::law_level_words_are_distinct(LogLevel::Debug, LogLevel::Error);
    crate::server::law_level_words_are_distinct(LogLevel::Info, LogLevel::Warning);
    crate::server::law_level_words_are_distinct(LogLevel::Info, LogLevel::Error);
    crate::server::law_level_words_are_distinct(LogLevel::Warning, LogLevel::Error);
    reveal_strlit("true");
    reveal_strlit("false");
    assert("true"@[0] == 't' && "false"@[0] == 'f');
}

/// What is handed back is what was resolved: a text, a list or a
/// configuration as it is, a failure as it is.
pub proof fn law_results_are_handed_back(
    r: Result<String, ConfigError>,
    list: Result<Vec<String>, ConfigError>,
    config: Result<Config, ConfigError>,
    text: Seq<char>,
    texts: Seq<Seq<char>>,
    model: ConfigModel,
    fault: ConfigFault,
)
    ensures
        text_result(r, Ok(text)) <==> r is Ok && r->Ok_0@ == text,
        text_result(r, Err(fault)) <==> r is Err && r->Err_0@ == fault,
        list_result(list, Ok(texts)) <==> list is Ok && views(list->Ok_0@) == texts,
        list_result(list, Err(fault)) <==> list is Err && list->Err_0@ == fault,
        config_result(config, Ok(model)) <==> config is Ok && config->Ok_0@ == model,
        config_result(config, Err(fault)) <==> config is Err && config->Err_0@ == fault,
{
}

/// A configuration's model keeps every field of it.
pub proof fn law_configuration_model_keeps_every_field(cfg: Config)
    ensures
        cfg@.root == cfg.root@,
        cfg@.project == cfg.project@,
        cfg@.container == cfg.container@,
        cfg@.socket == cfg.socket@,
        cfg@.cache_dir == cfg.cache_dir@,
        cfg@.log_dir == cfg.log_dir@,
        cfg@.runtime == cfg.runtime@,
        cfg@.timeout == cfg.timeout,
        cfg@.watch_files == views(cfg.watch_files@),
        cfg@.run_opts == views(cfg.run_opts@),
        cfg@.harden == cfg.harden,
        cfg@.log_level == cfg.log_level,
        cfg@.image == cfg.image@,
        cfg@.server == cfg.server@,
        cfg@.nix == cfg.nix@,
        cfg@.bash == cfg.bash@,
        cfg@.devshell == cfg.devshell@,
{
}

/// A failure of the configuration names the variable, and the value or the
/// cause that is wrong with it.
pub proof fn law_configuration_errors_name_the_variable(
    var: &'static str,
    value: String,
    source: NumberError,
)
    ensures
        (ConfigError::Missing { var }).text() == "required `"@ + var@ + "` is not set"@,
        (ConfigError::EmptyProjectName { root: value }).text()
            == "cannot derive a project name from root `"@ + value@ + "`"@,
        (ConfigError::NotJsonArray { var, source: value }).text() == "`"@ + var@
            + "` is not a JSON array of strings: "@ + value@,
        (ConfigError::BadTimeout { source }).text()
            == "`NCAP_TIMEOUT` is not a number of seconds: "@ + source.description(),
        (ConfigError::NotRelativeWatchFile { entry: value }).text()
            == "`NCAP_WATCH_FILES` entry `"@ + value@
            + "` is not a project-root-relative path"@,
        (ConfigError::WatchFileNotFile { entry: value }).text() == "`NCAP_WATCH_FILES` entry `"@
            + value@ + "` is not a file"@,
        (ConfigError::BadRuntime { value }).text()
            == "`NCAP_RUNTIME` must be `podman` or `docker`, got `"@ + value@ + "`"@,
        (ConfigError::BadHarden { value }).text()
            == "`NCAP_HARDEN` must be `true` or `false`, got `"@ + value@ + "`"@,
        (ConfigError::BadLevel { value }).text()
            == "`NCAP_LOG_LEVEL` must be `debug`, `info`, `warning`, or `error`, got `"@ + value@
            + "`"@,
{
}

} // verus!
