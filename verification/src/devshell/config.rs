//! The settings of devshell control: two paths from the command line, the
//! rest from the environment.

use vstd::prelude::*;

use super::expand::{expand_env, substituted};
use super::tools::{NixInvoker, Report, Runtime};
use crate::ctl::names::{make_slug, slug};
use crate::environment::Environment;
use crate::json;
use crate::number::{self, NumberError};
use crate::path::{self, cache_root_spec, devshell_dir_spec, env_file_spec, nix_profile_spec};
use crate::pathname::{self, parent_spec};
use crate::text::{self, push_text, views};

verus! {

/// The settings of one run.
pub struct Config {
    pub devshell: String,
    pub socket: String,
    pub socket_dir: String,
    pub log_dir: String,
    pub container: String,
    pub image: String,
    pub runtime: Runtime,
    pub run_opts: Vec<String>,
    pub server_bin: String,
    pub nix: NixInvoker,
    pub bash_bin: String,
    pub timeout: u64,
    pub project_root: String,
}

/// Why the settings are not complete.
pub enum SettingsError {
    /// A variable is not set.
    NotSet { name: String },
    /// A variable is set to a value that is no text; `value` shows it.
    NotText { name: String, value: String },
    /// The socket has no directory.
    NoSocketDir { socket: String },
    /// `NCAP_RUN_OPTS` is no JSON array of strings.
    RunOpts { source: String },
    /// `NCAP_TIMEOUT` is no number.
    Timeout { source: NumberError },
}

/// What is said of a variable that cannot be had.
pub open spec fn missing(name: Seq<char>) -> Seq<char> {
    "env var not set: `"@ + name + "`"@
}

fn missing_text(name: &str) -> (out: String)
    ensures
        out@ == missing(name@),
{
    let mut out = "env var not set: `".to_owned();
    out.append(name);
    out.append("`");
    out
}

impl SettingsError {
    /// What `report` tells, outermost first: a variable that cannot be had,
    /// or a failed parse, is followed by the reason.
    pub open spec fn chain(self) -> Seq<Seq<char>> {
        match self {
            SettingsError::NotSet { name } => seq![
                missing(name@),
                "environment variable not found"@,
            ],
            SettingsError::NotText { name, value } => seq![
                missing(name@),
                "environment variable was not valid unicode: "@ + value@,
            ],
            SettingsError::NoSocketDir { socket } => seq![
                "socket path has no parent directory `"@ + socket@ + "`"@,
            ],
            SettingsError::RunOpts { source } => seq![
                "failed to parse `NCAP_RUN_OPTS` as json"@,
                source@,
            ],
            SettingsError::Timeout { source } => seq![source.description()],
        }
    }

    /// The failure for people.
    pub fn report(&self) -> (r: Report)
        ensures
            r@.chain == self.chain(),
            r@.suggestion is None,
    {
        match self {
            SettingsError::NotSet { name } => {
                let reason = "environment variable not found".to_owned();
                let r = Report::new(reason).wrap(missing_text(name.as_str()));
                proof {
                    assert(r@.chain =~= self.chain());
                }
                r
            },
            SettingsError::NotText { name, value } => {
                let mut reason = "environment variable was not valid unicode: ".to_owned();
                reason.append(value.as_str());
                let r = Report::new(reason).wrap(missing_text(name.as_str()));
                proof {
                    assert(r@.chain =~= self.chain());
                }
                r
            },
            SettingsError::NoSocketDir { socket } => {
                let mut message = "socket path has no parent directory `".to_owned();
                message.append(socket.as_str());
                message.append("`");
                Report::new(message)
            },
            SettingsError::RunOpts { source } => {
                let r = Report::new(source.clone()).wrap(
                    "failed to parse `NCAP_RUN_OPTS` as json".to_owned(),
                );
                proof {
                    assert(r@.chain =~= self.chain());
                }
                r
            },
            SettingsError::Timeout { source } => Report::new(source.describe()),
        }
    }
}

/// The variables in the order they are read: those before the run options.
pub open spec fn early_names() -> Seq<Seq<char>> {
    seq!["NCAP_CONTAINER"@, "NCAP_IMAGE"@, "NCAP_RUNTIME"@, "NCAP_RUN_OPTS"@]
}

/// The variables between the run options and the timeout.
pub open spec fn late_names() -> Seq<Seq<char>> {
    seq!["NCAP_SERVER"@, "NCAP_NIX"@, "NCAP_BASH"@, "NCAP_TIMEOUT"@]
}

/// The first of `names` that is not set.
pub open spec fn first_unset(vars: Map<Seq<char>, Seq<char>>, names: Seq<Seq<char>>) -> Option<
    Seq<char>,
>
    decreases names.len(),
{
    if names.len() == 0 {
        None
    } else if !vars.contains_key(names[0]) {
        Some(names[0])
    } else {
        first_unset(vars, names.drop_first())
    }
}

/// The error says that this variable cannot be had: it is among those whose
/// value is no text, or it is not set.
pub open spec fn is_missing(
    e: SettingsError,
    name: Seq<char>,
    garbled: Map<Seq<char>, Seq<char>>,
) -> bool {
    match e {
        SettingsError::NotSet { name: n } => n@ == name && !garbled.contains_key(name),
        SettingsError::NotText { name: n, value } => {
            &&& n@ == name
            &&& garbled.contains_key(name)
            &&& value@ == garbled[name]
        },
        _ => false,
    }
}

/// The settings fail for want of this variable.
pub open spec fn is_unset(
    r: Result<Config, SettingsError>,
    name: Seq<char>,
    garbled: Map<Seq<char>, Seq<char>>,
) -> bool {
    r matches Err(e) && is_missing(e, name, garbled)
}

/// What the settings come to: the first obstacle in the order in which they
/// are read, or all of them. `vars` are the variables that hold text and
/// `garbled` shows the others; `opts` is what the run options are read as.
pub open spec fn settled(
    socket: Seq<char>,
    log_dir: Seq<char>,
    vars: Map<Seq<char>, Seq<char>>,
    garbled: Map<Seq<char>, Seq<char>>,
    opts: Result<Seq<Seq<char>>, Seq<char>>,
    r: Result<Config, SettingsError>,
) -> bool {
    if !vars.contains_key("NCAP_DEVSHELL"@) {
        is_unset(r, "NCAP_DEVSHELL"@, garbled)
    } else if parent_spec(socket) is None {
        r matches Err(SettingsError::NoSocketDir { socket: s }) && s@ == socket
    } else if first_unset(vars, early_names()) is Some {
        is_unset(r, first_unset(vars, early_names())->0, garbled)
    } else if opts is Err {
        r matches Err(SettingsError::RunOpts { source }) && source@ == opts->Err_0
    } else if first_unset(vars, late_names()) is Some {
        is_unset(r, first_unset(vars, late_names())->0, garbled)
    } else {
        match number::number_value(vars["NCAP_TIMEOUT"@]) {
            Err(e) => r matches Err(SettingsError::Timeout { source }) && source == e,
            Ok(timeout) => if !vars.contains_key("PROJECT_ROOT"@) {
                is_unset(r, "PROJECT_ROOT"@, garbled)
            } else {
                r matches Ok(cfg) && cfg.holds(socket, log_dir, vars, opts->Ok_0, timeout)
            },
        }
    }
}

/// What the run options are read as; where they are not set it does not
/// matter.
pub open spec fn read_opts(vars: Map<Seq<char>, Seq<char>>) -> Result<Seq<Seq<char>>, Seq<char>> {
    if vars.contains_key("NCAP_RUN_OPTS"@) {
        json::string_array(vars["NCAP_RUN_OPTS"@])
    } else {
        Ok(Seq::empty())
    }
}

fn demand(env: &Environment, garbled: &Environment, name: &str) -> (r: Result<
    String,
    SettingsError,
>)
    ensures
        match r {
            Ok(value) => env@.contains_key(name@) && value@ == env@[name@],
            Err(e) => !env@.contains_key(name@) && is_missing(e, name@, garbled@),
        },
{
    match env.get(name) {
        Some(value) => Ok(value),
        None => match garbled.get(name) {
            Some(value) => Err(SettingsError::NotText { name: name.to_owned(), value }),
            None => Err(SettingsError::NotSet { name: name.to_owned() }),
        },
    }
}

/// The name of the devshell's cache directory: the letters and digits of the
/// reference, with single dashes between, or `default` where none is left.
pub open spec fn sanitized(devshell: Seq<char>) -> Seq<char> {
    if slug(devshell).len() == 0 {
        "default"@
    } else {
        slug(devshell)
    }
}

/// The name of the devshell's cache directory.
pub fn sanitize_name(devshell: &str) -> (out: String)
    ensures
        out@ == sanitized(devshell@),
{
    let name = make_slug(devshell);
    if name.len() == 0 {
        "default".to_owned()
    } else {
        text::string_of(&name)
    }
}

/// `<a>:<b>` with an optional tail.
pub open spec fn mount(a: Seq<char>, tail: Seq<char>) -> Seq<char> {
    a + ":"@ + a + tail
}

/// The mounts and the workdir, then `.git` where it is a directory.
pub open spec fn default_args(
    container: Seq<char>,
    socket_dir: Seq<char>,
    root: Seq<char>,
    git_is_dir: bool,
) -> Seq<Seq<char>> {
    let base = seq![
        "--replace"@,
        "--name"@,
        container,
        "-v"@,
        "/nix:/nix:ro"@,
        "-v"@,
        mount(socket_dir, ""@),
        "-v"@,
        mount(root, ""@),
        "-w"@,
        root,
        "-v"@,
        mount(cache_root_spec(root), ":ro"@),
    ];
    if git_is_dir {
        base + seq!["-v"@, mount(root + "/.git"@, ":ro"@)]
    } else {
        base
    }
}

/// The run options with their references replaced.
pub open spec fn expanded_opts(
    opts: Seq<Seq<char>>,
    vars: Map<Seq<char>, Seq<char>>,
) -> Seq<Seq<char>> {
    opts.map_values(|opt: Seq<char>| substituted(opt, vars))
}

fn mount_text(dir: &str, tail: &str) -> (out: String)
    ensures
        out@ == mount(dir@, tail@),
{
    let mut out = dir.to_owned();
    out.append(":");
    out.append(dir);
    out.append(tail);
    out
}

impl Config {
    /// The settings are those of the command line and the environment.
    pub open spec fn holds(
        self,
        socket: Seq<char>,
        log_dir: Seq<char>,
        vars: Map<Seq<char>, Seq<char>>,
        opts: Seq<Seq<char>>,
        timeout: nat,
    ) -> bool {
        &&& self.devshell@ == vars["NCAP_DEVSHELL"@]
        &&& self.socket@ == socket
        &&& Some(self.socket_dir@) == parent_spec(socket)
        &&& self.log_dir@ == log_dir
        &&& self.container@ == vars["NCAP_CONTAINER"@]
        &&& self.image@ == vars["NCAP_IMAGE"@]
        &&& self.runtime.bin@ == vars["NCAP_RUNTIME"@]
        &&& views(self.run_opts@) == opts
        &&& self.server_bin@ == vars["NCAP_SERVER"@]
        &&& self.nix.bin@ == vars["NCAP_NIX"@]
        &&& self.bash_bin@ == vars["NCAP_BASH"@]
        &&& self.timeout == timeout
        &&& self.project_root@ == vars["PROJECT_ROOT"@]
    }

    /// The settings, with the run options already read.
    pub fn from_parsed(
        socket: &str,
        log_dir: &str,
        env: &Environment,
        garbled: &Environment,
        opts: Result<Vec<String>, String>,
    ) -> (r: Result<Config, SettingsError>)
        ensures
            settled(
                socket@,
                log_dir@,
                env@,
                garbled@,
                match opts {
                    Ok(list) => Ok(views(list@)),
                    Err(source) => Err(source@),
                },
                r,
            ),
    {
        proof {
            reveal_with_fuel(first_unset, 5);
            let early = early_names();
            assert(early.drop_first() =~= seq![
                "NCAP_IMAGE"@,
                "NCAP_RUNTIME"@,
                "NCAP_RUN_OPTS"@,
            ]);
            assert(early.drop_first().drop_first() =~= seq!["NCAP_RUNTIME"@, "NCAP_RUN_OPTS"@]);
            assert(early.drop_first().drop_first().drop_first() =~= seq!["NCAP_RUN_OPTS"@]);
            let late = late_names();
            assert(late.drop_first() =~= seq!["NCAP_NIX"@, "NCAP_BASH"@, "NCAP_TIMEOUT"@]);
            assert(late.drop_first().drop_first() =~= seq!["NCAP_BASH"@, "NCAP_TIMEOUT"@]);
            assert(late.drop_first().drop_first().drop_first() =~= seq!["NCAP_TIMEOUT"@]);
        }
        let devshell = match demand(env, garbled, "NCAP_DEVSHELL") {
            Ok(value) => value,
            Err(e) => return Err(e),
        };
        let socket_dir = match pathname::parent(socket) {
            Some(dir) => dir,
            None => return Err(SettingsError::NoSocketDir { socket: socket.to_owned() }),
        };
        let container = match demand(env, garbled, "NCAP_CONTAINER") {
            Ok(value) => value,
            Err(e) => return Err(e),
        };
        let image = match demand(env, garbled, "NCAP_IMAGE") {
            Ok(value) => value,
            Err(e) => return Err(e),
        };
        let runtime = match demand(env, garbled, "NCAP_RUNTIME") {
            Ok(value) => Runtime::new(value),
            Err(e) => return Err(e),
        };
        match demand(env, garbled, "NCAP_RUN_OPTS") {
            Ok(_) => {},
            Err(e) => return Err(e),
        }
        let run_opts = match opts {
            Ok(list) => list,
            Err(source) => return Err(SettingsError::RunOpts { source }),
        };
        let server_bin = match demand(env, garbled, "NCAP_SERVER") {
            Ok(value) => value,
            Err(e) => return Err(e),
        };
        let nix = match demand(env, garbled, "NCAP_NIX") {
            Ok(value) => NixInvoker::new(value),
            Err(e) => return Err(e),
        };
        let bash_bin = match demand(env, garbled, "NCAP_BASH") {
            Ok(value) => value,
            Err(e) => return Err(e),
        };
        let timeout_text = match demand(env, garbled, "NCAP_TIMEOUT") {
            Ok(value) => value,
            Err(e) => return Err(e),
        };
        let timeout: u64 = match number::parse_number(timeout_text.as_str()) {
            Ok(value) => value,
            Err(source) => return Err(SettingsError::Timeout { source }),
        };
        let project_root = match demand(env, garbled, "PROJECT_ROOT") {
            Ok(value) => value,
            Err(e) => return Err(e),
        };
        Ok(
            Config {
                devshell,
                socket: socket.to_owned(),
                socket_dir,
                log_dir: log_dir.to_owned(),
                container,
                image,
                runtime,
                run_opts,
                server_bin,
                nix,
                bash_bin,
                timeout,
                project_root,
            },
        )
    }

    /// The settings from the command line's two paths and the environment:
    /// `env` holds the variables whose value is text, `garbled` the others,
    /// each with its value as the system shows it.
    pub fn from_cli(
        socket: &str,
        log_dir: &str,
        env: &Environment,
        garbled: &Environment,
    ) -> (r: Result<Config, SettingsError>)
        ensures
            settled(socket@, log_dir@, env@, garbled@, read_opts(env@), r),
    {
        let opts = match env.get("NCAP_RUN_OPTS") {
            Some(value) => json::read_string_array(value.as_str()),
            None => {
                let none: Vec<String> = Vec::new();
                proof {
                    assert(views(none@) =~= Seq::<Seq<char>>::empty());
                }
                Ok(none)
            },
        };
        Config::from_parsed(socket, log_dir, env, garbled, opts)
    }

    /// The name of the devshell's cache directory.
    pub fn devshell_name(&self) -> (out: String)
        ensures
            out@ == sanitized(self.devshell@),
    {
        sanitize_name(self.devshell.as_str())
    }

    /// The cached activation script.
    pub open spec fn cache_file_spec(self) -> Seq<char> {
        env_file_spec(self.project_root@, sanitized(self.devshell@))
    }

    /// The cached activation script.
    pub fn cache_file(&self) -> (out: String)
        ensures
            out@ == self.cache_file_spec(),
    {
        path::env_file(self.project_root.as_str(), self.devshell_name().as_str())
    }

    /// The nix profile.
    pub open spec fn nix_profile_spec(self) -> Seq<char> {
        nix_profile_spec(self.project_root@, sanitized(self.devshell@))
    }

    /// The nix profile.
    pub fn nix_profile(&self) -> (out: String)
        ensures
            out@ == self.nix_profile_spec(),
    {
        path::nix_profile(self.project_root.as_str(), self.devshell_name().as_str())
    }

    /// The devshell's cache directory.
    pub open spec fn devshell_dir_spec(self) -> Seq<char> {
        devshell_dir_spec(self.project_root@, sanitized(self.devshell@))
    }

    /// The devshell's cache directory.
    pub fn devshell_dir(&self) -> (out: String)
        ensures
            out@ == self.devshell_dir_spec(),
    {
        path::devshell_dir(self.project_root.as_str(), self.devshell_name().as_str())
    }

    /// The arguments of the container.
    pub open spec fn run_args_spec(
        self,
        git_is_dir: bool,
        vars: Map<Seq<char>, Seq<char>>,
    ) -> Seq<Seq<char>> {
        default_args(self.container@, self.socket_dir@, self.project_root@, git_is_dir)
            + expanded_opts(views(self.run_opts@), vars)
    }

    /// The arguments of the container: the defaults, then the run options
    /// with their references replaced. `git_is_dir` says whether the root's
    /// `.git` is a directory.
    pub fn run_args(&self, git_is_dir: bool, env: &Environment) -> (args: Vec<String>)
        ensures
            views(args@) == self.run_args_spec(git_is_dir, env@),
    {
        let root = self.project_root.as_str();
        let cache = path::cache_root(root);
        let mut args: Vec<String> = Vec::new();
        push_text(&mut args, "--replace");
        push_text(&mut args, "--name");
        push_text(&mut args, self.container.as_str());
        push_text(&mut args, "-v");
        push_text(&mut args, "/nix:/nix:ro");
        push_text(&mut args, "-v");
        push_text(&mut args, mount_text(self.socket_dir.as_str(), "").as_str());
        push_text(&mut args, "-v");
        push_text(&mut args, mount_text(root, "").as_str());
        push_text(&mut args, "-w");
        push_text(&mut args, root);
        push_text(&mut args, "-v");
        push_text(&mut args, mount_text(cache.as_str(), ":ro").as_str());
        if git_is_dir {
            let mut git = root.to_owned();
            git.append("/.git");
            push_text(&mut args, "-v");
            push_text(&mut args, mount_text(git.as_str(), ":ro").as_str());
        }
        let ghost defaults = default_args(
            self.container@,
            self.socket_dir@,
            self.project_root@,
            git_is_dir,
        );
        let ghost opts = expanded_opts(views(self.run_opts@), env@);
        proof {
            assert(views(args@) =~= defaults + opts.take(0));
        }
        let mut i: usize = 0;
        while i < self.run_opts.len()
            invariant
                i <= self.run_opts@.len(),
                opts == expanded_opts(views(self.run_opts@), env@),
                views(args@) == defaults + opts.take(i as int),
            decreases self.run_opts@.len() - i,
        {
            let opt = expand_env(self.run_opts[i].as_str(), env);
            push_text(&mut args, opt.as_str());
            i = i + 1;
            proof {
                assert(opts[i - 1] == opt@);
                assert(opts.take(i as int) =~= opts.take(i - 1).push(opts[i - 1]));
                assert((defaults + opts.take(i - 1)).push(opts[i - 1]) =~= defaults + opts.take(
                    i as int,
                ));
            }
        }
        proof {
            assert(opts.take(i as int) =~= opts);
        }
        args
    }
}

/// Whether direnv says that the watched files are unchanged: a signal for one
/// run, not a setting.
pub open spec fn signalled(vars: Map<Seq<char>, Seq<char>>) -> bool {
    vars.contains_key("NCAP_CACHE"@) && vars["NCAP_CACHE"@] == "1"@
}

/// Whether direnv says that the watched files are unchanged.
pub fn cache_signal(env: &Environment) -> (r: bool)
    ensures
        r == signalled(env@),
{
    match env.get("NCAP_CACHE") {
        Some(value) => text::same(value.as_str(), "1"),
        None => false,
    }
}

/// The defaults come first and the configured options after them, so that an
/// option can override a default.
pub proof fn law_run_options_follow_the_defaults(
    cfg: Config,
    git_is_dir: bool,
    vars: Map<Seq<char>, Seq<char>>,
)
    ensures
        ({
            let defaults = default_args(
                cfg.container@,
                cfg.socket_dir@,
                cfg.project_root@,
                git_is_dir,
            );
            let args = cfg.run_args_spec(git_is_dir, vars);
            &&& args.take(defaults.len() as int) == defaults
            &&& args.skip(defaults.len() as int) == expanded_opts(views(cfg.run_opts@), vars)
        }),
{
    let defaults = default_args(cfg.container@, cfg.socket_dir@, cfg.project_root@, git_is_dir);
    let opts = expanded_opts(views(cfg.run_opts@), vars);
    assert((defaults + opts).take(defaults.len() as int) =~= defaults);
    assert((defaults + opts).skip(defaults.len() as int) =~= opts);
}

/// The name of a devshell's cache directory is never empty and holds letters
/// and digits, with single dashes inside and none at the edges.
pub proof fn law_devshell_name_is_clean(devshell: Seq<char>)
    ensures
        sanitized(devshell).len() > 0,
        crate::ctl::names::is_clean(sanitized(devshell)),
{
    crate::ctl::names::law_project_name_is_clean(devshell);
    reveal_strlit("default");
    let s = "default"@;
    assert forall|i: int| 0 <= i < s.len() implies crate::text::is_alphanumeric(#[trigger] s[i]) by {
    }
}

/// The arguments of the container, written out: replaced under its name, the
/// store read-only, the socket's directory, the project as working directory,
/// the cache read-only, and `.git` read-only where it is a directory.
pub proof fn law_default_arguments_written_out(
    container: Seq<char>,
    socket_dir: Seq<char>,
    root: Seq<char>,
    git_is_dir: bool,
)
    requires
        root.len() > 0,
        root.last() != '/',
    ensures
        default_args(container, socket_dir, root, git_is_dir) == seq![
            "--replace"@,
            "--name"@,
            container,
            "-v"@,
            "/nix:/nix:ro"@,
            "-v"@,
            socket_dir + ":"@ + socket_dir,
            "-v"@,
            root + ":"@ + root,
            "-w"@,
            root,
            "-v"@,
            root + "/.ncap-cache"@ + ":"@ + root + "/.ncap-cache"@ + ":ro"@,
        ] + if git_is_dir {
            seq!["-v"@, root + "/.git"@ + ":"@ + root + "/.git"@ + ":ro"@]
        } else {
            Seq::empty()
        },
{
    reveal_strlit("");
    reveal_strlit(".ncap-cache");
    reveal_strlit("/.ncap-cache");
    assert(cache_root_spec(root) =~= root + "/.ncap-cache"@);
    assert(mount(socket_dir, ""@) =~= socket_dir + ":"@ + socket_dir);
    assert(mount(root, ""@) =~= root + ":"@ + root);
    let cache = root + "/.ncap-cache"@;
    let git = root + "/.git"@;
    assert(mount(cache, ":ro"@) =~= root + "/.ncap-cache"@ + ":"@ + root + "/.ncap-cache"@
        + ":ro"@);
    assert(mount(git, ":ro"@) =~= root + "/.git"@ + ":"@ + root + "/.git"@ + ":ro"@);
    let all = default_args(container, socket_dir, root, git_is_dir);
    assert(all =~= seq![
        "--replace"@,
        "--name"@,
        container,
        "-v"@,
        "/nix:/nix:ro"@,
        "-v"@,
        socket_dir + ":"@ + socket_dir,
        "-v"@,
        root + ":"@ + root,
        "-w"@,
        root,
        "-v"@,
        root + "/.ncap-cache"@ + ":"@ + root + "/.ncap-cache"@ + ":ro"@,
    ] + if git_is_dir {
        seq!["-v"@, root + "/.git"@ + ":"@ + root + "/.git"@ + ":ro"@]
    } else {
        Seq::empty()
    });
}

/// Each run option is replaced for itself, in order.
pub proof fn law_each_option_is_replaced_for_itself(
    opts: Seq<Seq<char>>,
    vars: Map<Seq<char>, Seq<char>>,
)
    ensures
        expanded_opts(opts, vars).len() == opts.len(),
        forall|i: int|
            0 <= i < opts.len() ==> #[trigger] expanded_opts(opts, vars)[i] == substituted(
                opts[i],
                vars,
            ),
{
}

/// The cache directory is named after the devshell in letters, digits and
/// dashes, and `default` where none of its characters is either.
pub proof fn law_devshell_name(devshell: Seq<char>)
    ensures
        slug(devshell).len() > 0 ==> sanitized(devshell) == slug(devshell),
        slug(devshell).len() == 0 ==> sanitized(devshell) == "default"@,
{
}

/// The signal is the value `1` and no other.
pub proof fn law_signal_is_exactly_one(vars: Map<Seq<char>, Seq<char>>)
    ensures
        signalled(vars) <==> vars.contains_key("NCAP_CACHE"@) && vars["NCAP_CACHE"@] == seq!['1'],
{
    reveal_strlit("1");
    assert("1"@ =~= seq!['1']);
}

/// Each setting is the value of its own variable; the socket's directory is
/// that of the socket, the timeout the number that is written.
pub proof fn law_settings_are_their_variables(
    socket: Seq<char>,
    log_dir: Seq<char>,
    vars: Map<Seq<char>, Seq<char>>,
    garbled: Map<Seq<char>, Seq<char>>,
    opts: Result<Seq<Seq<char>>, Seq<char>>,
    cfg: Config,
)
    requires
        settled(socket, log_dir, vars, garbled, opts, Ok(cfg)),
    ensures
        vars.contains_key("NCAP_DEVSHELL"@) && cfg.devshell@ == vars["NCAP_DEVSHELL"@],
        vars.contains_key("NCAP_CONTAINER"@) && cfg.container@ == vars["NCAP_CONTAINER"@],
        vars.contains_key("NCAP_IMAGE"@) && cfg.image@ == vars["NCAP_IMAGE"@],
        vars.contains_key("NCAP_RUNTIME"@) && cfg.runtime.bin@ == vars["NCAP_RUNTIME"@],
        vars.contains_key("NCAP_RUN_OPTS"@) && opts == Ok::<Seq<Seq<char>>, Seq<char>>(
            views(cfg.run_opts@),
        ),
        vars.contains_key("NCAP_SERVER"@) && cfg.server_bin@ == vars["NCAP_SERVER"@],
        vars.contains_key("NCAP_NIX"@) && cfg.nix.bin@ == vars["NCAP_NIX"@],
        vars.contains_key("NCAP_BASH"@) && cfg.bash_bin@ == vars["NCAP_BASH"@],
        vars.contains_key("NCAP_TIMEOUT"@) && number::number_value(vars["NCAP_TIMEOUT"@]) == Ok::<
            nat,
            NumberError,
        >(cfg.timeout as nat),
        vars.contains_key("PROJECT_ROOT"@) && cfg.project_root@ == vars["PROJECT_ROOT"@],
        cfg.socket@ == socket,
        Some(cfg.socket_dir@) == parent_spec(socket),
        cfg.log_dir@ == log_dir,
{
    reveal_with_fuel(first_unset, 5);
    let early = early_names();
    assert(early.drop_first() =~= seq!["NCAP_IMAGE"@, "NCAP_RUNTIME"@, "NCAP_RUN_OPTS"@]);
    assert(early.drop_first().drop_first() =~= seq!["NCAP_RUNTIME"@, "NCAP_RUN_OPTS"@]);
    assert(early.drop_first().drop_first().drop_first() =~= seq!["NCAP_RUN_OPTS"@]);
    let late = late_names();
    assert(late.drop_first() =~= seq!["NCAP_NIX"@, "NCAP_BASH"@, "NCAP_TIMEOUT"@]);
    assert(late.drop_first().drop_first() =~= seq!["NCAP_BASH"@, "NCAP_TIMEOUT"@]);
    assert(late.drop_first().drop_first().drop_first() =~= seq!["NCAP_TIMEOUT"@]);
}

/// Settings fail for a reason that holds, and never where all is set and
/// well formed: a variable that is reported is not set to text, a socket
/// that is reported has no directory, a list or number that is reported does
/// not read.
pub proof fn law_settings_faults_are_true(
    socket: Seq<char>,
    log_dir: Seq<char>,
    vars: Map<Seq<char>, Seq<char>>,
    garbled: Map<Seq<char>, Seq<char>>,
    opts: Result<Seq<Seq<char>>, Seq<char>>,
    err: SettingsError,
)
    requires
        settled(socket, log_dir, vars, garbled, opts, Err(err)),
    ensures
        match err {
            SettingsError::NotSet { name } => !vars.contains_key(name@) && !garbled.contains_key(
                name@,
            ),
            SettingsError::NotText { name, value } => !vars.contains_key(name@)
                && garbled.contains_key(name@) && value@ == garbled[name@],
            SettingsError::NoSocketDir { socket: s } => s@ == socket && parent_spec(socket) is None,
            SettingsError::RunOpts { source } => opts == Err::<Seq<Seq<char>>, Seq<char>>(source@),
            SettingsError::Timeout { source } => number::number_value(vars["NCAP_TIMEOUT"@])
                == Err::<nat, NumberError>(source),
        },
{
    lemma_first_unset_is_unset(vars, early_names());
    lemma_first_unset_is_unset(vars, late_names());
}

proof fn lemma_first_unset_is_unset(vars: Map<Seq<char>, Seq<char>>, names: Seq<Seq<char>>)
    ensures
        first_unset(vars, names) matches Some(name) ==> !vars.contains_key(name),
    decreases names.len(),
{
    if names.len() > 0 {
        lemma_first_unset_is_unset(vars, names.drop_first());
    }
}

/// A failure of the settings is told with its reason: the message first, then
/// the cause where there is one.
pub proof fn law_settings_failures_are_told(name: String, value: String, socket: String)
    ensures
        (SettingsError::NotSet { name }).chain() == seq![
            "env var not set: `"@ + name@ + "`"@,
            "environment variable not found"@,
        ],
        (SettingsError::NotText { name, value }).chain() == seq![
            "env var not set: `"@ + name@ + "`"@,
            "environment variable was not valid unicode: "@ + value@,
        ],
        (SettingsError::NoSocketDir { socket }).chain() == seq![
            "socket path has no parent directory `"@ + socket@ + "`"@,
        ],
        (SettingsError::RunOpts { source: value }).chain() == seq![
            "failed to parse `NCAP_RUN_OPTS` as json"@,
            value@,
        ],
{
}

/// The arguments for any root: the cache is that below the root, and `.git`
/// is put behind the root as it is written.
pub proof fn law_default_arguments_for_any_root(
    container: Seq<char>,
    socket_dir: Seq<char>,
    root: Seq<char>,
    git_is_dir: bool,
)
    ensures
        ({
            let all = default_args(container, socket_dir, root, git_is_dir);
            let cache = cache_root_spec(root);
            let git = root + "/.git"@;
            &&& all.take(11) == default_args(container, socket_dir, root, !git_is_dir).take(11)
            &&& all[2] == container && all[6] == socket_dir + ":"@ + socket_dir
            &&& all[8] == root + ":"@ + root && all[10] == root
            &&& all[12] == cache + ":"@ + cache + ":ro"@
            &&& git_is_dir ==> all.len() == 15 && all[13] == "-v"@ && all[14] == git + ":"@ + git
                + ":ro"@
            &&& !git_is_dir ==> all.len() == 13
        }),
{
    reveal_strlit("");
    let all = default_args(container, socket_dir, root, git_is_dir);
    let other = default_args(container, socket_dir, root, !git_is_dir);
    assert(all.take(11) =~= other.take(11));
    assert(mount(socket_dir, ""@) =~= socket_dir + ":"@ + socket_dir);
    assert(mount(root, ""@) =~= root + ":"@ + root);
}

/// The settings are read in a fixed order, and the first that is missing or
/// wrong is the one that is reported, whatever the later ones are.
pub proof fn law_first_settings_fault_is_reported(
    socket: Seq<char>,
    log_dir: Seq<char>,
    vars: Map<Seq<char>, Seq<char>>,
    garbled: Map<Seq<char>, Seq<char>>,
    opts: Result<Seq<Seq<char>>, Seq<char>>,
    r: Result<Config, SettingsError>,
)
    requires
        settled(socket, log_dir, vars, garbled, opts, r),
    ensures
        ({
            let a = vars.contains_key("NCAP_DEVSHELL"@);
            let b = a && parent_spec(socket) is Some;
            let c = b && vars.contains_key("NCAP_CONTAINER"@);
            let d = c && vars.contains_key("NCAP_IMAGE"@);
            let e = d && vars.contains_key("NCAP_RUNTIME"@);
            let f = e && vars.contains_key("NCAP_RUN_OPTS"@);
            let g = f && opts is Ok;
            let h = g && vars.contains_key("NCAP_SERVER"@);
            let i = h && vars.contains_key("NCAP_NIX"@);
            let j = i && vars.contains_key("NCAP_BASH"@);
            let k = j && vars.contains_key("NCAP_TIMEOUT"@);
            let l = k && number::number_value(vars["NCAP_TIMEOUT"@]) is Ok;
            &&& !a ==> r is Err && is_missing(r->Err_0, "NCAP_DEVSHELL"@, garbled)
            &&& a && !b ==> (r matches Err(SettingsError::NoSocketDir { socket: s }) && s@
                == socket)
            &&& b && !c ==> r is Err && is_missing(r->Err_0, "NCAP_CONTAINER"@, garbled)
            &&& c && !d ==> r is Err && is_missing(r->Err_0, "NCAP_IMAGE"@, garbled)
            &&& d && !e ==> r is Err && is_missing(r->Err_0, "NCAP_RUNTIME"@, garbled)
            &&& e && !f ==> r is Err && is_missing(r->Err_0, "NCAP_RUN_OPTS"@, garbled)
            &&& f && !g ==> (r matches Err(SettingsError::RunOpts { source }) && source@
                == opts->Err_0)
            &&& g && !h ==> r is Err && is_missing(r->Err_0, "NCAP_SERVER"@, garbled)
            &&& h && !i ==> r is Err && is_missing(r->Err_0, "NCAP_NIX"@, garbled)
            &&& i && !j ==> r is Err && is_missing(r->Err_0, "NCAP_BASH"@, garbled)
            &&& j && !k ==> r is Err && is_missing(r->Err_0, "NCAP_TIMEOUT"@, garbled)
            &&& k && !l ==> (r matches Err(SettingsError::Timeout { source }) && Err::<
                nat,
                NumberError,
            >(source) == number::number_value(vars["NCAP_TIMEOUT"@]))
            &&& l && !vars.contains_key("PROJECT_ROOT"@) ==> r is Err && is_missing(
                r->Err_0,
                "PROJECT_ROOT"@,
                garbled,
            )
            &&& l && vars.contains_key("PROJECT_ROOT"@) ==> r is Ok
        }),
{
    reveal_with_fuel(first_unset, 5);
    let early = early_names();
    assert(early.drop_first() =~= seq!["NCAP_IMAGE"@, "NCAP_RUNTIME"@, "NCAP_RUN_OPTS"@]);
    assert(early.drop_first().drop_first() =~= seq!["NCAP_RUNTIME"@, "NCAP_RUN_OPTS"@]);
    assert(early.drop_first().drop_first().drop_first() =~= seq!["NCAP_RUN_OPTS"@]);
    let late = late_names();
    assert(late.drop_first() =~= seq!["NCAP_NIX"@, "NCAP_BASH"@, "NCAP_TIMEOUT"@]);
    assert(late.drop_first().drop_first() =~= seq!["NCAP_BASH"@, "NCAP_TIMEOUT"@]);
    assert(late.drop_first().drop_first().drop_first() =~= seq!["NCAP_TIMEOUT"@]);
}

/// A variable that cannot be had is reported under its own name: as one that
/// is not set, or with the value that is no text.
pub proof fn law_missing_variable_is_reported_by_name(
    name: Seq<char>,
    garbled: Map<Seq<char>, Seq<char>>,
    err: SettingsError,
)
    requires
        is_missing(err, name, garbled),
    ensures
        garbled.contains_key(name) ==> (err matches SettingsError::NotText { name: n, value } && n@
            == name && value@ == garbled[name]),
        !garbled.contains_key(name) ==> (err matches SettingsError::NotSet { name: n } && n@
            == name),
{
}

/// The run options are what their JSON array holds.
pub proof fn law_run_options_are_their_array(vars: Map<Seq<char>, Seq<char>>)
    ensures
        vars.contains_key("NCAP_RUN_OPTS"@) ==> read_opts(vars) == json::string_array(
            vars["NCAP_RUN_OPTS"@],
        ),
{
}

} // verus!
