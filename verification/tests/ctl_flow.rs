//! The control commands, run against a world held in memory: a container
//! runtime, nix, a file system and a clock.

use std::collections::{BTreeMap, BTreeSet};

use nix_capsule::ctl::clean::{CleanAction, CleanEvent, CleanRun};
use nix_capsule::ctl::config::{
    resolve, setup_env, watch_paths, Cmd, Config, FileKind, FileTable,
};
use nix_capsule::ctl::digest::{check, compute, Contents, Freshness};
use nix_capsule::ctl::error::{fail, CtlError};
use nix_capsule::ctl::flow::{Action, Event, Flow};
use nix_capsule::ctl::nix::Evaluation;
use nix_capsule::ctl::runtime::CommandOutput;
use nix_capsule::environment::Environment;

const ROOT: &str = "/t/proj";
const CACHE: &str = "/t/cache";
const LOGS: &str = "/t/logs";
const SOCK: &str = "/t/sock/ncap.sock";

#[derive(Clone, Copy, PartialEq)]
enum Seed {
    Fresh,
    Stale,
    Missing,
}

struct World {
    env: BTreeMap<String, String>,
    files: BTreeMap<String, Vec<u8>>,
    dirs: BTreeSet<String>,
    running: bool,
    connectable: bool,
    /// The first `run` fails because the name is taken.
    run_fails_once: bool,
    /// The container counts as running only from the second `run` on.
    peer_dead: bool,
    /// `run` never makes the container run.
    never_runs: bool,
    state_json: String,
    runs: usize,
    evals: usize,
    probes: usize,
    commands: Vec<String>,
    launches: Vec<Vec<String>>,
    eval_fails: bool,
    now: u64,
    deadline: u64,
}

struct Outcome {
    ok: bool,
    stdout: String,
    stderr: String,
}

fn base_env() -> BTreeMap<String, String> {
    let mut env = BTreeMap::new();
    for (key, value) in [
        ("NCAP_PROJECT_ROOT", ROOT),
        ("NCAP_CACHE_DIR", CACHE),
        ("NCAP_LOG_DIR", LOGS),
        ("NCAP_SOCKET", SOCK),
        ("NCAP_CONTAINER", "ncap-test"),
        ("NCAP_PROJECT", "test"),
        ("NCAP_IMAGE", "alpine:latest"),
        ("NCAP_SERVER", "/nix/store/fake/bin/ncap-server"),
        ("NCAP_NIX", "/t/fake-nix"),
        ("NCAP_BASH", "/nix/store/fake/bin/bash"),
        ("NCAP_DEVSHELL", ".#container"),
        ("NCAP_RUNTIME", "podman"),
        ("NCAP_TIMEOUT", "2"),
        ("NCAP_WATCH_FILES", "[]"),
        ("NCAP_RUN_OPTS", "[]"),
        ("NCAP_HARDEN", "false"),
        ("NCAP_LOG_LEVEL", "warning"),
    ] {
        env.insert(key.to_owned(), value.to_owned());
    }
    env
}

fn path_join(dir: &str, name: &str) -> String {
    format!("{dir}/{name}")
}

impl World {
    /// `down`: not running, with a socket that takes connections.
    fn new(seed: Seed, running: bool, watch: &[&str]) -> World {
        let mut world = World {
            env: base_env(),
            files: BTreeMap::new(),
            dirs: BTreeSet::new(),
            running,
            connectable: true,
            run_fails_once: false,
            peer_dead: false,
            never_runs: false,
            state_json: "{\"Running\":false,\"Status\":\"exited\"}".to_owned(),
            runs: 0,
            evals: 0,
            probes: 0,
            commands: Vec::new(),
            launches: Vec::new(),
            eval_fails: false,
            now: 0,
            deadline: 0,
        };
        world.put("/t/proj/flake.nix", "x");
        let list: Vec<String> = watch.iter().map(|w| format!("\"{w}\"")).collect();
        world.set("NCAP_WATCH_FILES", &format!("[{}]", list.join(", ")));
        let entries: Vec<String> = watch.iter().map(|w| w.to_string()).collect();
        match seed {
            Seed::Fresh => {
                let digest = world.digest_of(ROOT, &entries);
                world.put("/t/cache/env", "export FOO=bar\n");
                world.put("/t/cache/hash", &digest);
                world.put("/t/cache/project", ROOT);
            }
            Seed::Stale => {
                world.put("/t/cache/env", "export OLD=1\n");
                world.put("/t/cache/hash", "0000000000000000");
                world.put("/t/cache/project", ROOT);
            }
            Seed::Missing => {}
        }
        world
    }

    fn down() -> World {
        World::new(Seed::Missing, false, &[])
    }

    fn fresh_live() -> World {
        World::new(Seed::Fresh, true, &["flake.nix"])
    }

    fn fresh_empty() -> World {
        World::new(Seed::Fresh, false, &[])
    }

    fn set(&mut self, key: &str, value: &str) {
        self.env.insert(key.to_owned(), value.to_owned());
    }

    fn with(mut self, key: &str, value: &str) -> World {
        self.set(key, value);
        self
    }

    fn without(mut self, key: &str) -> World {
        self.env.remove(key);
        self
    }

    fn put(&mut self, path: &str, text: &str) {
        let mut dir = path.to_owned();
        while let Some(at) = dir.rfind('/') {
            dir.truncate(at);
            if dir.is_empty() {
                break;
            }
            self.dirs.insert(dir.clone());
        }
        self.files.insert(path.to_owned(), text.as_bytes().to_vec());
    }

    fn text(&self, path: &str) -> Option<String> {
        self.files.get(path).map(|bytes| String::from_utf8(bytes.clone()).unwrap())
    }

    fn has(&self, path: &str) -> bool {
        self.files.contains_key(path)
    }

    fn is_dir(&self, path: &str) -> bool {
        self.dirs.contains(path)
    }

    fn names_in(&self, dir: &str) -> Vec<String> {
        let front = format!("{dir}/");
        let mut out = Vec::new();
        for path in self.files.keys().chain(self.dirs.iter()) {
            if let Some(name) = path.strip_prefix(&front) {
                if !name.contains('/') {
                    out.push(name.to_owned());
                }
            }
        }
        out
    }

    fn environment(&self) -> Environment {
        Environment::new(self.env.iter().map(|(k, v)| (k.clone(), v.clone())).collect())
    }

    fn kinds(&self, paths: &[String]) -> FileTable {
        let entries = paths
            .iter()
            .map(|path| {
                let kind = if self.has(path) {
                    FileKind::File
                } else if self.is_dir(path) {
                    FileKind::Other
                } else {
                    FileKind::Absent
                };
                (path.clone(), kind)
            })
            .collect();
        FileTable { entries }
    }

    fn digest_of(&self, root: &str, entries: &[String]) -> String {
        let files = entries
            .iter()
            .map(|entry| (entry.clone(), self.files.get(&path_join(root, entry)).cloned()))
            .collect();
        compute(&entries.to_vec(), &Contents { files })
    }

    fn freshness(&self, cfg: &Config) -> Freshness {
        let digest = self.digest_of(&cfg.root, &cfg.watch_files);
        let cached = self.text(&path_join(&cfg.cache_dir, "hash"));
        check(
            self.has(&path_join(&cfg.cache_dir, "env")),
            cached.as_deref(),
            Some(digest.as_str()),
        )
    }

    fn says_running(&mut self) -> bool {
        self.commands.push("inspect running".to_owned());
        if self.peer_dead && self.runs >= 2 {
            true
        } else {
            self.running
        }
    }

    fn output(success: bool, stdout: &str, stderr: &str) -> Result<CommandOutput, String> {
        Ok(CommandOutput { success, stdout: stdout.to_owned(), stderr: stderr.to_owned() })
    }

    fn launch(&mut self, args: Vec<String>) -> Result<CommandOutput, String> {
        self.runs += 1;
        self.commands.push("run".to_owned());
        self.launches.push(args);
        if self.run_fails_once && self.runs == 1 {
            return World::output(
                false,
                "",
                "Error: container name \"ncap-test\" is already in use - name in use\n",
            );
        }
        if !self.never_runs {
            self.running = true;
        }
        World::output(true, "fake-id\n", "")
    }

    fn stop(&mut self) -> Result<CommandOutput, String> {
        self.commands.push("stop".to_owned());
        self.running = false;
        World::output(true, "stopped\n", "")
    }

    fn remove(&mut self) -> Result<CommandOutput, String> {
        self.commands.push("rm".to_owned());
        World::output(true, "", "")
    }

    fn config(&self) -> Result<Config, Outcome> {
        let env = self.environment();
        let files = self.kinds(&watch_paths(&env));
        resolve(&env, &files).map_err(|err| Outcome {
            ok: false,
            stdout: String::new(),
            stderr: fail(&CtlError::Config(err)),
        })
    }

    fn run(&mut self, cmd: Cmd) -> Outcome {
        let cfg = match self.config() {
            Ok(cfg) => cfg,
            Err(outcome) => return outcome,
        };
        let again = self.config().ok().unwrap();
        let (mut flow, mut action) = Flow::begin(cmd, cfg, self.environment());
        let mut stdout = String::new();
        for _ in 0..10_000 {
            let event = match action {
                Action::Finish(result) => {
                    return match result {
                        Ok(()) => Outcome { ok: true, stdout, stderr: String::new() },
                        Err(err) => Outcome { ok: false, stdout, stderr: fail(&err) },
                    }
                }
                Action::ReadStamp(path) => Event::Stamp(self.text(&path)),
                Action::CreateDir(dir) => {
                    self.dirs.insert(dir);
                    Event::Done
                }
                Action::EnsureDir(dir) => {
                    self.dirs.insert(dir);
                    Event::Done
                }
                Action::WriteStamp { path, text } => {
                    self.put(&path, &text);
                    Event::Done
                }
                Action::AskRunning => Event::Answer(self.says_running()),
                Action::AskExists => {
                    self.commands.push("inspect".to_owned());
                    Event::Answer(true)
                }
                Action::AskConnect => Event::Answer(self.connectable),
                Action::AskFile(path) => Event::Answer(self.has(&path)),
                Action::AskFresh => Event::Fresh(self.freshness(&again)),
                Action::Evaluate(args) => {
                    assert_eq!(
                        args,
                        vec!["print-dev-env", "--profile", "/t/cache/profile", ".#container"]
                    );
                    self.evals += 1;
                    self.put("/t/cache/profile", "");
                    if self.eval_fails {
                        Event::Evaluated(Ok(Evaluation { success: false, stdout: b"x".to_vec() }))
                    } else {
                        let stdout = b"export FOO=bar\n".to_vec();
                        Event::Evaluated(Ok(Evaluation { success: true, stdout }))
                    }
                }
                Action::WriteDump { path, bytes } => {
                    self.put(&path, &String::from_utf8(bytes).unwrap());
                    Event::Done
                }
                Action::WipeHistory(args) => {
                    assert_eq!(args[1], "wipe-history");
                    Event::Done
                }
                Action::ComputeDigest => {
                    Event::Digest(self.digest_of(&again.root, &again.watch_files))
                }
                Action::WriteDigest { path, text } => {
                    self.put(&path, &text);
                    Event::Done
                }
                Action::Survey { git, watched } => {
                    let paths: Vec<String> =
                        again.watch_files.iter().map(|f| path_join(&again.root, f)).collect();
                    assert_eq!(git, path_join(&again.root, ".git"));
                    assert_eq!(watched, paths);
                    Event::Surveyed {
                        git_is_dir: self.is_dir(&git),
                        files: self.kinds(&watched),
                    }
                }
                Action::Launch(args) => Event::Ran(self.launch(args)),
                Action::StopContainer => Event::Ran(self.stop()),
                Action::RemoveContainer => Event::Ran(self.remove()),
                Action::InspectState => Event::Ran(World::output(true, &self.state_json, "")),
                Action::StartClock(secs) => {
                    self.deadline = self.now + secs * 10;
                    Event::Done
                }
                Action::AskDeadline => Event::Answer(self.now >= self.deadline),
                Action::Sleep => {
                    self.now += 1;
                    Event::Done
                }
                Action::ProbeVersion => {
                    self.probes += 1;
                    Event::Done
                }
                Action::Print(lines) => {
                    for line in lines {
                        stdout.push_str(&line);
                        stdout.push('\n');
                    }
                    Event::Done
                }
                Action::Shell(args) => {
                    self.commands.push(args.join(" "));
                    Event::Exited(Ok(true))
                }
                Action::ListDir(dir) => Event::Listed(self.names_in(&dir)),
                Action::Page(program, args) => {
                    self.commands.push(format!("{program} {}", args.join(" ")));
                    Event::Exited(Ok(true))
                }
            };
            action = flow.step(event);
        }
        panic!("the command never ends");
    }

    fn removed(&mut self, path: &str) -> CleanEvent {
        if self.files.remove(path).is_some() {
            CleanEvent::Removed
        } else {
            CleanEvent::NotFound("no such file".to_owned())
        }
    }

    fn clean(&mut self) -> Outcome {
        let cfg = match self.config() {
            Ok(cfg) => cfg,
            Err(outcome) => return outcome,
        };
        let (mut run, mut action) = CleanRun::begin(&cfg);
        for _ in 0..1000 {
            let event = match action {
                CleanAction::Finish(result) => {
                    return match result {
                        Ok(()) => {
                            Outcome { ok: true, stdout: String::new(), stderr: String::new() }
                        }
                        Err(err) => {
                            Outcome { ok: false, stdout: String::new(), stderr: fail(&err) }
                        }
                    }
                }
                CleanAction::AskRunning => CleanEvent::Answer(self.says_running()),
                CleanAction::StopContainer => {
                    let _ = self.stop();
                    CleanEvent::Done
                }
                CleanAction::RemoveContainer => {
                    let _ = self.remove();
                    CleanEvent::Done
                }
                CleanAction::RemoveFile(path) => self.removed(&path),
                CleanAction::RemoveTree(path) => {
                    let front = format!("{path}/");
                    self.files.retain(|file, _| !file.starts_with(&front));
                    self.dirs.remove(&path);
                    CleanEvent::Removed
                }
                CleanAction::AskDir(path) => CleanEvent::Answer(self.is_dir(&path)),
                CleanAction::ListDir(dir) => {
                    if self.is_dir(&dir) {
                        CleanEvent::Listed { names: self.names_in(&dir), broken: None }
                    } else {
                        CleanEvent::NotFound("no such directory".to_owned())
                    }
                }
                CleanAction::RemoveDir(dir) => {
                    if self.names_in(&dir).is_empty() {
                        self.dirs.remove(&dir);
                    }
                    CleanEvent::Done
                }
            };
            action = run.step(event);
        }
        panic!("the cleaning never ends");
    }

    fn setup(&self) -> Outcome {
        match setup_env(&self.environment(), self.env.get("TMPDIR").map(String::as_str)) {
            Ok(stdout) => Outcome { ok: true, stdout, stderr: String::new() },
            Err(err) => Outcome {
                ok: false,
                stdout: String::new(),
                stderr: fail(&CtlError::Config(err)),
            },
        }
    }

    fn saw(&self, command: &str) -> bool {
        self.commands.iter().any(|c| c == command)
    }

    fn launched(&self) -> &Vec<String> {
        &self.launches[0]
    }

    fn has_arg(&self, arg: &str) -> bool {
        self.launched().iter().any(|a| a == arg)
    }

    fn mount_at(&self, mount: &str) -> Option<usize> {
        self.launched().windows(2).position(|w| w[0] == "-v" && w[1] == mount)
    }

    fn script(&self) -> String {
        let args = self.launched();
        let at = args.iter().position(|a| a == "-c").unwrap();
        args[at + 1].clone()
    }
}

// ---------------------------------------------------------------------------
// Refusals
// ---------------------------------------------------------------------------

#[test]
fn init_refuses_when_a_demanded_var_is_missing() {
    for var in [
        "NCAP_PROJECT_ROOT",
        "NCAP_PROJECT",
        "NCAP_CONTAINER",
        "NCAP_SOCKET",
        "NCAP_CACHE_DIR",
        "NCAP_LOG_DIR",
        "NCAP_IMAGE",
        "NCAP_SERVER",
        "NCAP_NIX",
        "NCAP_BASH",
        "NCAP_DEVSHELL",
        "NCAP_RUNTIME",
        "NCAP_TIMEOUT",
        "NCAP_WATCH_FILES",
        "NCAP_RUN_OPTS",
        "NCAP_HARDEN",
        "NCAP_LOG_LEVEL",
    ] {
        let out = World::down().without(var).run(Cmd::Init);
        assert!(!out.ok, "init without {var} must fail");
        assert!(out.stderr.contains(var), "init without {var} must name it: {}", out.stderr);
        assert_eq!(out.stderr, format!("required `{var}` is not set"));
    }
}

#[test]
fn commands_refuse_watch_files_that_are_not_relative_files() {
    for entry in ["/abs/nix", "../escape", "adir"] {
        let mut world = World::down();
        world.dirs.insert("/t/proj/adir".to_owned());
        let mut world = world.with("NCAP_WATCH_FILES", &format!("[\"{entry}\"]"));
        let out = world.run(Cmd::Status);
        assert!(!out.ok, "watch entry `{entry}` must fail the command");
        assert!(
            out.stderr.contains("NCAP_WATCH_FILES") && out.stderr.contains(entry),
            "error must name the var and the entry `{entry}`: stderr={}",
            out.stderr
        );
    }
}

#[test]
fn start_demands_full_env_including_nix_devshell_and_image() {
    let out = World::fresh_empty().without("NCAP_NIX").without("NCAP_DEVSHELL").run(Cmd::Start);
    assert!(!out.ok, "start without nix/devshell must fail");
    assert!(
        out.stderr.contains("NCAP_NIX") || out.stderr.contains("NCAP_DEVSHELL"),
        "start must demand NCAP_NIX/NCAP_DEVSHELL: stderr={}",
        out.stderr
    );
    let out = World::fresh_empty().without("NCAP_IMAGE").run(Cmd::Start);
    assert!(!out.ok);
    assert!(out.stderr.contains("NCAP_IMAGE"), "stderr={}", out.stderr);
}

#[test]
fn stop_refuses_without_container_or_derivation() {
    let bare = || {
        World::down()
            .without("NCAP_PROJECT_ROOT")
            .without("NCAP_PROJECT")
            .without("NCAP_CONTAINER")
            .without("NCAP_SOCKET")
            .without("NCAP_CACHE_DIR")
            .without("NCAP_LOG_DIR")
            .without("NCAP_IMAGE")
            .without("NCAP_SERVER")
            .without("NCAP_NIX")
            .without("NCAP_BASH")
            .without("NCAP_DEVSHELL")
    };
    let out = bare().run(Cmd::Stop);
    assert!(!out.ok);
    assert!(out.stderr.contains("NCAP_PROJECT_ROOT"), "stderr={}", out.stderr);

    let out = bare().with("NCAP_CONTAINER", "ncap-foo").run(Cmd::Stop);
    assert!(!out.ok, "minimal stop must fail under uniform resolve");
    assert!(out.stderr.contains("NCAP_PROJECT_ROOT"), "stderr={}", out.stderr);
}

#[test]
fn derived_project_name_is_used_and_empty_is_a_hard_error() {
    let mut world = World::down()
        .with("NCAP_PROJECT_ROOT", "/t/my-proj")
        .without("NCAP_CONTAINER")
        .without("NCAP_PROJECT");
    let out = world.setup();
    assert!(out.ok, "stderr={}", out.stderr);
    assert!(out.stdout.contains("export NCAP_PROJECT='my-proj'"), "stdout={}", out.stdout);
    assert!(out.stdout.contains("export NCAP_CONTAINER='ncap-my-proj'"), "stdout={}", out.stdout);

    let out = world.run(Cmd::Init);
    assert!(!out.ok);
    assert!(out.stderr.contains("NCAP_PROJECT"), "stderr={}", out.stderr);

    let out = World::down()
        .with("NCAP_PROJECT_ROOT", "/t/###")
        .with("NCAP_CACHE_DIR", "/t/cache2")
        .without("NCAP_CONTAINER")
        .without("NCAP_PROJECT")
        .setup();
    assert!(!out.ok);
    assert!(out.stderr.contains("set `project`"), "stderr={}", out.stderr);
}

#[test]
fn stamp_guard_same_root_passes_absent_written_different_is_error() {
    let mut world = World::down().with("NCAP_PROJECT_ROOT", "/t/root-a");
    let out = world.run(Cmd::Init);
    assert!(out.ok, "stderr={}", out.stderr);
    assert_eq!(world.text("/t/cache/project").unwrap(), "/t/root-a");

    world.running = true;
    let out = world.run(Cmd::Init);
    assert!(out.ok, "stderr={}", out.stderr);

    world.set("NCAP_PROJECT_ROOT", "/t/root-b");
    let out = world.run(Cmd::Init);
    assert!(!out.ok);
    assert!(out.stderr.contains("set `project`"), "stderr={}", out.stderr);
    assert!(out.stderr.contains("/t/root-a"), "stderr={}", out.stderr);
}

// ---------------------------------------------------------------------------
// Init and start
// ---------------------------------------------------------------------------

#[test]
fn init_fresh_and_running_performs_zero_evals() {
    let mut world = World::fresh_live();
    let out = world.run(Cmd::Init);
    assert!(out.ok, "stderr={}", out.stderr);
    assert_eq!(world.evals, 0, "fresh+running must not eval");
    assert_eq!(world.runs, 0, "fresh+running must not start");
}

#[test]
fn init_running_but_stale_triggers_reeval_and_restart() {
    let mut world = World::new(Seed::Stale, true, &["flake.nix"]);
    let out = world.run(Cmd::Init);
    assert!(out.ok, "stderr={}", out.stderr);
    assert!(world.evals >= 1, "stale must re-eval");
    assert!(world.saw("stop"), "stale must stop before restarting");
    assert!(world.runs >= 1, "stale must start after re-eval");
    assert_eq!(world.probes, 0, "init never probes");
}

#[test]
fn init_down_triggers_ensure_cache_and_start() {
    let mut world = World::down();
    let out = world.run(Cmd::Init);
    assert!(out.ok, "stderr={}", out.stderr);
    assert!(world.evals >= 1, "down+missing must eval");
    assert!(world.runs >= 1, "down must start");
    assert!(world.has("/t/cache/env"), "env must be cached");
    assert_eq!(world.text("/t/cache/hash").unwrap(), "ef46db3751d8e999");
}

#[test]
fn evaluation_fills_the_cache_and_then_reads_fresh() {
    let mut world = World::down();
    assert!(world.run(Cmd::Init).ok);
    assert_eq!(world.evals, 1);
    assert_eq!(world.text("/t/cache/env").unwrap(), "export FOO=bar\n");
    assert_eq!(world.text("/t/cache/hash").unwrap(), world.digest_of(ROOT, &[]));
    assert!(world.run(Cmd::Init).ok);
    assert_eq!(world.evals, 1, "a cache just filled is fresh");
}

#[test]
fn failed_evaluation_leaves_the_cache() {
    let mut world = World::down();
    world.eval_fails = true;
    let out = world.run(Cmd::Init);
    assert!(!out.ok);
    assert_eq!(out.stderr, "cannot eval `.#container` with `nix print-dev-env`");
    assert_eq!(world.evals, 1);
    assert!(!world.has("/t/cache/env") && !world.has("/t/cache/hash"));
}

#[test]
fn running_without_socket_is_not_live() {
    let mut world = World::new(Seed::Fresh, true, &[]);
    world.connectable = false;
    let out = world.run(Cmd::Init);
    assert!(!out.ok, "Running without a connectable socket must not count as live");
    assert!(out.stderr.contains("never became live"), "stderr={}", out.stderr);
    assert!(world.runs >= 1, "not-live init must attempt start");
    assert_eq!(world.evals, 0, "fresh+not-live init must not re-eval before start");

    let before = world.runs;
    let out = world.run(Cmd::Start);
    assert!(!out.ok);
    assert!(world.runs > before, "not-live start must attempt run");
}

#[test]
fn start_never_reaching_running_fails_with_state_and_log_tail() {
    let mut world = World::fresh_empty();
    world.never_runs = true;
    world.state_json = r#"{"Running":false,"Status":"exited","Error":"bad image"}"#.to_owned();
    world.put("/t/logs/ncap-server-100.log", "old log line\n");
    world.put("/t/logs/ncap-server-999.log", "line1\nline2\nEXPECTED_TAIL_MARKER\n");
    let out = world.run(Cmd::Start);
    assert!(!out.ok, "start should fail when never Running");
    assert!(
        out.stderr.contains("exited") || out.stderr.contains("Running"),
        "stderr must contain inspect state: {}",
        out.stderr
    );
    assert!(world.now >= 20, "the wait lasts as long as the timeout");
}

#[test]
fn concurrent_start_peer_running_is_success() {
    let mut world = World::fresh_live();
    world.run_fails_once = true;
    let out = world.run(Cmd::Start);
    assert!(out.ok, "peer running must be a success: stderr={}", out.stderr);
    assert!(!world.saw("rm"), "peer running must not rm");
}

#[test]
fn concurrent_start_peer_dead_removes_and_retries_once() {
    let mut world = World::fresh_empty();
    world.run_fails_once = true;
    world.peer_dead = true;
    let out = world.run(Cmd::Start);
    assert!(out.ok, "peer dead must be removed and retried: stderr={}", out.stderr);
    assert!(world.saw("rm"), "must have removed dead container");
    assert_eq!(world.runs, 2);
}

#[test]
fn start_removes_stopped_container_before_launch() {
    let mut world = World::fresh_empty();
    let out = world.run(Cmd::Start);
    assert!(out.ok, "stderr={}", out.stderr);
    let rm = world.commands.iter().position(|c| c == "rm").expect("pre-launch rm");
    let run = world.commands.iter().position(|c| c == "run").expect("run");
    assert!(rm < run, "pre-launch rm must run before run");
    assert_eq!(world.runs, 1, "single launch after pre-launch rm");
    assert_eq!(world.probes, 1, "start probes the version once it is live");
}

#[test]
fn start_without_a_dump_fails_with_advice() {
    let mut world = World::down();
    let out = world.run(Cmd::Start);
    assert!(!out.ok);
    assert_eq!(
        out.stderr,
        "no cached dev environment in `/t/cache`\nrun `ncap-ctl init` to start this project's container"
    );
    assert_eq!(world.runs, 0);
}

// ---------------------------------------------------------------------------
// Stop, restart, clean, status, enter, log
// ---------------------------------------------------------------------------

#[test]
fn stop_is_idempotent() {
    let mut world = World::fresh_live();
    world.connectable = false;
    let out = world.run(Cmd::Stop);
    assert!(out.ok, "first stop: {}", out.stderr);
    let out = world.run(Cmd::Stop);
    assert!(out.ok, "second stop idempotent: {}", out.stderr);
    assert_eq!(world.commands.iter().filter(|c| *c == "stop").count(), 1);
}

#[test]
fn clean_removes_project_files_and_spares_foreign_entries() {
    let mut world = World::down();
    world.connectable = false;
    for (path, text) in [
        ("/t/cache/env", "export FOO=bar\n"),
        ("/t/cache/hash", "0"),
        ("/t/cache/profile", "profile"),
        ("/t/cache/project", ROOT),
        ("/t/cache/profile-1-link", "link"),
        ("/t/cache/unrelated.txt", "keep me"),
        ("/t/logs/ncap-server-1000.log", "old"),
        ("/t/logs/ncap-server-2000.log", "new"),
        ("/t/logs/not-a-server-log.txt", "keep me"),
        (SOCK, "socket"),
        ("/t/sock/sibling.txt", "keep me"),
    ] {
        world.put(path, text);
    }
    let out = world.clean();
    assert!(out.ok, "stderr={}", out.stderr);

    assert!(!world.has("/t/cache/env"), "env must be removed");
    assert!(!world.has("/t/cache/hash"), "hash must be removed");
    assert!(!world.has("/t/cache/profile"), "profile must be removed");
    assert!(!world.has("/t/cache/project"), "stamp must be removed");
    assert!(!world.has("/t/cache/profile-1-link"), "gen link must be removed");
    assert!(world.has("/t/cache/unrelated.txt"), "foreign cache file must survive");
    assert!(world.is_dir(CACHE), "non-empty cache dir must survive");

    assert!(!world.has("/t/logs/ncap-server-1000.log"), "server log 1 must be removed");
    assert!(!world.has("/t/logs/ncap-server-2000.log"), "server log 2 must be removed");
    assert!(world.has("/t/logs/not-a-server-log.txt"), "foreign log file must survive");
    assert!(world.is_dir(LOGS), "non-empty log dir must survive");

    assert!(!world.has(SOCK), "socket file must be removed");
    assert!(world.has("/t/sock/sibling.txt"), "socket-dir sibling must survive");
    assert!(world.is_dir("/t/sock"), "non-empty socket parent must survive");
}

#[test]
fn clean_removes_empty_dirs_and_missing_paths_are_fine() {
    let mut world = World::down();
    world.connectable = false;
    for (path, text) in [
        ("/t/cache/env", "export FOO=bar\n"),
        ("/t/cache/hash", "0"),
        ("/t/cache/profile", "profile"),
        ("/t/cache/project", ROOT),
        ("/t/logs/ncap-server-1000.log", "log"),
        (SOCK, "socket"),
    ] {
        world.put(path, text);
    }
    let out = world.clean();
    assert!(out.ok, "stderr={}", out.stderr);

    assert!(!world.is_dir(CACHE), "emptied cache dir should be removed");
    assert!(!world.is_dir(LOGS), "emptied log dir should be removed");
    assert!(!world.has(SOCK), "socket file must be removed");
    assert!(!world.is_dir("/t/sock"), "emptied socket parent should be removed");

    let out = world.clean();
    assert!(out.ok, "clean twice: {}", out.stderr);
}

#[test]
fn clean_stops_a_running_container_and_takes_a_linked_tree() {
    let mut world = World::fresh_live();
    world.put("/t/cache/profile-7-link/bin", "x");
    let out = world.clean();
    assert!(out.ok, "stderr={}", out.stderr);
    assert!(world.saw("stop"));
    assert!(world.saw("rm"));
    assert!(!world.is_dir("/t/cache/profile-7-link"));
}

#[test]
fn clean_reports_what_it_cannot_remove() {
    let world = World::down();
    let cfg = world.config().ok().unwrap();
    let (mut run, _) = CleanRun::begin(&cfg);
    run.step(CleanEvent::Answer(false));
    run.step(CleanEvent::Done);
    match run.step(CleanEvent::Failed("EPERM".to_owned())) {
        CleanAction::Finish(Err(err)) => {
            let text = fail(&err);
            assert!(text.contains("/t/cache/env") && text.contains("EPERM"), "text={text}");
        }
        _ => panic!("expected the failure"),
    }
}

#[test]
fn clean_with_a_broken_listing_removes_what_it_saw_and_then_fails() {
    let world = World::down();
    let cfg = world.config().ok().unwrap();
    let (mut run, _) = CleanRun::begin(&cfg);
    run.step(CleanEvent::Answer(false));
    run.step(CleanEvent::Done);
    for _ in 0..4 {
        run.step(CleanEvent::NotFound("no".to_owned()));
    }
    let action = run.step(CleanEvent::Listed {
        names: vec!["profile-1-link".to_owned()],
        broken: Some("EIO".to_owned()),
    });
    assert!(matches!(action, CleanAction::AskDir(path) if path == "/t/cache/profile-1-link"));
    let action = run.step(CleanEvent::Answer(false));
    assert!(matches!(action, CleanAction::RemoveFile(path) if path == "/t/cache/profile-1-link"));
    match run.step(CleanEvent::Removed) {
        CleanAction::Finish(Err(err)) => assert!(fail(&err).contains("EIO")),
        _ => panic!("expected the failure"),
    }
}

#[test]
fn restart_tolerates_a_stopped_container() {
    let mut world = World::down();
    let out = world.run(Cmd::Restart);
    assert!(out.ok, "restart on stopped: {}", out.stderr);
    assert!(world.runs >= 1, "restart must start");
}

#[test]
fn status_reports_all_three_dimensions() {
    let mut world = World::fresh_live();
    let out = world.run(Cmd::Status);
    assert!(out.ok);
    assert_eq!(
        out.stdout,
        "container: running (ncap-test)\nsocket: connectable (/t/sock/ncap.sock)\ncache: fresh\n"
    );

    world.put("/t/cache/hash", "0000000000000000");
    let out = world.run(Cmd::Status);
    assert!(out.stdout.contains("stale"), "stdout={}", out.stdout);

    world.files.remove("/t/cache/env");
    let out = world.run(Cmd::Status);
    assert!(out.stdout.contains("missing"), "stdout={}", out.stdout);

    world.running = false;
    world.connectable = false;
    let out = world.run(Cmd::Status);
    assert_eq!(
        out.stdout,
        "container: not running\nsocket: unreachable (/t/sock/ncap.sock)\ncache: missing\n"
    );
}

#[test]
fn runtime_selection_absolute_path_is_rejected() {
    let out = World::down().with("NCAP_RUNTIME", "/t/fake-runtime").run(Cmd::Stop);
    assert!(!out.ok);
    assert!(out.stderr.contains("NCAP_RUNTIME"), "stderr={}", out.stderr);
}

#[test]
fn missing_runtime_is_an_error_naming_it() {
    let out = World::down().without("NCAP_RUNTIME").run(Cmd::Stop);
    assert!(!out.ok);
    assert!(out.stderr.contains("NCAP_RUNTIME"), "stderr={}", out.stderr);
}

#[test]
fn invalid_runtime_is_rejected() {
    let out = World::down().with("NCAP_RUNTIME", "nerdctl").run(Cmd::Stop);
    assert!(!out.ok);
    assert!(out.stderr.contains("NCAP_RUNTIME"), "stderr={}", out.stderr);
}

#[test]
fn enter_needs_a_running_container() {
    let mut world = World::fresh_live();
    let out = world.run(Cmd::Enter);
    assert!(out.ok, "stderr={}", out.stderr);
    assert!(world.saw(
        "exec -it ncap-test /nix/store/fake/bin/bash -c source '/t/cache/env' && exec '/nix/store/fake/bin/bash'"
    ));
    let mut world = World::fresh_empty();
    let out = world.run(Cmd::Enter);
    assert_eq!(
        out.stderr,
        "container `ncap-test` is not running\nrun `ncap-ctl init` to start this project's container"
    );
}

#[test]
fn log_pages_the_newest_server_log() {
    let mut world = World::fresh_live().with("PAGER", "most -s");
    world.put("/t/logs/ncap-server-999.log", "");
    world.put("/t/logs/ncap-server-1000.log", "");
    let out = world.run(Cmd::Log);
    assert!(out.ok, "stderr={}", out.stderr);
    assert!(world.saw("most -s /t/logs/ncap-server-1000.log"), "commands={:?}", world.commands);
    let out = World::fresh_live().run(Cmd::Log);
    assert_eq!(out.stderr, "no `ncap-server-*.log` file in `/t/logs`");
}

// ---------------------------------------------------------------------------
// Launch command
// ---------------------------------------------------------------------------

#[test]
fn start_assembles_exact_default_mount_set_and_launch_command() {
    let mut world = World::fresh_empty();
    let out = world.run(Cmd::Start);
    assert!(out.ok, "stderr={}", out.stderr);
    let expected: Vec<String> = [
        "run",
        "-d",
        "--name",
        "ncap-test",
        "-v",
        "/nix:/nix:ro",
        "-v",
        "/t/sock:/t/sock",
        "-v",
        "/t/proj:/t/proj",
        "-w",
        "/t/proj",
        "-v",
        "/t/cache:/t/cache:ro",
        "-v",
        "/t/logs:/t/logs",
        "--",
        "alpine:latest",
        "/nix/store/fake/bin/bash",
        "-c",
        "source '/t/cache/env' && exec '/nix/store/fake/bin/ncap-server' --socket '/t/sock/ncap.sock' --log-dir '/t/logs' --timeout 2 --log-level warning",
    ]
    .iter()
    .map(|arg| arg.to_string())
    .collect();
    assert_eq!(world.launched(), &expected);
}

#[test]
fn git_mount_present_readonly_when_git_dir_exists() {
    let mut world = World::fresh_empty();
    world.dirs.insert("/t/proj/.git".to_owned());
    let out = world.run(Cmd::Start);
    assert!(out.ok, "stderr={}", out.stderr);
    assert!(world.mount_at("/t/proj/.git:/t/proj/.git:ro").is_some(), "missing .git ro mount");
}

#[test]
fn git_mount_absent_without_error_outside_git_repo() {
    let mut world = World::fresh_empty();
    let out = world.run(Cmd::Start);
    assert!(out.ok, "stderr={}", out.stderr);
    assert!(!world.launched().join(" ").contains(".git"), "unexpected .git mount outside repo");
}

#[test]
fn extra_options_expansion_unset_var_fails_naming_it_before_run() {
    let mut world =
        World::fresh_empty().with("NCAP_RUN_OPTS", r#"["-v $UNSET_NCAP_XYZ:/mnt"]"#);
    let out = world.run(Cmd::Start);
    assert!(!out.ok, "must fail on unset var");
    assert!(out.stderr.contains("UNSET_NCAP_XYZ"), "must name unset var: {}", out.stderr);
    assert_eq!(world.runs, 0, "must not have run the container before error");
}

#[test]
fn extra_options_expansion_sets_var_is_passed_and_no_word_splitting() {
    let mut world = World::fresh_empty()
        .with("TEST_EXPAND", "/tmp/foo bar")
        .with("NCAP_RUN_OPTS", r#"["-v $TEST_EXPAND:/mnt"]"#);
    let out = world.run(Cmd::Start);
    assert!(out.ok, "stderr={}", out.stderr);
    assert!(world.has_arg("-v /tmp/foo bar:/mnt"), "expanded arg must be present");
    assert!(!world.has_arg("/tmp/foo") && !world.has_arg("bar:/mnt"), "no split fragments");
    let nix = world.mount_at("/nix:/nix:ro").unwrap();
    let opt = world.launched().iter().position(|a| a == "-v /tmp/foo bar:/mnt").unwrap();
    assert!(nix < opt, "defaults must come before extra options");
}

#[test]
fn harden_adds_security_flags_and_ro_mounts_for_present_watch_files_skips_missing() {
    let mut world = World::fresh_live()
        .with("NCAP_HARDEN", "true")
        .with("NCAP_WATCH_FILES", r#"["flake.nix", "missing.nix"]"#);
    world.running = false;
    let out = world.run(Cmd::Start);
    assert!(out.ok, "stderr={}", out.stderr);
    assert!(world.has_arg("--cap-drop=all"), "missing --cap-drop");
    assert!(world.has_arg("--security-opt=no-new-privileges"), "missing --security-opt");
    let watch = world.mount_at("/t/proj/flake.nix:/t/proj/flake.nix:ro").expect("ro watch mount");
    assert!(
        world.mount_at("/t/proj/missing.nix:/t/proj/missing.nix:ro").is_none(),
        "missing entry must be skipped"
    );
    let root = world.mount_at("/t/proj:/t/proj").unwrap();
    assert!(root < watch, "watch mount after root");
}

#[test]
fn harden_off_emits_no_flags_nor_extra_mounts() {
    let mut world = World::fresh_live().with("NCAP_WATCH_FILES", r#"["flake.nix"]"#);
    world.running = false;
    let out = world.run(Cmd::Start);
    assert!(out.ok, "stderr={}", out.stderr);
    let line = world.launched().join(" ");
    assert!(!line.contains("--cap-drop"), "harden off must not emit cap-drop");
    assert!(!line.contains("no-new-privileges"), "harden off must not emit security-opt");
    assert!(
        world.mount_at("/t/proj/flake.nix:/t/proj/flake.nix:ro").is_none(),
        "harden off must not mount watch file"
    );
}

#[test]
fn hardening_changes_only_what_it_adds() {
    let launch = |harden: &str| {
        let mut world = World::fresh_live()
            .with("NCAP_HARDEN", harden)
            .with("NCAP_WATCH_FILES", r#"["flake.nix", "missing.nix"]"#)
            .with("NCAP_RUN_OPTS", r#"["--own"]"#);
        world.running = false;
        let out = world.run(Cmd::Start);
        assert!(out.ok, "stderr={}", out.stderr);
        world.launched().clone()
    };
    let mut expected = launch("false");
    let own = expected.iter().position(|arg| arg == "--own").unwrap();
    let mount = ["-v", "/t/proj/flake.nix:/t/proj/flake.nix:ro"];
    expected.splice(own..own, mount.iter().map(|arg| arg.to_string()));
    let nix = expected.iter().position(|arg| arg == "-v").unwrap();
    let flags = ["--cap-drop=all", "--security-opt=no-new-privileges"];
    expected.splice(nix..nix, flags.iter().map(|arg| arg.to_string()));
    assert_eq!(launch("true"), expected);
}

#[test]
fn extra_options_braced_expansion_and_literal_passthrough() {
    let mut world = World::fresh_empty().with("NCAP_TEST_BRACED", "braced-val").with(
        "NCAP_RUN_OPTS",
        r#"["--braced=${NCAP_TEST_BRACED}", "literal-no-expand", "-v $NCAP_TEST_BRACED:/mnt"]"#,
    );
    let out = world.run(Cmd::Start);
    assert!(out.ok, "stderr={}", out.stderr);
    assert!(world.has_arg("--braced=braced-val"), "braced expansion");
    assert!(world.has_arg("literal-no-expand"), "literal passthrough");
    assert!(world.has_arg("-v braced-val:/mnt"), "dollar expansion");
}

#[test]
fn off_vocabulary_log_level_is_rejected_naming_the_var_and_the_four_values() {
    for bad in ["verbose", "Warning", "warn", "debug "] {
        let out = World::fresh_empty().with("NCAP_LOG_LEVEL", bad).run(Cmd::Status);
        assert!(!out.ok, "log level `{bad}` must fail the command");
        assert!(out.stderr.contains("NCAP_LOG_LEVEL"), "stderr={}", out.stderr);
        for level in ["debug", "info", "warning", "error"] {
            assert!(out.stderr.contains(level), "error must spell out `{level}`: {}", out.stderr);
        }
    }
}

#[test]
fn each_accepted_log_level_survives_as_its_own_launch_argv() {
    for level in ["debug", "info", "warning", "error"] {
        let mut world = World::fresh_empty().with("NCAP_LOG_LEVEL", level);
        let out = world.run(Cmd::Start);
        assert!(out.ok, "level `{level}`: stderr={}", out.stderr);
        assert!(world.script().contains(&format!("--log-level {level}")), "level `{level}`");
    }
}

#[test]
fn full_env_start_flow_carries_the_log_level() {
    let mut world = World::fresh_empty().with("NCAP_LOG_LEVEL", "error");
    let out = world.run(Cmd::Start);
    assert!(out.ok, "stderr={}", out.stderr);
    assert!(world.script().contains("--log-level error"), "full env must carry the level");
}
