//! The devshell cache: its paths, direnv's word on it, and the commands.

use nix_capsule::devshell::config::{cache_signal, sanitize_name, Config};
use nix_capsule::devshell::expand::expand_env;
use nix_capsule::devshell::run::{Action, Cmd, Event, Run, Stage, Turn};
use nix_capsule::devshell::tools::{says_running, NixInvoker, Piped, Runtime};
use nix_capsule::direnv::{
    current_times, is_valid, load_state, save_state, script, show_dump_args, show_dump_failed,
    take_state, watch_list, Mtimes, WatchEntry,
};
use nix_capsule::environment::Environment;
use nix_capsule::path;

fn owned(items: &[&str]) -> Vec<String> {
    items.iter().map(|item| item.to_string()).collect()
}

fn env(pairs: &[(&str, &str)]) -> Environment {
    Environment::new(pairs.iter().map(|(k, v)| (k.to_string(), v.to_string())).collect())
}

// ------------------------------------------------------------------- paths

#[test]
fn cache_layout_hangs_below_the_root() {
    assert_eq!(path::cache_root("/p"), "/p/.ncap-cache");
    assert_eq!(path::devshell_dir("/p", "dev"), "/p/.ncap-cache/dev");
    assert_eq!(path::env_file("/p", "dev"), "/p/.ncap-cache/dev/env");
    assert_eq!(path::nix_profile("/p", "dev"), "/p/.ncap-cache/dev/profile");
    assert_eq!(path::direnv_mtimes_file("/p"), "/p/.ncap-cache/direnv-mtimes.json");
    assert_eq!(path::devshell_cache_dir("/p", "dev"), "/p/.ncap-cache/dev");
    assert_eq!(path::devshell_cache_dir("/p/", "dev"), "/p//.ncap-cache/dev");
    assert_eq!(path::cache_root("/p/"), "/p/.ncap-cache");
}

#[test]
fn cache_directory_has_one_place() {
    for root in ["/", "/p", "/p/", "p", "./p//"] {
        for name in ["dev", "a-b", ""] {
            let text = path::devshell_cache_dir(root, name);
            let dir = path::devshell_dir(root, name);
            if root.ends_with('/') {
                assert_eq!(text, format!("{root}/.ncap-cache/{name}"));
                assert_eq!(dir, format!("{root}.ncap-cache/{name}"));
            } else {
                assert_eq!(text, dir);
            }
            assert_eq!(std::path::Path::new(&text), std::path::Path::new(&dir));
        }
    }
    assert_eq!(path::devshell_cache_dir("", "dev"), "/.ncap-cache/dev");
    assert_eq!(path::devshell_dir("", "dev"), ".ncap-cache/dev");
    assert_eq!(path::devshell_cache_dir("/p", "/abs"), "/p/.ncap-cache//abs");
    assert_eq!(path::devshell_dir("/p", "/abs"), "/abs");
}

#[test]
fn log_names_read_back() {
    for secs in [0u64, 7, 1700000000, u64::MAX] {
        assert_eq!(path::parse_log_filename(&path::log_filename(secs)), Some(secs));
    }
    assert_eq!(path::log_filename(42), "ncap-server-42.log");
    assert_eq!(path::parse_log_filename("ncap-server-+5.log"), Some(5));
    for name in ["ncap-server-.log", "ncap-server-5", "x-5.log", "ncap-server-5x.log"] {
        assert_eq!(path::parse_log_filename(name), None, "name={name}");
    }
}

#[test]
fn latest_log_is_by_time_and_the_last_of_equals() {
    let names = owned(&["ncap-server-9.log", "ncap-server-10.log", "x", "ncap-server-+10.log"]);
    assert_eq!(path::latest_log(&names), Some(3));
    assert_eq!(path::latest_log(&owned(&["x"])), None);
}

// ------------------------------------------------------------------ direnv

fn times(pairs: &[(&str, i64)]) -> Mtimes {
    Mtimes { entries: pairs.iter().map(|(k, v)| (k.to_string(), *v)).collect() }
}

#[test]
fn test_is_valid() {
    let cases: Vec<(&[(&str, i64)], &[(&str, i64)], bool)> = vec![
        (&[("a", 1)], &[("a", 1)], true),
        (&[("a", 1), ("b", 2)], &[("a", 1), ("b", 2)], true),
        (&[("a", 1)], &[("a", 2)], false),
        (&[("a", 1), ("b", 2)], &[("a", 1)], true),
        (&[("a", 1)], &[("a", 1), ("b", 2)], false),
        (&[], &[("a", 1)], false),
        (&[], &[], true),
        (&[("a", 1)], &[], true),
    ];
    for (stored, current, want) in cases {
        assert_eq!(is_valid(&times(stored), &times(current)), want);
    }
}

#[test]
fn only_present_files_with_a_time_are_watched() {
    let entry = |present, modtime, path: &str| WatchEntry {
        present,
        modtime,
        path: path.to_owned(),
    };
    let current = current_times(&vec![
        entry(true, 5, "a"),
        entry(false, 5, "b"),
        entry(true, 0, "c"),
        entry(true, 6, "a"),
        entry(true, -1, "d"),
    ]);
    assert_eq!(current.entries.len(), 1);
    assert_eq!(current.get("a"), Some(6));
    assert_eq!(current.get("b"), None);
    assert_eq!(current.get("c"), None);
    assert_eq!(current.get("d"), None);
}

#[test]
fn saved_times_read_back() {
    let current = times(&[("/p/flake.nix", 17), ("/p/a \"b\"\n", i64::MAX), ("", i64::MIN)]);
    let loaded = load_state("/s", Some(&save_state(&current))).unwrap();
    assert_eq!(loaded.entries.len(), 3);
    for (path, time) in &current.entries {
        assert_eq!(loaded.get(path), Some(*time));
    }
    assert!(is_valid(&loaded, &current));
    assert_eq!(save_state(&times(&[])), "{}");
    assert_eq!(save_state(&times(&[("a", 1)])), r#"{"a":1}"#);
}

#[test]
fn state_is_empty_without_a_file_and_named_when_broken() {
    assert_eq!(load_state("/s", None).unwrap().entries.len(), 0);
    let loaded = load_state("/s", Some(r#" {"a": 1, "b": -2, "a": 3} "#)).unwrap();
    assert_eq!(loaded.get("a"), Some(3));
    assert_eq!(loaded.get("b"), Some(-2));
    for broken in ["", "[]", r#"{"a": "1"}"#, r#"{"a": 1.5}"#, r#"{"a": 9223372036854775808}"#] {
        let err = load_state("/p/s.json", Some(broken)).err().expect(broken);
        assert!(err.starts_with("failed to parse `/p/s.json`: "), "err={err}");
    }
    let err = take_state("/s", Err("why".to_owned())).err().unwrap();
    assert_eq!(err, "failed to parse `/s`: why");
    let entries = vec![("a".to_owned(), 4i64)];
    assert_eq!(take_state("/s", Ok(entries)).ok().unwrap().get("a"), Some(4));
}

#[test]
fn direnv_is_asked_only_about_a_watch_list() {
    assert_eq!(watch_list(&env(&[])), None);
    assert_eq!(watch_list(&env(&[("DIRENV_WATCHES", "")])), None);
    assert_eq!(watch_list(&env(&[("DIRENV_WATCHES", "eJx")])).as_deref(), Some("eJx"));
    assert_eq!(show_dump_args("eJx"), owned(&["show_dump", "eJx"]));
    assert_eq!(
        show_dump_failed("exit status: 1", " bad \n"),
        "`direnv show_dump` exited with exit status: 1: bad"
    );
}

#[test]
fn script_carries_signal_and_cache_dir() {
    let template = "export NCAP_CACHE=__NCAP_CACHE__\ncd __CACHE_DIR__ # __CACHE_DIR__\n";
    assert_eq!(
        script(template, true, "/p/.ncap-cache"),
        "export NCAP_CACHE=1\ncd /p/.ncap-cache # /p/.ncap-cache\n"
    );
    assert_eq!(script("__NCAP_CACHE__", false, "/x"), "0");
}

// ------------------------------------------------------------------ config

#[test]
fn test_sanitize_name() {
    for (input, want) in [
        (".#container", "container"),
        ("./path#container", "path-container"),
        ("./path/to#", "path-to"),
        ("container", "container"),
        ("/abs/path#shell", "abs-path-shell"),
        ("github:owner/repo#devShell", "github-owner-repo-devShell"),
        ("a#b#c", "a-b-c"),
        (".nix#dev", "nix-dev"),
        ("#", "default"),
        ("", "default"),
    ] {
        assert_eq!(sanitize_name(input), want);
    }
}

#[test]
fn test_expand_env() {
    let vars = env(&[("FOO", "bar")]);
    for (input, want) in [
        ("", ""),
        ("plain", "plain"),
        ("$FOO", "bar"),
        ("${FOO}", "bar"),
        ("prefix_${FOO}_suffix", "prefix_bar_suffix"),
        ("$UNDEFINED_VAR", "$UNDEFINED_VAR"),
        ("${UNDEFINED_VAR}", "${UNDEFINED_VAR}"),
        ("$$", "$$"),
        ("$", "$"),
        ("${}", "${}"),
        ("$123abc", "$123abc"),
        ("${FOO", "bar"),
        ("${NOPE", "${NOPE}"),
        ("$FOO$FOO-$", "barbar-$"),
    ] {
        assert_eq!(expand_env(input, &vars), want, "input={input}");
    }
}

fn full_env() -> Vec<(&'static str, &'static str)> {
    vec![
        ("NCAP_DEVSHELL", ".#dev"),
        ("NCAP_CONTAINER", "box"),
        ("NCAP_IMAGE", "img"),
        ("NCAP_RUNTIME", "podman"),
        ("NCAP_RUN_OPTS", r#"["-e", "A=$A"]"#),
        ("NCAP_SERVER", "/srv"),
        ("NCAP_NIX", "nix"),
        ("NCAP_BASH", "/bash"),
        ("NCAP_TIMEOUT", "5"),
        ("PROJECT_ROOT", "/p"),
        ("A", "1"),
    ]
}

fn config(pairs: &[(&str, &str)]) -> Config {
    match Config::from_cli("/run/d/s.sock", "/logs", &env(pairs), &env(&[])) {
        Ok(cfg) => cfg,
        Err(err) => panic!("{:?}", err.report().chain),
    }
}

#[test]
fn settings_are_read_in_order() {
    let pairs = full_env();
    for name in [
        "NCAP_DEVSHELL",
        "NCAP_CONTAINER",
        "NCAP_IMAGE",
        "NCAP_RUNTIME",
        "NCAP_RUN_OPTS",
        "NCAP_SERVER",
        "NCAP_NIX",
        "NCAP_BASH",
        "NCAP_TIMEOUT",
        "PROJECT_ROOT",
    ] {
        let rest: Vec<(&str, &str)> = pairs.iter().filter(|(k, _)| *k != name).copied().collect();
        let read = |garbled: &[(&str, &str)]| {
            Config::from_cli("/run/d/s.sock", "/logs", &env(&rest), &env(garbled)).err().unwrap()
        };
        assert_eq!(
            read(&[]).report().chain,
            vec![format!("env var not set: `{name}`"), "environment variable not found".to_owned()]
        );
        assert_eq!(
            read(&[(name, r#""\xFF""#)]).report().chain,
            vec![
                format!("env var not set: `{name}`"),
                r#"environment variable was not valid unicode: "\xFF""#.to_owned(),
            ]
        );
    }
    let with = |key: &str, value: &str| {
        let mut all: Vec<(String, String)> =
            pairs.iter().map(|(k, v)| (k.to_string(), v.to_string())).collect();
        all.push((key.to_owned(), value.to_owned()));
        Environment::new(all)
    };
    let err = Config::from_cli("/", "/logs", &with("A", "2"), &env(&[])).err().unwrap();
    assert_eq!(err.report().chain, vec!["socket path has no parent directory `/`"]);
    let err = Config::from_cli("/a/b", "/logs", &with("NCAP_RUN_OPTS", "nope"), &env(&[])).err().unwrap();
    assert_eq!(err.report().chain[0], "failed to parse `NCAP_RUN_OPTS` as json");
    assert_eq!(err.report().chain.len(), 2);
    let err = Config::from_cli("/a/b", "/logs", &with("NCAP_TIMEOUT", "x"), &env(&[])).err().unwrap();
    assert_eq!(err.report().chain, vec!["invalid digit found in string"]);
    let cfg = config(&pairs);
    assert_eq!(cfg.socket_dir, "/run/d");
    assert_eq!(cfg.timeout, 5);
    assert_eq!(cfg.run_opts, owned(&["-e", "A=$A"]));
    assert_eq!(cfg.cache_file(), "/p/.ncap-cache/dev/env");
    assert_eq!(cfg.nix_profile(), "/p/.ncap-cache/dev/profile");
}

#[test]
fn run_args_are_the_defaults_then_the_options() {
    let cfg = config(&full_env());
    let mut want = owned(&[
        "--replace",
        "--name",
        "box",
        "-v",
        "/nix:/nix:ro",
        "-v",
        "/run/d:/run/d",
        "-v",
        "/p:/p",
        "-w",
        "/p",
        "-v",
        "/p/.ncap-cache:/p/.ncap-cache:ro",
    ]);
    let opts = owned(&["-e", "A=1"]);
    let plain: Vec<String> = want.iter().chain(opts.iter()).cloned().collect();
    assert_eq!(cfg.run_args(false, &env(&full_env())), plain);
    want.extend(owned(&["-v", "/p/.git:/p/.git:ro"]));
    want.extend(opts);
    assert_eq!(cfg.run_args(true, &env(&full_env())), want);
}

#[test]
fn cache_signal_is_exactly_one() {
    assert!(cache_signal(&env(&[("NCAP_CACHE", "1")])));
    for other in ["0", "", "true", "11"] {
        assert!(!cache_signal(&env(&[("NCAP_CACHE", other)])));
    }
    assert!(!cache_signal(&env(&[])));
}

// ------------------------------------------------------------------- tools

fn piped(stdout: &str) -> Result<Piped, String> {
    Ok(Piped { success: true, status: "exit status: 0".to_owned(), stdout: stdout.to_owned() })
}

fn failed(stdout: &str) -> Result<Piped, String> {
    Ok(Piped { success: false, status: "exit status: 1".to_owned(), stdout: stdout.to_owned() })
}

#[test]
fn adapters_spell_their_commands() {
    let rt = Runtime::new("docker".to_owned());
    assert_eq!(rt.bin(), "docker");
    assert_eq!(rt.stop("c"), owned(&["stop", "c"]));
    assert_eq!(rt.is_running("c"), owned(&["inspect", "-f", "{{.State.Running}}", "c"]));
    assert_eq!(rt.container_id("c"), owned(&["inspect", "-f", "{{.Id}}", "c"]));
    assert_eq!(
        rt.run(&owned(&["-v", "a:b"]), "img", "/bash", "cmd"),
        owned(&["run", "-d", "-v", "a:b", "--", "img", "/bash", "-c", "cmd"])
    );
    assert_eq!(
        rt.exec_interactive("c", "/bash", "cmd"),
        owned(&["exec", "-it", "c", "/bash", "-c", "cmd"])
    );
    assert!(says_running(&piped("true\n")));
    assert!(says_running(&failed(" true ")));
    assert!(!says_running(&piped("false")));
    assert!(!says_running(&Err("no".to_owned())));
    let nix = NixInvoker::new("nix".to_owned());
    assert_eq!(
        nix.print_dev_env("/pr", ".#d"),
        owned(&["print-dev-env", "--profile", "/pr", ".#d"])
    );
    assert_eq!(
        nix.wipe_history("/pr"),
        owned(&["profile", "wipe-history", "--profile", "/pr"])
    );
}

// ---------------------------------------------------------------- commands

fn begin(cmd: Cmd, more: &[(&str, &str)]) -> (Run, Turn) {
    let mut pairs = full_env();
    pairs.extend_from_slice(more);
    Run::begin(cmd, config(&pairs), env(&pairs))
}

fn failure(turn: &Turn) -> (Vec<String>, Option<String>) {
    match &turn.action {
        Action::Finish(Err(report)) => (report.chain.clone(), report.suggestion.clone()),
        _ => panic!("expected a failure"),
    }
}

fn succeeded(turn: &Turn) -> bool {
    matches!(&turn.action, Action::Finish(Ok(())))
}

#[test]
fn init_without_the_signal_evaluates_caches_and_restarts() {
    let (mut run, turn) = begin(Cmd::Init, &[]);
    assert!(matches!(&turn.action, Action::CreateDir(dir) if dir == "/p/.ncap-cache/dev"));
    let turn = run.step(Event::Done);
    assert_eq!(turn.notes, "evaluating devshell `.#dev` with nix print-dev-env...\n");
    assert!(matches!(&turn.action, Action::Evaluate(args) if args[2] == "/p/.ncap-cache/dev/profile"));
    let turn = run.step(Event::Evaluated(piped("script \u{fffd}"), b"script \xff".to_vec()));
    match &turn.action {
        Action::WriteDump { path, bytes } => {
            assert_eq!(path, "/p/.ncap-cache/dev/env");
            assert_eq!(bytes, b"script \xff");
        }
        _ => panic!("expected the activation script"),
    }
    let turn = run.step(Event::Done);
    assert_eq!(turn.notes, "devshell cached\n");
    assert!(matches!(&turn.action, Action::WipeHistory(_)));
    let turn = run.step(Event::Done);
    assert_eq!(turn.notes, "restarting container `box`...\nstopping container `box`...\n");
    assert!(matches!(&turn.action, Action::Capture(args) if args[0] == "stop"));
    let turn = run.step(Event::Ran(failed("no such container")));
    assert_eq!(turn.notes, "no such container");
    assert!(matches!(&turn.action, Action::Inspect(_)));
    assert_eq!(run.stage, Stage::Running);
}

#[test]
fn init_with_signal_and_cache_goes_straight_to_the_start() {
    let (mut run, _) = begin(Cmd::Init, &[("NCAP_CACHE", "1")]);
    let turn = run.step(Event::Done);
    assert!(matches!(&turn.action, Action::AskPresent(file) if file == "/p/.ncap-cache/dev/env"));
    let turn = run.step(Event::Answer(true));
    assert!(matches!(&turn.action, Action::Inspect(_)));
    let (mut run, _) = begin(Cmd::Init, &[("NCAP_CACHE", "1")]);
    run.step(Event::Done);
    let turn = run.step(Event::Answer(false));
    assert!(matches!(&turn.action, Action::Evaluate(_)));
}

#[test]
fn init_failures_say_what_failed() {
    let (mut run, _) = begin(Cmd::Init, &[]);
    let turn = run.step(Event::Failed("EACCES".to_owned()));
    assert_eq!(failure(&turn), (owned(&["EACCES"]), None));
    let (mut run, _) = begin(Cmd::Init, &[]);
    run.step(Event::Done);
    let turn = run.step(Event::Evaluated(failed("partial"), b"partial".to_vec()));
    assert_eq!(turn.notes, "partial");
    assert_eq!(
        failure(&turn),
        (
            owned(&[
                "failed to evaluate devshell `.#dev`",
                "`nix print-dev-env` failed with exit code exit status: 1",
            ]),
            Some("check that the flake attribute exists and Nix can evaluate it".to_owned())
        )
    );
    let (mut run, _) = begin(Cmd::Init, &[]);
    run.step(Event::Done);
    let turn = run.step(Event::Evaluated(Err("ENOENT".to_owned()), Vec::new()));
    assert_eq!(
        failure(&turn).0,
        owned(&["failed to evaluate devshell `.#dev`", "nix print-dev-env", "ENOENT"])
    );
    let (mut run, _) = begin(Cmd::Init, &[]);
    run.step(Event::Done);
    run.step(Event::Evaluated(piped("x"), b"x".to_vec()));
    run.step(Event::Done);
    let turn = run.step(Event::Failed("ENOENT".to_owned()));
    assert_eq!(failure(&turn).0, owned(&["nix profile wipe-history", "ENOENT"]));
}

#[test]
fn start_leaves_a_running_container_alone() {
    let (mut run, turn) = begin(Cmd::Start, &[]);
    assert!(matches!(&turn.action, Action::Inspect(_)));
    let turn = run.step(Event::Ran(piped("true\n")));
    assert!(succeeded(&turn));
    assert_eq!(turn.notes, "container `box` is already running\n");
}

#[test]
fn start_without_a_cache_suggests_init() {
    let (mut run, _) = begin(Cmd::Start, &[]);
    run.step(Event::Ran(piped("false\n")));
    let turn = run.step(Event::Answer(false));
    assert_eq!(
        failure(&turn),
        (
            owned(&["no cached dev environment found"]),
            Some("run `ncap-ctl init` first".to_owned())
        )
    );
}

#[test]
fn start_makes_the_socket_dir_and_launches() {
    let (mut run, _) = begin(Cmd::Start, &[]);
    run.step(Event::Ran(Err("gone".to_owned())));
    let turn = run.step(Event::Answer(true));
    assert!(matches!(&turn.action, Action::AskRealDir(dir) if dir == "/run/d"));
    let turn = run.step(Event::Answer(false));
    assert!(matches!(&turn.action, Action::CreateDir(dir) if dir == "/run/d"));
    let turn = run.step(Event::Done);
    assert_eq!(
        turn.notes,
        "created socket directory `/run/d`\nstarting container `box`...\n"
    );
    assert!(matches!(&turn.action, Action::AskDir(dir) if dir == "/p/.git"));
    let turn = run.step(Event::Answer(false));
    match &turn.action {
        Action::Capture(args) => {
            assert_eq!(args[0], "run");
            assert_eq!(
                args.last().unwrap(),
                "source /p/.ncap-cache/dev/env && exec /srv --socket /run/d/s.sock --log-dir /logs --timeout 5"
            );
        }
        _ => panic!("expected the launch"),
    }
    let turn = run.step(Event::Ran(piped("abc\n")));
    assert!(succeeded(&turn));
    assert_eq!(turn.notes, "container started: `abc`\n");
}

#[test]
fn start_mentions_a_filled_socket_dir_and_reports_a_failed_launch() {
    let (mut run, _) = begin(Cmd::Start, &[]);
    run.step(Event::Ran(piped("false")));
    run.step(Event::Answer(true));
    let turn = run.step(Event::Answer(true));
    assert!(matches!(&turn.action, Action::AskEntries(dir) if dir == "/run/d"));
    let turn = run.step(Event::Answer(true));
    assert_eq!(
        turn.notes,
        "socket directory `/run/d` is not empty\nstarting container `box`...\n"
    );
    run.step(Event::Answer(true));
    let turn = run.step(Event::Ran(failed("")));
    assert_eq!(
        failure(&turn).0,
        owned(&["`podman run` failed with exit code exit status: 1"])
    );
}

#[test]
fn stop_reports_its_outcome() {
    let (mut run, turn) = begin(Cmd::Stop, &[]);
    assert_eq!(turn.notes, "stopping container `box`...\n");
    let turn = run.step(Event::Ran(piped("box\n")));
    assert!(succeeded(&turn));
    assert_eq!(turn.notes, "container stopped: `box`\n");
    let (mut run, _) = begin(Cmd::Stop, &[]);
    let turn = run.step(Event::Ran(Err("ENOENT".to_owned())));
    assert_eq!(failure(&turn).0, owned(&["podman stop", "ENOENT"]));
}

#[test]
fn enter_exits_with_the_shell() {
    for (code, want) in [(Some(3), 3), (Some(0), 0), (None, 1)] {
        let (mut run, _) = begin(Cmd::Enter, &[]);
        let turn = run.step(Event::Answer(true));
        assert!(matches!(
            &turn.action,
            Action::Shell(args) if args[5] == "source /p/.ncap-cache/dev/env && exec /bash"
        ));
        let turn = run.step(Event::Exited(Ok(code)));
        assert!(matches!(&turn.action, Action::Exit(c) if *c == want));
    }
    let (mut run, _) = begin(Cmd::Enter, &[]);
    run.step(Event::Answer(true));
    let turn = run.step(Event::Exited(Err("ENOENT".to_owned())));
    assert_eq!(
        failure(&turn),
        (
            owned(&["failed to enter container", "ENOENT"]),
            Some("check that the container is running (`ncap-ctl start`)".to_owned())
        )
    );
}

#[test]
fn show_options_prints_the_run_args() {
    let (mut run, _) = begin(Cmd::ShowOptions, &[]);
    let turn = run.step(Event::Answer(false));
    match &turn.action {
        Action::Print(lines) => assert_eq!(lines.last().unwrap(), "A=1"),
        _ => panic!("expected the lines"),
    }
    assert!(succeeded(&run.step(Event::Done)));
}

#[test]
fn clean_drops_the_whole_cache() {
    let (mut run, turn) = begin(Cmd::Clean, &[]);
    assert_eq!(
        turn.notes,
        "cleaning all cached dev environments...\nstopping container `box`...\n"
    );
    let turn = run.step(Event::Ran(Err("gone".to_owned())));
    assert!(matches!(&turn.action, Action::AskPresent(dir) if dir == "/p/.ncap-cache"));
    let turn = run.step(Event::Answer(true));
    assert!(matches!(&turn.action, Action::RemoveTree(dir) if dir == "/p/.ncap-cache"));
    let turn = run.step(Event::Done);
    assert!(succeeded(&turn));
    assert_eq!(turn.notes, "removed `/p/.ncap-cache`\n");
    let (mut run, _) = begin(Cmd::Clean, &[]);
    run.step(Event::Ran(piped("")));
    run.step(Event::Answer(true));
    let turn = run.step(Event::Failed("EBUSY".to_owned()));
    assert_eq!(failure(&turn).0, owned(&["failed to remove `/p/.ncap-cache`", "EBUSY"]));
}

fn printed(turn: &Turn) -> Vec<String> {
    match &turn.action {
        Action::Print(lines) => lines.clone(),
        _ => panic!("expected the lines"),
    }
}

#[test]
fn status_tells_container_and_cache() {
    let (mut run, _) = begin(Cmd::Status, &[("NCAP_CACHE", "1")]);
    run.step(Event::Answer(true));
    run.step(Event::Ran(piped("true")));
    let turn = run.step(Event::Ran(piped("abc\n")));
    assert!(matches!(&turn.action, Action::AskPresent(_)));
    assert_eq!(
        printed(&run.step(Event::Answer(true))),
        owned(&[
            "container is running",
            "  id:      abc",
            "  name:    box",
            "  runtime: podman",
            "  socket:  /run/d/s.sock",
            "  cache:   valid (direnv inputs unchanged)",
        ])
    );
    let (mut run, _) = begin(Cmd::Status, &[]);
    run.step(Event::Answer(true));
    assert_eq!(
        printed(&run.step(Event::Ran(piped("false")))),
        owned(&[
            "container is not running",
            "  (cached environment exists — run `ncap-ctl start`)",
            "  cache:   stale (will re-evaluate on init)",
        ])
    );
    let (mut run, _) = begin(Cmd::Status, &[]);
    run.step(Event::Answer(false));
    assert_eq!(
        printed(&run.step(Event::Ran(Err("gone".to_owned())))),
        owned(&[
            "container is not running",
            "  (no cached environment — run `ncap-ctl init`)",
            "  cache:   none",
        ])
    );
    let (mut run, _) = begin(Cmd::Status, &[]);
    run.step(Event::Answer(false));
    run.step(Event::Ran(piped("true")));
    let turn = run.step(Event::Ran(Err("gone".to_owned())));
    assert_eq!(failure(&turn).0, owned(&["failed to inspect container", "gone"]));
}

#[test]
fn blank_pager_matters_only_where_it_would_run() {
    let blank = [("PAGER", "  ")];
    let logs = || Event::Listed(owned(&["ncap-server-9.log"]));
    let (mut run, _) = begin(Cmd::Log { no_pager: false }, &blank);
    assert!(run.pages(&Event::Answer(true)));
    run.step(Event::Answer(true));
    assert!(!run.pages(&logs()));
    assert!(run.pages(&Event::Listed(owned(&["other"]))));
    let turn = run.step(Event::Listed(owned(&["other"])));
    assert_eq!(failure(&turn).0, owned(&["no log files found in `/logs`"]));

    let (mut run, _) = begin(Cmd::Log { no_pager: true }, &blank);
    run.step(Event::Answer(true));
    assert!(run.pages(&logs()));
    let turn = run.step(logs());
    assert!(matches!(&turn.action, Action::ShowFile(log) if log == "/logs/ncap-server-9.log"));
}

#[test]
fn log_pages_or_prints_the_latest_log() {
    let logs = || owned(&["ncap-server-9.log", "ncap-server-10.log", "other"]);
    let (mut run, _) = begin(Cmd::Log { no_pager: false }, &[("PAGER", "most -s")]);
    run.step(Event::Answer(true));
    let turn = run.step(Event::Listed(logs()));
    match &turn.action {
        Action::Page(program, args) => {
            assert_eq!(program, "most");
            assert_eq!(args, &owned(&["-s", "/logs/ncap-server-10.log"]));
        }
        _ => panic!("expected the pager"),
    }
    let turn = run.step(Event::Exited(Err("ENOENT".to_owned())));
    assert_eq!(failure(&turn).0, owned(&["failed to run pager `most -s`", "ENOENT"]));

    let (mut run, _) = begin(Cmd::Log { no_pager: false }, &[("PAGER", "")]);
    run.step(Event::Answer(true));
    let turn = run.step(Event::Listed(logs()));
    assert!(matches!(&turn.action, Action::AskLess));
    let turn = run.step(Event::Answer(true));
    assert!(matches!(
        &turn.action,
        Action::Page(program, args) if program == "less" && args[0] == "-R"
    ));
    assert!(succeeded(&run.step(Event::Exited(Ok(Some(1))))));

    let (mut run, _) = begin(Cmd::Log { no_pager: true }, &[("PAGER", "most")]);
    run.step(Event::Answer(true));
    let turn = run.step(Event::Listed(logs()));
    assert!(matches!(&turn.action, Action::ShowFile(file) if file == "/logs/ncap-server-10.log"));
    let turn = run.step(Event::Failed("EIO".to_owned()));
    assert_eq!(failure(&turn).0, owned(&["failed to read `/logs/ncap-server-10.log`", "EIO"]));
}

#[test]
fn log_failures_name_the_directory() {
    let (mut run, _) = begin(Cmd::Log { no_pager: true }, &[]);
    let turn = run.step(Event::Answer(false));
    assert_eq!(failure(&turn).0, owned(&["log directory does not exist: `/logs`"]));
    let (mut run, _) = begin(Cmd::Log { no_pager: true }, &[]);
    run.step(Event::Answer(true));
    let turn = run.step(Event::Listed(owned(&["x"])));
    assert_eq!(failure(&turn).0, owned(&["no log files found in `/logs`"]));
    let (mut run, _) = begin(Cmd::Log { no_pager: true }, &[]);
    run.step(Event::Answer(true));
    let turn = run.step(Event::Failed("EACCES".to_owned()));
    assert_eq!(failure(&turn).0, owned(&["failed to read log directory `/logs`", "EACCES"]));
}
