//! The parts of the control side, one by one.

use nix_capsule::ctl::clean::{is_generation_link, named_cache_files, select, Owned};
use nix_capsule::ctl::config::{
    parse_harden, parse_log_level, parse_run_opts, parse_runtime, parse_timeout,
    parse_watch_files, resolve_project, setup_env, setup_env_in, validate_watch_files, watch_paths,
    ConfigError, FileKind, FileTable,
};
use nix_capsule::ctl::digest::{check, compute, Contents, Digester, Freshness};
use nix_capsule::ctl::error::{fail, CtlError};
use nix_capsule::ctl::expand::{expand_with, is_env_name};
use nix_capsule::ctl::fs_error::FsError;
use nix_capsule::ctl::names::sanitize;
use nix_capsule::ctl::nix::{
    evaluated, print_dev_env_args, wipe_history_args, Evaluation, PrintDevEnvError,
};
use nix_capsule::ctl::options::{pager_command, show_options};
use nix_capsule::ctl::paths::{
    cache_dir, cache_dir_in, log_dir, log_dir_in, newest_server_log_path, parse_server_log_epoch,
    server_log_path, socket_path, socket_path_in,
};
use nix_capsule::ctl::runtime::{
    captured_output, is_name_in_use, says_running, state_report, CommandOutput, Runtime,
    RuntimeError, ServerArgs, Verb,
};
use nix_capsule::ctl::shell::shell_escape;
use nix_capsule::ctl::stamp::{judge, StampError};
use nix_capsule::ctl::version::{probe_message, skew_warning};
use nix_capsule::environment::Environment;
use nix_capsule::number::NumberError;
use nix_capsule::protocol::{ErrorMsg, Exit, Message, VersionMsg, CURRENT_VERSION};
use nix_capsule::server::LogLevel;

fn owned(items: &[&str]) -> Vec<String> {
    items.iter().map(|item| item.to_string()).collect()
}

fn env(pairs: &[(&str, &str)]) -> Environment {
    Environment::new(pairs.iter().map(|(k, v)| (k.to_string(), v.to_string())).collect())
}

fn contents(files: &[(&str, &[u8])]) -> Contents {
    Contents {
        files: files.iter().map(|(path, bytes)| (path.to_string(), Some(bytes.to_vec()))).collect(),
    }
}

// ------------------------------------------------------------------- names

#[test]
fn a_clean_basename_passes_through() {
    assert_eq!(sanitize("hello").as_deref(), Some("hello"));
}

#[test]
fn non_alphanumeric_runs_collapse_to_one_dash() {
    assert_eq!(sanitize("my_project").as_deref(), Some("my-project"));
    assert_eq!(sanitize("a..b").as_deref(), Some("a-b"));
    assert_eq!(sanitize("a.-.b").as_deref(), Some("a-b"));
    assert_eq!(sanitize("v1.2").as_deref(), Some("v1-2"));
}

#[test]
fn edges_are_stripped() {
    assert_eq!(sanitize("-lead-").as_deref(), Some("lead"));
    assert_eq!(sanitize(".dot.").as_deref(), Some("dot"));
}

#[test]
fn case_is_preserved() {
    assert_eq!(sanitize("My.App").as_deref(), Some("My-App"));
}

#[test]
fn non_ascii_letters_are_not_alphanumeric() {
    assert_eq!(sanitize("münchen").as_deref(), Some("m-nchen"));
}

#[test]
fn nothing_surviving_is_none() {
    assert_eq!(sanitize("###"), None);
    assert_eq!(sanitize(""), None);
    assert_eq!(sanitize("---"), None);
}

#[test]
fn deriving_a_name_twice_changes_nothing() {
    for basename in ["my_project", "a..b", "-x-", "é.é", "A1"] {
        if let Some(name) = sanitize(basename) {
            assert_eq!(sanitize(&name), Some(name.clone()));
        }
    }
}

// ------------------------------------------------------------------- shell

#[test]
fn escape_cases() {
    for (value, want) in [
        ("plain", "plain"),
        ("", ""),
        ("/nix/store/xyz/bin/bash", "/nix/store/xyz/bin/bash"),
        ("a b c", "a b c"),
        ("it's", "it'\\''s"),
        ("'", "'\\''"),
        ("'a'", "'\\''a'\\''"),
    ] {
        assert_eq!(shell_escape(value), want);
    }
}

// ------------------------------------------------------------------- paths

#[test]
fn socket_prefers_the_runtime_dir_then_tmpdir_then_tmp() {
    assert_eq!(
        socket_path_in(Some("/run/user/1".to_owned()), Some("/var/tmp"), "proj"),
        "/run/user/1/nix-capsule/proj/ncap.sock"
    );
    assert_eq!(socket_path_in(None, Some("/var/tmp"), "proj"), "/var/tmp/nix-capsule/proj/ncap.sock");
    assert_eq!(socket_path_in(None, None, "proj"), "/tmp/nix-capsule/proj/ncap.sock");
}

#[test]
fn base_dirs_scope_by_project_or_name_the_variable() {
    assert_eq!(cache_dir_in(Some("/c".to_owned()), "p").unwrap(), "/c/nix-capsule/p");
    assert_eq!(log_dir_in(Some("/s".to_owned()), "p").unwrap(), "/s/nix-capsule/p/logs");
    let no_cache = cache_dir_in(None, "p").unwrap_err();
    assert!(no_cache.message().contains(no_cache.var), "message={}", no_cache.message());
    let no_state = log_dir_in(None, "p").unwrap_err();
    assert!(no_state.message().contains(no_state.var), "message={}", no_state.message());
    assert!(no_cache.var != no_state.var);
}

#[test]
fn process_base_dirs_end_in_the_project() {
    assert!(socket_path("proj", Some("/var/tmp")).ends_with("/nix-capsule/proj/ncap.sock"));
    if let Ok(dir) = cache_dir("proj") {
        assert!(dir.ends_with("/nix-capsule/proj"), "dir={dir}");
    }
    if let Ok(dir) = log_dir("proj") {
        assert!(dir.ends_with("/nix-capsule/proj/logs"), "dir={dir}");
    }
}

#[test]
fn server_log_names_carry_their_epoch() {
    let path = server_log_path("/logs", 1700000000123);
    assert_eq!(path, "/logs/ncap-server-1700000000123.log");
    assert_eq!(parse_server_log_epoch("ncap-server-1700000000123.log"), Some(1700000000123));
    assert_eq!(parse_server_log_epoch("ncap-server-18446744073709551615.log"), Some(u64::MAX));
    for name in [
        "ncap-server-.log",
        "ncap-server-x.log",
        "ncap-server-+5.log",
        "ncap-server-5.txt",
        "server-5.log",
        "ncap-server-18446744073709551616.log",
        "ncap-server-.logncap",
    ] {
        assert_eq!(parse_server_log_epoch(name), None, "name={name}");
    }
}

#[test]
fn newest_log_is_by_epoch_not_by_text() {
    let names = owned(&["ncap-server-999.log", "notes.txt", "ncap-server-1000.log"]);
    assert_eq!(newest_server_log_path("/l", &names).unwrap(), "/l/ncap-server-1000.log");
    assert_eq!(newest_server_log_path("/l", &owned(&["notes.txt"])), None);
}

// ------------------------------------------------------------------ digest

#[test]
fn empty_watch_list_is_the_empty_input_xxhash64_vector() {
    let digest = compute(&vec![], &contents(&[]));
    assert_eq!(digest, "ef46db3751d8e999");
}

#[test]
fn digest_is_independent_of_entry_order() {
    let files = contents(&[("a.txt", b"alpha"), ("b.txt", b"beta")]);
    let one = compute(&owned(&["a.txt", "b.txt"]), &files);
    let two = compute(&owned(&["b.txt", "a.txt"]), &files);
    assert_eq!(one, two);
}

#[test]
fn content_change_flips_digest() {
    let before = compute(&owned(&["w.txt"]), &contents(&[("w.txt", b"before")]));
    let after = compute(&owned(&["w.txt"]), &contents(&[("w.txt", b"after")]));
    assert_ne!(before, after);
}

#[test]
fn appearing_or_disappearing_file_flips_digest() {
    let absent = compute(&owned(&["w.txt"]), &contents(&[]));
    let empty_but_present = compute(&owned(&["w.txt"]), &contents(&[("w.txt", b"")]));
    assert_ne!(absent, empty_but_present);
}

#[test]
fn mtime_only_touch_keeps_digest() {
    let first = compute(&owned(&["w.txt"]), &contents(&[("w.txt", b"same")]));
    let second = compute(&owned(&["w.txt"]), &contents(&[("w.txt", b"same")]));
    assert_eq!(first, second);
}

#[test]
fn nested_entries_hash_under_their_relative_path() {
    let flat = compute(&owned(&["dir/w.txt"]), &contents(&[("dir/w.txt", b"same")]));
    let moved = compute(&owned(&["other/w.txt"]), &contents(&[("other/w.txt", b"same")]));
    assert_ne!(flat, moved, "the relative path is part of the record");
}

#[test]
fn digest_is_lowercase_hex_without_a_newline() {
    let digest = compute(&owned(&["w.txt"]), &contents(&[("w.txt", b"contents")]));
    assert_eq!(digest.len(), 16, "digest={digest}");
    assert!(
        digest.bytes().all(|byte| byte.is_ascii_hexdigit() && !byte.is_ascii_uppercase()),
        "digest={digest}"
    );
}

#[test]
fn digest_is_the_hash_of_the_joined_records() {
    let digest =
        compute(&owned(&["b", "a"]), &contents(&[("a", b"1\x002".as_slice())]));
    let direct = twox_hash::XxHash64::oneshot(0, b"a\x001\x001\x002b\x000\x00");
    assert_eq!(digest, format!("{direct:016x}"));
}

#[test]
fn feeding_in_pieces_gives_the_same_digest() {
    let mut digester = Digester::new(&owned(&["w.txt", "absent"]));
    assert_eq!(digester.next_entry().as_deref(), Some("absent"));
    digester.begin(false);
    assert_eq!(digester.next_entry().as_deref(), Some("w.txt"));
    digester.begin(true);
    assert!(digester.has_room(8));
    digester.feed(b"con");
    digester.feed(b"tents");
    digester.end();
    assert_eq!(digester.next_entry(), None);
    assert_eq!(
        digester.finish(),
        compute(&owned(&["absent", "w.txt"]), &contents(&[("w.txt", b"contents")]))
    );
}

#[test]
fn freshness_is_missing_without_an_env_dump() {
    let digest = compute(&owned(&["w.txt"]), &contents(&[("w.txt", b"x")]));
    assert_eq!(check(false, Some(&digest), Some(&digest)), Freshness::Missing);
}

#[test]
fn freshness_matches_the_cached_hash_when_the_dump_exists() {
    let digest = compute(&owned(&["w.txt"]), &contents(&[("w.txt", b"x")]));
    assert_eq!(check(true, None, Some(&digest)), Freshness::Stale, "no hash file yet");
    assert_eq!(check(true, Some(&digest), Some(&digest)), Freshness::Fresh);
    let changed = compute(&owned(&["w.txt"]), &contents(&[("w.txt", b"y")]));
    assert_eq!(check(true, Some(&digest), Some(&changed)), Freshness::Stale);
}

#[test]
fn freshness_tolerates_a_trailing_newline_in_the_cached_hash() {
    let digest = compute(&owned(&["w.txt"]), &contents(&[("w.txt", b"x")]));
    let stored = format!("{digest}\n");
    assert_eq!(
        check(true, Some(&stored), Some(&digest)),
        Freshness::Fresh,
        "a trailing newline must read as fresh, matching `status`"
    );
}

#[test]
fn computed_error_reads_stale_never_fresh() {
    assert_eq!(
        check(true, Some(""), None),
        Freshness::Stale,
        "computed-error plus empty cached hash must not read as fresh"
    );
}

// ------------------------------------------------------------------- stamp

#[test]
fn accepts_same_root_on_second_guard() {
    assert_eq!(judge("/tmp/my-root", "proj", "/tmp/my-root"), Ok(()));
    assert_eq!(judge("/tmp/my-root\n", "proj", "/tmp/my-root"), Ok(()));
}

#[test]
fn different_root_is_a_hard_error() {
    let err = judge("/tmp/root-a", "proj", "/tmp/root-b").expect_err("must error");
    assert!(matches!(
        err,
        StampError::AlreadyClaimed { project, existing } if project == "proj" && existing == "/tmp/root-a"
    ));
}

// ------------------------------------------------------------------ config

#[test]
fn project_name_is_derived() {
    let derive = |project: Option<&str>, root: Option<&str>| match project {
        Some(project) => resolve_project(&env(&[("NCAP_PROJECT", project)]), root),
        None => resolve_project(&env(&[]), root),
    };
    assert_eq!(derive(Some("explicit"), Some("/###")).unwrap(), "explicit");
    assert_eq!(derive(Some(""), Some("/tmp/my_project")).unwrap(), "my-project");
    assert_eq!(derive(None, Some("/tmp/my_project")).unwrap(), "my-project");
    assert_eq!(derive(None, Some("/tmp/My.App")).unwrap(), "My-App");
    assert_eq!(
        derive(None, Some("/")),
        Err(ConfigError::EmptyProjectName { root: "/".to_owned() })
    );
    assert_eq!(derive(None, None), Err(ConfigError::Missing { var: "NCAP_PROJECT_ROOT" }));
}

#[test]
fn setup_env_derives_and_quotes() {
    let lookup = env(&[
        ("NCAP_PROJECT_ROOT", "/tmp/my_project"),
        ("NCAP_CACHE_DIR", "/tmp/a'b dir"),
    ]);
    let out = setup_env(&lookup, None).expect("setup-env succeeds");
    assert!(out.contains("export NCAP_PROJECT='my-project'\n"), "out={out}");
    assert!(out.contains("export NCAP_CONTAINER='ncap-my-project'\n"), "out={out}");
    assert!(out.contains("export NCAP_CACHE_DIR='/tmp/a'\\''b dir'\n"), "out={out}");
    let lines: Vec<&str> = out.lines().collect();
    assert_eq!(lines.len(), 5, "out={out}");
    assert!(lines[0].starts_with("export NCAP_PROJECT="), "out={out}");
    assert!(lines[1].starts_with("export NCAP_CONTAINER="), "out={out}");
    assert!(lines[2].starts_with("export NCAP_SOCKET="), "out={out}");
    assert!(lines[3].starts_with("export NCAP_CACHE_DIR="), "out={out}");
    assert!(lines[4].starts_with("export NCAP_LOG_DIR="), "out={out}");
}

#[test]
fn setup_env_explicit_wins() {
    let lookup = env(&[
        ("NCAP_PROJECT_ROOT", "/tmp/my_project"),
        ("NCAP_PROJECT", "explicit"),
        ("NCAP_CONTAINER", "custom"),
        ("NCAP_SOCKET", "/tmp/x.sock"),
        ("NCAP_CACHE_DIR", "/tmp/c"),
        ("NCAP_LOG_DIR", "/tmp/l"),
    ]);
    let out = setup_env(&lookup, None).expect("setup-env succeeds");
    assert!(out.contains("export NCAP_PROJECT='explicit'\n"), "out={out}");
    assert!(out.contains("export NCAP_CONTAINER='custom'\n"), "out={out}");
}

#[test]
fn setup_env_needs_root() {
    let err = setup_env(&env(&[]), None).expect_err("root is demanded");
    assert!(matches!(err, ConfigError::Missing { var: "NCAP_PROJECT_ROOT" }));
}

#[test]
fn setup_env_on_given_bases() {
    let out = setup_env_in(
        &env(&[("NCAP_PROJECT_ROOT", "/w/p")]),
        Some("/run/user/7".to_owned()),
        None,
        Some("/home/u/.cache".to_owned()),
        Some("/home/u/.local/state".to_owned()),
    )
    .unwrap();
    assert_eq!(
        out,
        "export NCAP_PROJECT='p'\n\
         export NCAP_CONTAINER='ncap-p'\n\
         export NCAP_SOCKET='/run/user/7/nix-capsule/p/ncap.sock'\n\
         export NCAP_CACHE_DIR='/home/u/.cache/nix-capsule/p'\n\
         export NCAP_LOG_DIR='/home/u/.local/state/nix-capsule/p/logs'\n"
    );
    let err = setup_env_in(
        &env(&[("NCAP_PROJECT_ROOT", "/w/p")]),
        None,
        None,
        None,
        Some("/s".to_owned()),
    )
    .unwrap_err();
    assert!(matches!(err, ConfigError::NoHome(_)));
}

#[test]
fn sourced_exports_are_stable() {
    let root = ("NCAP_PROJECT_ROOT", "/w/it's mine");
    let first = setup_env_in(
        &env(&[root]),
        None,
        Some("/scratch"),
        Some("/c".to_owned()),
        Some("/s".to_owned()),
    )
    .unwrap();
    let values: Vec<(String, String)> = first
        .lines()
        .map(|line| {
            let (name, quoted) = line.strip_prefix("export ").unwrap().split_once('=').unwrap();
            let inner = &quoted[1..quoted.len() - 1];
            (name.to_owned(), inner.replace("'\\''", "'"))
        })
        .collect();
    let mut pairs: Vec<(&str, &str)> = vec![root];
    pairs.extend(values.iter().map(|(k, v)| (k.as_str(), v.as_str())));
    let again = setup_env_in(&env(&pairs), Some("/run".to_owned()), None, None, None).unwrap();
    assert_eq!(again, first);
}

#[test]
fn single_variables_parse_or_name_themselves() {
    assert_eq!(parse_runtime(&env(&[("NCAP_RUNTIME", "docker")])).unwrap(), "docker");
    assert!(parse_runtime(&env(&[("NCAP_RUNTIME", "nerdctl")])).is_err());
    assert_eq!(
        parse_runtime(&env(&[])),
        Err(ConfigError::Missing { var: "NCAP_RUNTIME" })
    );
    assert_eq!(parse_timeout(&env(&[("NCAP_TIMEOUT", "15")])), Ok(15));
    assert_eq!(
        parse_timeout(&env(&[("NCAP_TIMEOUT", "soon")])),
        Err(ConfigError::BadTimeout { source: NumberError::InvalidDigit })
    );
    assert_eq!(
        parse_timeout(&env(&[("NCAP_TIMEOUT", "18446744073709551616")])),
        Err(ConfigError::BadTimeout { source: NumberError::TooLarge })
    );
    assert_eq!(parse_harden(&env(&[("NCAP_HARDEN", "true")])), Ok(true));
    assert_eq!(parse_harden(&env(&[("NCAP_HARDEN", "false")])), Ok(false));
    assert_eq!(
        parse_harden(&env(&[("NCAP_HARDEN", "yes")])),
        Err(ConfigError::BadHarden { value: "yes".to_owned() })
    );
    assert_eq!(parse_log_level(&env(&[("NCAP_LOG_LEVEL", "info")])), Ok(LogLevel::Info));
    assert_eq!(
        parse_log_level(&env(&[("NCAP_LOG_LEVEL", "warn")])),
        Err(ConfigError::BadLevel { value: "warn".to_owned() })
    );
    assert_eq!(
        parse_run_opts(&env(&[("NCAP_RUN_OPTS", r#"["-p", "80:80"]"#)])).unwrap(),
        owned(&["-p", "80:80"])
    );
    assert_eq!(
        parse_watch_files(&env(&[("NCAP_WATCH_FILES", r#"["flake.nix"]"#)])).unwrap(),
        owned(&["flake.nix"])
    );
    for (var, bad) in [("NCAP_RUN_OPTS", "{}"), ("NCAP_RUN_OPTS", "[1]")] {
        let err = parse_run_opts(&env(&[(var, bad)])).unwrap_err();
        assert!(
            err.message().starts_with("`NCAP_RUN_OPTS` is not a JSON array of strings: "),
            "message={}",
            err.message()
        );
    }
}

#[test]
fn watched_files_must_stay_below_the_root() {
    let files = FileTable {
        entries: vec![
            ("/r/flake.nix".to_owned(), FileKind::File),
            ("/r/adir".to_owned(), FileKind::Other),
        ],
    };
    assert!(validate_watch_files("/r", &owned(&["flake.nix", "missing"]), &files).is_ok());
    for entry in ["/abs/nix", "../escape", "a/../b"] {
        assert!(
            matches!(
                validate_watch_files("/r", &owned(&[entry]), &files),
                Err(ConfigError::NotRelativeWatchFile { .. })
            ),
            "entry={entry}"
        );
    }
    assert!(matches!(
        validate_watch_files("/r", &owned(&["adir"]), &files),
        Err(ConfigError::WatchFileNotFile { .. })
    ));
    assert_eq!(
        watch_paths(&env(&[
            ("NCAP_PROJECT_ROOT", "/r"),
            ("NCAP_WATCH_FILES", r#"["a", "b/c"]"#)
        ])),
        owned(&["/r/a", "/r/b/c"])
    );
}

// ------------------------------------------------------------------ expand

#[test]
fn expands_set_vars() {
    for (template, vars, want) in [
        ("prefix-$A-suffix", ("A", "hello"), "prefix-hello-suffix"),
        ("a-${A}-b", ("A", "world"), "a-world-b"),
        ("$A:$A", ("A", "/tmp/cargo"), "/tmp/cargo:/tmp/cargo"),
        ("${A}:${A}", ("A", "/tmp/cargo"), "/tmp/cargo:/tmp/cargo"),
        ("a-$A-b", ("A", ""), "a--b"),
        ("a-${A}-b", ("A", ""), "a--b"),
        ("-v $A:/mnt", ("A", "/tmp/foo bar"), "-v /tmp/foo bar:/mnt"),
    ] {
        let out = expand_with(template, &env(&[vars])).expect("expand succeeds");
        assert_eq!(out, want, "template={template}");
    }
}

#[test]
fn leaves_non_names_literal() {
    for input in [
        "literal-no-dollar",
        "price $ 5",
        "a-$5b",
        "${5}",
        "${foo-bar}",
        "${foo bar}",
        "${}",
        "$",
        "$$",
        "$-x",
        "${5-NC AP}",
        "${open",
    ] {
        let out = expand_with(input, &env(&[("5", "set"), ("foo", "set")])).expect("literal stays");
        assert_eq!(out, input);
    }
}

#[test]
fn unset_var_is_an_error_naming_it() {
    for template in ["x-$UNSET-y", "x-${UNSET}-y", "${UNSET}"] {
        let name = expand_with(template, &env(&[])).expect_err("unset must error");
        assert_eq!(name, "UNSET");
    }
    assert!(is_env_name("_a1"));
    assert!(!is_env_name("1a"));
    assert!(!is_env_name(""));
}

#[test]
fn shown_options_stop_at_the_unset_variable() {
    let (lines, err) = show_options(&owned(&["-e A=$A", "-x $NO", "later"]), &env(&[("A", "1")]));
    assert_eq!(lines, owned(&["-e A=1"]));
    assert_eq!(err, Some(CtlError::UnsetVar { name: "NO".to_owned() }));
    let (lines, err) = show_options(&owned(&["a", "b"]), &env(&[]));
    assert_eq!(lines, owned(&["a", "b"]));
    assert_eq!(err, None);
}

#[test]
fn pager_falls_back_to_less() {
    assert_eq!(pager_command(Some("most  -s")), ("most".to_owned(), owned(&["-s"])));
    assert_eq!(pager_command(Some("  ")), ("less".to_owned(), owned(&["-R"])));
    assert_eq!(pager_command(None), ("less".to_owned(), owned(&["-R"])));
}

// ----------------------------------------------------------------- runtime

fn output(success: bool, stdout: &str, stderr: &str) -> CommandOutput {
    CommandOutput { success, stdout: stdout.to_owned(), stderr: stderr.to_owned() }
}

fn runtime() -> Runtime {
    Runtime::new("podman".to_owned(), "ncap-p".to_owned(), "/bin/bash".to_owned())
}

#[test]
fn runtime_commands_are_spelled_exactly() {
    let rt = runtime();
    assert_eq!(rt.running_args(), owned(&["inspect", "-f", "{{.State.Running}}", "ncap-p"]));
    assert_eq!(rt.state_args(), owned(&["inspect", "-f", "{{json .State}}", "ncap-p"]));
    assert_eq!(rt.exists_args(), owned(&["inspect", "ncap-p"]));
    assert_eq!(rt.stop_args(), owned(&["stop", "ncap-p"]));
    assert_eq!(rt.remove_args(), owned(&["rm", "ncap-p"]));
    assert_eq!(
        rt.exec_interactive_args("/c'd"),
        owned(&[
            "exec",
            "-it",
            "ncap-p",
            "/bin/bash",
            "-c",
            "source '/c'\\''d/env' && exec '/bin/bash'",
        ])
    );
    let args = ServerArgs {
        socket: "/run/s".to_owned(),
        log_dir: "/l".to_owned(),
        timeout: 2,
        log_level: LogLevel::Warning,
    };
    assert_eq!(
        rt.run_detached_args("img", "/c/env", "/srv", &args, &owned(&["-v", "a:b"])),
        owned(&[
            "run",
            "-d",
            "--name",
            "ncap-p",
            "-v",
            "a:b",
            "--",
            "img",
            "/bin/bash",
            "-c",
            "source '/c/env' && exec '/srv' --socket '/run/s' --log-dir '/l' --timeout 2 --log-level warning",
        ])
    );
}

#[test]
fn runtime_outcomes_carry_the_captured_output() {
    let rt = runtime();
    assert_eq!(rt.checked(Verb::Run, Ok(output(true, " id \n", ""))), Ok("id".to_owned()));
    assert_eq!(
        rt.checked(Verb::Stop, Ok(output(false, "out", " err \n"))).unwrap_err().message(),
        "`podman stop` failed:\nerr"
    );
    assert_eq!(
        rt.checked(Verb::Remove, Err("ENOENT".to_owned())).unwrap_err().message(),
        "cannot spawn `podman rm`: ENOENT"
    );
    assert_eq!(rt.exec_checked(Ok(true)), Ok(()));
    assert_eq!(rt.exec_checked(Ok(false)).unwrap_err().message(), "`podman exec` failed");
    assert_eq!(
        rt.exec_checked(Err("no".to_owned())).unwrap_err().message(),
        "cannot spawn `podman exec`: no"
    );
    assert_eq!(captured_output(&output(false, " o ", "  ")), "o");
    assert_eq!(
        RuntimeError::NotLive {
            container: "c".to_owned(),
            timeout: 3,
            state: "dead".to_owned()
        }
        .message(),
        "container `c` never became live within 3s (state: dead)"
    );
}

#[test]
fn inspections_are_read_leniently() {
    assert!(says_running(&Ok(output(true, "true\n", ""))));
    assert!(!says_running(&Ok(output(true, "false\n", ""))));
    assert!(!says_running(&Err("no".to_owned())));
    assert_eq!(state_report(Ok(output(true, " {} \n", ""))), "{}");
    assert_eq!(state_report(Ok(output(false, "x", " gone "))), "gone");
    assert_eq!(state_report(Err("ENOENT".to_owned())), "ENOENT");
    assert!(is_name_in_use("Error: the NAME \"x\" is Already In Use"));
    assert!(is_name_in_use("name in use"));
    assert!(!is_name_in_use("no space left"));
}

#[test]
fn nix_commands_and_outcomes() {
    assert_eq!(
        print_dev_env_args("/c/profile", ".#c"),
        owned(&["print-dev-env", "--profile", "/c/profile", ".#c"])
    );
    assert_eq!(
        wipe_history_args("/c/profile"),
        owned(&["profile", "wipe-history", "--profile", "/c/profile"])
    );
    let came = |success| Ok(Evaluation { success, stdout: b"export A=1\n".to_vec() });
    assert_eq!(evaluated(came(true), ".#c"), Ok(b"export A=1\n".to_vec()));
    assert_eq!(
        evaluated(came(false), ".#c").unwrap_err().message(),
        "cannot eval `.#c` with `nix print-dev-env`"
    );
    assert_eq!(
        evaluated(Err("ENOENT".to_owned()), ".#c"),
        Err(PrintDevEnvError::Spawn { source: "ENOENT".to_owned() })
    );
}

// ----------------------------------------------------------------- version

#[test]
fn only_skew_and_refusal_warn() {
    assert_eq!(probe_message(), Message::RequestVersion);
    let version = |v: &str| Some(Message::ServerVersion(VersionMsg { version: v.to_owned() }));
    assert_eq!(skew_warning("/s", &version(CURRENT_VERSION)), None);
    assert_eq!(
        skew_warning("/s", &version("0.0.9")).unwrap(),
        "ncap-ctl: server on `/s` is running version 0.0.9, the host binaries are 0.1.0\nrun `ncap-ctl restart` to match them back at one version"
    );
    assert_eq!(
        skew_warning("/s", &Some(Message::Error(ErrorMsg { message: "?".to_owned() }))).unwrap(),
        "ncap-ctl: server on `/s` will not report a version, the host binaries are 0.1.0\nrun `ncap-ctl restart` to match them back at one version"
    );
    assert_eq!(skew_warning("/s", &None), None);
    assert_eq!(
        skew_warning("/s", &Some(Message::Exit(Exit { code: Some(0), signal: None }))),
        None
    );
}

// ------------------------------------------------------------------ errors

#[test]
fn failures_come_with_advice_where_there_is_some() {
    assert_eq!(
        fail(&CtlError::NotRunning { container: "c".to_owned() }),
        "container `c` is not running\nrun `ncap-ctl init` to start this project's container"
    );
    assert_eq!(
        fail(&CtlError::NoCachedEnv { dir: "/c".to_owned() }),
        "no cached dev environment in `/c`\nrun `ncap-ctl init` to start this project's container"
    );
    assert_eq!(
        fail(&CtlError::Config(ConfigError::EmptyProjectName { root: "/".to_owned() })),
        "cannot derive a project name from root `/`\nset `project` to a value mapping to a unique root"
    );
    assert_eq!(
        fail(&CtlError::PagerFailed { prog: "most".to_owned() }),
        "pager `most` failed"
    );
    assert_eq!(
        fail(&CtlError::Digest { source: "EIO".to_owned() }),
        "cannot hash the watched files: EIO"
    );
    assert_eq!(
        fail(&CtlError::PagerSpawn { prog: "most".to_owned(), source: "ENOENT".to_owned() }),
        "cannot run pager `most`: ENOENT"
    );
    assert_eq!(
        fail(&CtlError::SocketNoParent { socket: "/".to_owned() }),
        "socket path `/` has no parent directory"
    );
    assert_eq!(
        fail(&CtlError::NoLog { dir: "/l".to_owned() }),
        "no `ncap-server-*.log` file in `/l`"
    );
    let remove = FsError::Remove { path: "/x".to_owned(), source: "EPERM".to_owned() };
    assert!(fail(&CtlError::Fs(remove)).contains("/x"));
}

// ------------------------------------------------------------------- clean

#[test]
fn only_generation_links_and_server_logs_are_owned() {
    for name in ["profile-1-link", "profile-0042-link"] {
        assert!(is_generation_link(name), "name={name}");
    }
    for name in ["profile", "profile--link", "profile-x-link", "profile-1-links", "a-profile-1-link"]
    {
        assert!(!is_generation_link(name), "name={name}");
    }
    let names = owned(&["env", "profile-1-link", "ncap-server-5.log", "profile-2-link", "x"]);
    assert_eq!(
        select(Owned::Links, "/c", &names),
        owned(&["/c/profile-1-link", "/c/profile-2-link"])
    );
    assert_eq!(select(Owned::Logs, "/l", &names), owned(&["/l/ncap-server-5.log"]));
    assert_eq!(
        named_cache_files("/c"),
        owned(&["/c/env", "/c/hash", "/c/profile", "/c/project"])
    );
}
