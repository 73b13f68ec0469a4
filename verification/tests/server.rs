//! The server: connections, the course of a run, and the log.

use nix_capsule::client::HostSignal;
use nix_capsule::connection::{ConnAction, ConnEvent, ConnStage, Connection, Pipe, SpawnFault};
use nix_capsule::protocol::{
    DecodeError, ErrorMsg, Exit, Message, Request, SignalMsg, VersionMsg, CURRENT_VERSION,
};
use nix_capsule::server::{
    accept_failed, log_line, LogEntry, LogLevel, RunAction, RunEvent, RunStage, ServerRun,
};

fn owned(items: &[&str]) -> Vec<String> {
    items.iter().map(|item| item.to_string()).collect()
}

fn request(env: &[&str]) -> Message {
    Message::Request(Request {
        command: "sh".to_owned(),
        args: owned(&["-c", "cat"]),
        cwd: "/work".to_owned(),
        env: owned(env),
    })
}

fn names(actions: &[ConnAction]) -> Vec<String> {
    actions
        .iter()
        .map(|action| match action {
            ConnAction::Send(message) => format!("send {:?}", message.frame_type()),
            ConnAction::Relay(message) => format!("relay {:?}", message.frame_type()),
            ConnAction::CheckCwd(dir) => format!("check {dir}"),
            ConnAction::Spawn(plan) => format!("spawn {}", plan.command),
            ConnAction::WriteStdin(bytes) => format!("write {}", bytes.len()),
            ConnAction::CloseStdin => "close stdin".to_owned(),
            ConnAction::Kill(signal) => format!("kill {signal}"),
            ConnAction::KillQuietly(signal) => format!("kill quietly {signal}"),
            ConnAction::Wait => "wait".to_owned(),
            ConnAction::Reap => "reap".to_owned(),
            ConnAction::Log(level, text) => format!("log {} {text}", level.name()),
            ConnAction::Close => "close".to_owned(),
        })
        .collect()
}

fn sent_error(actions: &[ConnAction]) -> String {
    match &actions[0] {
        ConnAction::Send(Message::Error(err)) => err.message.clone(),
        other => panic!("expected an error frame, got {other:?}"),
    }
}

fn bridged() -> Connection {
    let mut conn = Connection::new();
    assert_eq!(
        names(&conn.step(ConnEvent::Frame(Ok(request(&[]))))),
        vec!["log debug exec request", "check /work"]
    );
    assert_eq!(names(&conn.step(ConnEvent::CwdChecked(true))), vec!["spawn sh"]);
    assert_eq!(conn.step(ConnEvent::Spawned).len(), 0);
    assert_eq!(conn.stage, ConnStage::Bridging);
    conn
}

#[test]
fn one_connection_starts_one_child() {
    let mut conn = bridged();
    assert_eq!(conn.step(ConnEvent::Frame(Ok(request(&[])))).len(), 0);
    assert_eq!(names(&conn.step(ConnEvent::OutputEnd)), vec!["wait"]);
    let end = conn.step(ConnEvent::Exited { code: Some(0), signal: None });
    assert_eq!(names(&end), vec!["send Exit", "close"]);
    assert_eq!(conn.stage, ConnStage::Closed);
}

#[test]
fn request_runs_with_its_directory_and_variables() {
    let mut conn = Connection::new();
    conn.step(ConnEvent::Frame(Ok(request(&["A=1", "B=x=y", "C="]))));
    let actions = conn.step(ConnEvent::CwdChecked(true));
    match &actions[0] {
        ConnAction::Spawn(plan) => {
            assert_eq!(plan.command, "sh");
            assert_eq!(plan.args, owned(&["-c", "cat"]));
            assert_eq!(plan.cwd, "/work");
            assert_eq!(
                plan.env,
                vec![
                    ("A".to_owned(), "1".to_owned()),
                    ("B".to_owned(), "x=y".to_owned()),
                    ("C".to_owned(), "".to_owned()),
                ]
            );
        }
        other => panic!("{other:?}"),
    }
}

#[test]
fn bad_requests_are_answered_with_an_error_and_close() {
    let mut conn = Connection::new();
    conn.step(ConnEvent::Frame(Ok(request(&[]))));
    let actions = conn.step(ConnEvent::CwdChecked(false));
    assert_eq!(names(&actions), vec!["send Error", "close"]);
    assert_eq!(sent_error(&actions), "cwd is not a directory: `/work`");

    let mut conn = Connection::new();
    conn.step(ConnEvent::Frame(Ok(request(&["A=1", "novalue"]))));
    let actions = conn.step(ConnEvent::CwdChecked(true));
    assert_eq!(sent_error(&actions), "invalid env entry `novalue`: expected `KEY=VALUE`");

    let mut conn = Connection::new();
    let actions = conn.step(ConnEvent::Frame(Ok(Message::Stdin(vec![1]))));
    assert_eq!(sent_error(&actions), "expected a Request frame, got Stdin");
    assert_eq!(conn.stage, ConnStage::Closed);

    let mut conn = Connection::new();
    let actions = conn.step(ConnEvent::Frame(Err(DecodeError::NonEmptyRequestVersion(3))));
    assert_eq!(sent_error(&actions), "non-empty `RequestVersion` payload: 3 bytes");
}

#[test]
fn version_probe_is_answered_without_a_child() {
    let mut conn = Connection::new();
    let actions = conn.step(ConnEvent::Frame(Ok(Message::RequestVersion)));
    assert_eq!(
        names(&actions),
        vec!["send ServerVersion", "log debug version probe served", "close"]
    );
    match &actions[0] {
        ConnAction::Send(Message::ServerVersion(msg)) => assert_eq!(msg.version, CURRENT_VERSION),
        other => panic!("{other:?}"),
    }
}

#[test]
fn reserved_version_frame_is_ignored_wherever_it_arrives() {
    let version = || Message::Version(VersionMsg { version: "9".to_owned() });
    let mut conn = Connection::new();
    assert_eq!(conn.step(ConnEvent::Frame(Ok(version()))).len(), 0);
    assert_eq!(conn.stage, ConnStage::First);
    let mut conn = bridged();
    assert_eq!(conn.step(ConnEvent::Frame(Ok(version()))).len(), 0);
    assert_eq!(conn.stage, ConnStage::Bridging);
}

#[test]
fn spawn_failures_map_to_codes_and_errors() {
    for (fault, code) in [(SpawnFault::NotFound, 127u8), (SpawnFault::PermissionDenied, 126)] {
        let mut conn = Connection::new();
        conn.step(ConnEvent::Frame(Ok(request(&[]))));
        conn.step(ConnEvent::CwdChecked(true));
        let actions = conn.step(ConnEvent::SpawnFailed(fault));
        assert_eq!(names(&actions), vec!["send Exit", "close"]);
        match &actions[0] {
            ConnAction::Send(Message::Exit(exit)) => {
                assert_eq!(*exit, Exit { code: Some(code), signal: None })
            }
            other => panic!("{other:?}"),
        }
    }
    let mut conn = Connection::new();
    conn.step(ConnEvent::Frame(Ok(request(&[]))));
    conn.step(ConnEvent::CwdChecked(true));
    let actions = conn.step(ConnEvent::SpawnFailed(SpawnFault::Other("no memory".to_owned())));
    assert_eq!(sent_error(&actions), "failed to spawn `sh`: no memory");
}

#[test]
fn bridge_relays_both_ways_until_the_status() {
    let mut conn = bridged();
    assert_eq!(
        names(&conn.step(ConnEvent::Output(Pipe::Stdout, vec![1, 2]))),
        vec!["relay Stdout"]
    );
    assert_eq!(names(&conn.step(ConnEvent::Output(Pipe::Stderr, vec![3]))), vec!["relay Stderr"]);
    assert_eq!(
        names(&conn.step(ConnEvent::Frame(Ok(Message::Stdin(vec![9; 4]))))),
        vec!["write 4"]
    );
    assert_eq!(
        names(&conn.step(ConnEvent::Frame(Ok(Message::Signal(SignalMsg { signal: 2 }))))),
        vec!["kill 2"]
    );
    assert_eq!(names(&conn.step(ConnEvent::OutputEnd)), vec!["wait"]);
    let actions = conn.step(ConnEvent::Exited { code: Some(7), signal: None });
    assert_eq!(names(&actions), vec!["send Exit", "close"]);
    match &actions[0] {
        ConnAction::Send(Message::Exit(exit)) => {
            assert_eq!(*exit, Exit { code: Some(7), signal: None })
        }
        other => panic!("{other:?}"),
    }
    assert_eq!(conn.stage, ConnStage::Closed);
}

#[test]
fn death_by_signal_is_reported_as_such() {
    let mut conn = bridged();
    conn.step(ConnEvent::OutputEnd);
    match &conn.step(ConnEvent::Exited { code: None, signal: Some(9) })[0] {
        ConnAction::Send(Message::Exit(exit)) => {
            assert_eq!(*exit, Exit { code: None, signal: Some(9) })
        }
        other => panic!("{other:?}"),
    }
}

#[test]
fn stdin_end_is_no_disconnect() {
    let mut conn = bridged();
    assert_eq!(
        names(&conn.step(ConnEvent::Frame(Ok(Message::Stdin(vec![]))))),
        vec!["close stdin"]
    );
    assert!(!conn.stdin_open);
    assert_eq!(conn.stage, ConnStage::Bridging);
    assert_eq!(conn.step(ConnEvent::Frame(Ok(Message::Stdin(vec![1])))).len(), 0);
    assert_eq!(
        names(&conn.step(ConnEvent::Frame(Ok(Message::Signal(SignalMsg { signal: 15 }))))),
        vec!["kill 15"]
    );
}

#[test]
fn lost_client_terms_the_group_and_is_reaped() {
    let mut conn = bridged();
    assert_eq!(names(&conn.step(ConnEvent::SendFailed)), vec!["kill quietly 15", "reap"]);
    assert_eq!(conn.stage, ConnStage::Reaping);
    assert_eq!(names(&conn.step(ConnEvent::Reaped)), vec!["close"]);

    let mut conn = bridged();
    let actions = conn.step(ConnEvent::Frame(Err(DecodeError::UnknownFrameType(0xff))));
    assert_eq!(names(&actions), vec!["send Error", "kill quietly 15", "reap"]);
    assert_eq!(sent_error(&actions), "unknown frame tag: `0xff`");
}

#[test]
fn closed_write_half_is_end_of_file_and_the_child_finishes() {
    let mut conn = bridged();
    assert_eq!(names(&conn.step(ConnEvent::ClientClosed)), vec!["close stdin"]);
    assert!(!conn.client_open);
    assert_eq!(conn.stage, ConnStage::Bridging);
    assert_eq!(
        names(&conn.step(ConnEvent::Output(Pipe::Stdout, b"done\n".to_vec()))),
        vec!["relay Stdout"]
    );
    conn.step(ConnEvent::OutputEnd);
    let actions = conn.step(ConnEvent::Exited { code: Some(0), signal: None });
    assert_eq!(names(&actions), vec!["send Exit", "close"]);
}

#[test]
fn client_that_leaves_before_its_first_frame_is_forgotten() {
    let mut conn = Connection::new();
    assert_eq!(names(&conn.step(ConnEvent::ClientClosed)), vec!["close"]);
    assert_eq!(conn.stage, ConnStage::Closed);
}

#[test]
fn shutdown_is_announced_and_the_group_gets_its_term() {
    let mut conn = Connection::new();
    assert_eq!(names(&conn.step(ConnEvent::Stopping)), vec!["send ServerStopping", "close"]);
    let mut conn = bridged();
    assert_eq!(
        names(&conn.step(ConnEvent::Stopping)),
        vec!["send ServerStopping", "kill quietly 15"]
    );
    assert!(!conn.stopping_open);
    assert_eq!(conn.stage, ConnStage::Bridging);
}

#[test]
fn failed_signal_is_a_warning_and_no_frame() {
    let mut conn = bridged();
    let actions = conn.step(ConnEvent::KillFailed {
        pgid: 77,
        signal: 200,
        cause: "Invalid argument".to_owned(),
    });
    assert_eq!(actions.len(), 1);
    match &actions[0] {
        ConnAction::Log(level, text) => {
            assert_eq!(*level, LogLevel::Warning);
            assert_eq!(text, "kill(-77, 200): Invalid argument");
        }
        other => panic!("{other:?}"),
    }
    assert_eq!(conn.stage, ConnStage::Bridging);
}

#[test]
fn unknowable_status_is_an_error_frame() {
    let mut conn = bridged();
    conn.step(ConnEvent::OutputEnd);
    let actions = conn.step(ConnEvent::WaitFailed("gone".to_owned()));
    assert_eq!(sent_error(&actions), "failed to wait for `sh`: gone");
    assert_eq!(names(&actions)[1], "close");
}

#[test]
fn levels_order_and_spell() {
    let all = [LogLevel::Debug, LogLevel::Info, LogLevel::Warning, LogLevel::Error];
    for (i, level) in all.iter().enumerate() {
        assert_eq!(LogLevel::parse(level.name()), Some(*level));
        for (j, severity) in all.iter().enumerate() {
            assert_eq!(level.admits(*severity), i <= j);
        }
    }
    for word in ["verbose", "Warning", "warn", "debug ", ""] {
        assert_eq!(LogLevel::parse(word), None);
    }
}

#[test]
fn log_lines_are_stamped_and_filtered() {
    let entry = LogEntry { level: LogLevel::Warning, message: "odd".to_owned() };
    assert_eq!(log_line(LogLevel::Debug, 1700000000, &entry).unwrap(), "[1700000000] odd\n");
    assert_eq!(log_line(LogLevel::Warning, 0, &entry).unwrap(), "[0] odd\n");
    assert_eq!(log_line(LogLevel::Error, 0, &entry), None);
    assert_eq!(accept_failed("EMFILE").message, "accept failed: EMFILE");
    assert_eq!(accept_failed("EMFILE").level, LogLevel::Error);
}

fn run() -> ServerRun {
    let (run, entry, action) = ServerRun::start("/run/s".to_owned(), 12, 10);
    assert_eq!(entry.message, "server starting on socket `/run/s` (pid 12)");
    assert!(matches!(action, RunAction::Probe));
    run
}

#[test]
fn live_socket_refuses_the_startup() {
    let mut r = run();
    let (lines, action) = r.step(RunEvent::Probed { present: true, connectable: true });
    assert!(lines.is_empty());
    match action {
        RunAction::Fail(message) => {
            assert_eq!(message, "socket `/run/s` is owned by a live server")
        }
        other => panic!("{other:?}"),
    }
    assert_eq!(r.stage, RunStage::Stopped);
}

#[test]
fn stale_socket_is_removed_and_the_bind_follows() {
    let mut r = run();
    let (_, action) = r.step(RunEvent::Probed { present: true, connectable: false });
    assert!(matches!(action, RunAction::Clear));
    let (_, action) = r.step(RunEvent::Cleared(Ok(())));
    assert!(matches!(action, RunAction::Bind));
    let mut r = run();
    r.step(RunEvent::Probed { present: true, connectable: false });
    let (_, action) = r.step(RunEvent::Cleared(Err("EPERM".to_owned())));
    assert!(matches!(action, RunAction::Fail(cause) if cause == "EPERM"));
}

#[test]
fn run_goes_from_bind_to_drain_to_end() {
    let mut r = run();
    let (_, action) = r.step(RunEvent::Probed { present: false, connectable: false });
    assert!(matches!(action, RunAction::Bind));
    let (lines, action) = r.step(RunEvent::Bound(Ok(())));
    assert_eq!(lines[0].message, "server listening on socket `/run/s`");
    assert!(matches!(action, RunAction::Serve));
    let (lines, action) = r.step(RunEvent::Signalled(HostSignal::Terminate));
    assert_eq!(lines[0].message, "SIGTERM received; notifying live connections");
    assert_eq!(lines[1].message, "draining connections within 10s");
    assert!(matches!(action, RunAction::Drain(10)));
    let (_, action) = r.step(RunEvent::Drained);
    match action {
        RunAction::Finish(entry) => assert_eq!(entry.message, "socket removed; server stopped"),
        other => panic!("{other:?}"),
    }
    assert_eq!(r.stage, RunStage::Stopped);
}

#[test]
fn bind_failure_ends_the_run() {
    let mut r = run();
    r.step(RunEvent::Probed { present: false, connectable: false });
    let (_, action) = r.step(RunEvent::Bound(Err("in use".to_owned())));
    assert!(matches!(action, RunAction::Fail(cause) if cause == "in use"));
}

#[test]
fn error_frame_from_a_client_is_no_request() {
    let mut conn = Connection::new();
    let actions =
        conn.step(ConnEvent::Frame(Ok(Message::Error(ErrorMsg { message: "x".to_owned() }))));
    assert_eq!(sent_error(&actions), "expected a Request frame, got Error");
}
