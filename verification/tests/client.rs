//! The client: the request's environment, exit codes, and the session.

use nix_capsule::client::{
    apply_entry, build_env, build_request, exit_outcome, report, ClientError, HostSignal, Outcome,
    Session, SessionAction, SessionEvent, SessionStage, Stream,
};
use nix_capsule::environment::Environment;
use nix_capsule::protocol::{
    DecodeError, EncodeError, ErrorMsg, Exit, Message, Request, SignalMsg, VersionMsg,
};

fn owned(items: &[&str]) -> Vec<String> {
    items.iter().map(|item| item.to_string()).collect()
}

fn env_of(pairs: &[(&str, &str)]) -> Environment {
    Environment::new(pairs.iter().map(|(k, v)| (k.to_string(), v.to_string())).collect())
}

#[test]
fn build_env_resolves_omits_and_dedups() {
    let cases: Vec<(&[&str], Option<&str>, &[(&str, &str)], &[&str])> = vec![
        (&["K=V"], None, &[], &["K=V"]),
        (&["K"], None, &[("K", "host")], &["K=host"]),
        (&["K"], None, &[], &[]),
        (&["K="], None, &[], &["K="]),
        (&["K=a=b"], None, &[], &["K=a=b"]),
        (&[], Some(r#"["K"]"#), &[("K", "host")], &["K=host"]),
        (&[], Some(r#"["K"]"#), &[], &[]),
        (&[], Some("[]"), &[("K", "host")], &[]),
        (&[], None, &[("K", "host")], &[]),
        (&["K=cli"], Some(r#"["K"]"#), &[("K", "host")], &["K=cli"]),
        (&["K=first", "K=second"], None, &[], &["K=second"]),
        (
            &["A=cli", "B=flag"],
            Some(r#"["A", "B", "C"]"#),
            &[("A", "host"), ("B", "host"), ("C", "host")],
            &["A=cli", "B=flag", "C=host"],
        ),
    ];
    for (cli, forward, host, expected) in cases {
        let merged = build_env(&owned(cli), forward, &env_of(host)).expect("merge succeeds");
        assert_eq!(merged, owned(expected));
    }
}

#[test]
fn last_flag_decides_for_its_own_key() {
    let host = env_of(&[("A", "host"), ("B", "host"), ("C", "host")]);
    let flags = owned(&["A=one", "B", "A=two", "D=x", "UNSET"]);
    let merged = build_env(&flags, Some(r#"["C","A","MISSING"]"#), &host).unwrap();
    assert_eq!(merged, owned(&["C=host", "A=two", "B=host", "D=x"]));
}

#[test]
fn malformed_forward_is_an_error() {
    for forward in ["not json", r#"{"a": 1}"#, r#"["K", 1]"#] {
        let err = build_env(&vec![], Some(forward), &env_of(&[])).expect_err("malformed errors");
        assert!(err.message().contains("NCAP_ENV_FORWARD"), "error={}", err.message());
    }
}

#[test]
fn empty_key_flag_is_an_error() {
    let cases: [(&[&str], &str); 4] = [
        (&["=V"], "`--env` `=V`"),
        (&["="], "`--env` `=`"),
        (&[""], "`--env` ``"),
        (&["=V", "K=V"], "empty key"),
    ];
    for (cli, expected) in cases {
        let err = build_env(&owned(cli), None, &env_of(&[])).expect_err("empty key errors");
        assert!(err.message().contains(expected), "error={}", err.message());
    }
}

#[test]
fn request_names_program_directory_and_environment() {
    let request = build_request(
        Some("/work".to_owned()),
        Err("unused".to_owned()),
        &owned(&["K=V"]),
        &owned(&["cargo", "build", "--release"]),
        Some(r#"["HOME"]"#),
        &env_of(&[("HOME", "/root")]),
    )
    .unwrap();
    assert_eq!(
        request,
        Request {
            command: "cargo".to_owned(),
            args: owned(&["build", "--release"]),
            cwd: "/work".to_owned(),
            env: owned(&["HOME=/root", "K=V"]),
        }
    );
}

#[test]
fn request_needs_a_directory_from_somewhere() {
    let here = build_request(
        None,
        Ok("/here".to_owned()),
        &vec![],
        &owned(&["true"]),
        None,
        &env_of(&[]),
    );
    assert_eq!(here.unwrap().cwd, "/here");
    let lost = build_request(
        None,
        Err("gone".to_owned()),
        &vec![],
        &owned(&["true"]),
        None,
        &env_of(&[]),
    );
    assert_eq!(
        lost.unwrap_err().message(),
        "cannot resolve the current directory: gone"
    );
}

fn session() -> Session {
    Session::new(
        "/run/ncap.sock".to_owned(),
        Request {
            command: "sh".to_owned(),
            args: owned(&["-c", "exit 42"]),
            cwd: "/".to_owned(),
            env: vec![],
        },
    )
}

fn streaming() -> Session {
    let mut s = session();
    match s.step(SessionEvent::Connected) {
        SessionAction::Send(Message::Request(request)) => assert_eq!(request.command, "sh"),
        other => panic!("expected the request, got {other:?}"),
    }
    s
}

fn finished(action: SessionAction) -> (i32, Option<String>) {
    match action {
        SessionAction::Finish(result) => report(result),
        other => panic!("expected the end, got {other:?}"),
    }
}

#[test]
fn exit_code_forwarded_custom() {
    let mut s = streaming();
    let action =
        s.step(SessionEvent::Frame(Ok(Message::Exit(Exit { code: Some(42), signal: None }))));
    assert_eq!(finished(action), (42, None));
    assert_eq!(s.stage, SessionStage::Done);
}

#[test]
fn terminal_frames_map_to_exit_codes() {
    let cases: Vec<(Message, i32, Option<&str>)> = vec![
        (Message::Exit(Exit { code: Some(0), signal: None }), 0, None),
        (Message::Exit(Exit { code: Some(255), signal: None }), 255, None),
        (Message::Exit(Exit { code: None, signal: Some(9) }), 137, None),
        (Message::Exit(Exit { code: None, signal: Some(15) }), 143, None),
        (
            Message::Exit(Exit { code: Some(127), signal: None }),
            127,
            Some("sh: command not found"),
        ),
        (
            Message::Exit(Exit { code: Some(126), signal: None }),
            126,
            Some("sh: permission denied"),
        ),
        (
            Message::Exit(Exit { code: None, signal: None }),
            1,
            Some("`Exit` frame carries neither `code` nor `signal`"),
        ),
        (
            Message::Error(ErrorMsg { message: "boom".to_owned() }),
            1,
            Some("server error: boom"),
        ),
        (Message::ServerStopping, 143, None),
    ];
    for (message, code, notice) in cases {
        let mut s = streaming();
        let action = s.step(SessionEvent::Frame(Ok(message)));
        assert_eq!(finished(action), (code, notice.map(str::to_owned)));
    }
}

#[test]
fn close_without_terminal_frame_is_a_shutdown() {
    let mut s = streaming();
    let action = s.step(SessionEvent::Closed);
    assert_eq!(finished(action), (143, None));
}

#[test]
fn garbled_traffic_is_a_transport_failure() {
    let mut s = streaming();
    let action = s.step(SessionEvent::Frame(Err(DecodeError::UnknownFrameType(0xff))));
    assert_eq!(
        finished(action),
        (1, Some("cannot read a frame from the socket: unknown frame tag: `0xff`".to_owned()))
    );
}

#[test]
fn connect_failure_names_the_socket_and_suggests_init() {
    let mut s = session();
    let (code, message) = finished(s.step(SessionEvent::ConnectFailed("refused".to_owned())));
    assert_eq!(code, 1);
    assert_eq!(
        message.unwrap(),
        "cannot connect to socket `/run/ncap.sock`: refused\nrun `ncap-ctl init` to start this project's container"
    );
}

#[test]
fn other_failures_come_without_the_advice() {
    for (event, text) in [
        (
            SessionEvent::HandlerFailed(HostSignal::Interrupt, "no".to_owned()),
            "cannot install the `SIGINT` handler: no",
        ),
        (
            SessionEvent::HandlerFailed(HostSignal::Terminate, "no".to_owned()),
            "cannot install the `SIGTERM` handler: no",
        ),
        (
            SessionEvent::WriteFailed(Stream::Stdout, "full".to_owned()),
            "cannot write to stdout: full",
        ),
        (
            SessionEvent::WriteFailed(Stream::Stderr, "full".to_owned()),
            "cannot write to stderr: full",
        ),
        (
            SessionEvent::SendFailed(EncodeError::Write { source: "pipe".to_owned() }),
            "cannot send a frame to the socket: pipe",
        ),
    ] {
        let mut s = streaming();
        assert_eq!(finished(s.step(event)), (1, Some(text.to_owned())));
    }
}

#[test]
fn output_and_stdin_pass_through_verbatim() {
    let mut s = streaming();
    match s.step(SessionEvent::Frame(Ok(Message::Stdout(vec![0, 255])))) {
        SessionAction::Write(Stream::Stdout, bytes) => assert_eq!(bytes, vec![0, 255]),
        other => panic!("{other:?}"),
    }
    match s.step(SessionEvent::Frame(Ok(Message::Stderr(vec![10])))) {
        SessionAction::Write(Stream::Stderr, bytes) => assert_eq!(bytes, vec![10]),
        other => panic!("{other:?}"),
    }
    match s.step(SessionEvent::Stdin(vec![1, 2])) {
        SessionAction::Send(Message::Stdin(bytes)) => assert_eq!(bytes, vec![1, 2]),
        other => panic!("{other:?}"),
    }
    match s.step(SessionEvent::StdinEnd) {
        SessionAction::SendAnyway(Message::Stdin(bytes)) => assert!(bytes.is_empty()),
        other => panic!("{other:?}"),
    }
    assert!(!s.stdin_open);
    assert_eq!(s.stage, SessionStage::Streaming);
}

#[test]
fn connecting_leaves_every_source_open() {
    let mut s = streaming();
    assert!(s.stdin_open && s.sigint_open && s.sigterm_open);
    match s.step(SessionEvent::Stdin(b"hi".to_vec())) {
        SessionAction::Send(Message::Stdin(bytes)) => assert_eq!(bytes, b"hi"),
        other => panic!("{other:?}"),
    }
    s.step(SessionEvent::Frame(Ok(Message::Stdout(b"out".to_vec()))));
    assert!(s.stdin_open && s.sigint_open && s.sigterm_open);
}

#[test]
fn an_entry_is_set_in_place_or_at_the_end() {
    let pair = |k: &str, v: &str| (k.to_owned(), v.to_owned());
    let mut entries = vec![pair("A", "1"), pair("B", "2")];
    apply_entry(&mut entries, "A", "3".to_owned());
    apply_entry(&mut entries, "C", "4".to_owned());
    assert_eq!(entries, vec![pair("A", "3"), pair("B", "2"), pair("C", "4")]);
}

#[test]
fn each_host_signal_becomes_one_frame() {
    let mut s = streaming();
    for _ in 0..3 {
        match s.step(SessionEvent::Raised(HostSignal::Interrupt)) {
            SessionAction::Send(Message::Signal(SignalMsg { signal })) => assert_eq!(signal, 2),
            other => panic!("{other:?}"),
        }
    }
    match s.step(SessionEvent::Raised(HostSignal::Terminate)) {
        SessionAction::Send(Message::Signal(SignalMsg { signal })) => assert_eq!(signal, 15),
        other => panic!("{other:?}"),
    }
    assert!(matches!(s.step(SessionEvent::SignalEnd(HostSignal::Interrupt)), SessionAction::Wait));
    assert!(!s.sigint_open);
    assert!(s.sigterm_open);
}

#[test]
fn reserved_and_client_only_frames_are_ignored() {
    let mut s = streaming();
    for message in [
        Message::Version(VersionMsg { version: "9".to_owned() }),
        Message::ServerVersion(VersionMsg { version: "9".to_owned() }),
        Message::Stdin(vec![1]),
        Message::RequestVersion,
        Message::Signal(SignalMsg { signal: 1 }),
    ] {
        assert!(matches!(s.step(SessionEvent::Frame(Ok(message))), SessionAction::Wait));
        assert_eq!(s.stage, SessionStage::Streaming);
    }
}

#[test]
fn outcomes_keep_their_notice() {
    let outcome = exit_outcome(&Exit { code: Some(127), signal: None }, "nope").unwrap();
    assert_eq!(outcome, Outcome { code: 127, notice: Some("nope: command not found".to_owned()) });
    assert_eq!(
        exit_outcome(&Exit { code: None, signal: None }, "x"),
        Err(ClientError::MissingExitStatus)
    );
}
