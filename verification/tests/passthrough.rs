//! The two ends together: a client session and a server connection, each
//! frame of one handed to the other over the wire form.

use bytes::BytesMut;
use nix_capsule::client::{
    build_request, report, HostSignal, Session, SessionAction, SessionEvent, Stream,
};
use nix_capsule::connection::{ConnAction, ConnEvent, Connection, Pipe};
use nix_capsule::environment::Environment;
use nix_capsule::protocol::{Body, Exit, FrameCodec, FrameType, Message, Request, SignalMsg};

fn env_of(pairs: &[(&str, &str)]) -> Environment {
    Environment::new(pairs.iter().map(|(k, v)| (k.to_string(), v.to_string())).collect())
}

/// Over the wire and back, with the value of the payload at hand.
fn carried(message: Message) -> Message {
    let body = match &message {
        Message::Request(request) => Body::Request(request.clone()),
        Message::Exit(exit) => Body::Exit(*exit),
        Message::Error(err) => Body::Error(err.clone()),
        Message::Version(msg) => Body::Version(msg.clone()),
        Message::ServerVersion(msg) => Body::Version(msg.clone()),
        Message::Signal(msg) => Body::Signal(*msg),
        _ => Body::Raw,
    };
    let mut wire = BytesMut::new();
    let frame = message.into_frame().unwrap();
    FrameCodec.encode_if_room(frame, &mut wire).expect("room").unwrap();
    let frame = FrameCodec.decode(&mut wire).unwrap().unwrap();
    Message::from_frame(frame, Ok(body)).unwrap()
}

fn sent(action: SessionAction) -> Message {
    match action {
        SessionAction::Send(message) => carried(message),
        SessionAction::SendAnyway(message) => carried(message),
        other => panic!("expected a frame, got {other:?}"),
    }
}

struct Pair {
    session: Session,
    conn: Connection,
}

fn connected(request: Request) -> Pair {
    let mut session = Session::new("/s".to_owned(), request.clone());
    let mut conn = Connection::new();
    let message = sent(session.step(SessionEvent::Connected));
    let actions = conn.step(ConnEvent::Frame(Ok(message)));
    assert!(matches!(&actions[1], ConnAction::CheckCwd(dir) if *dir == request.cwd));
    let actions = conn.step(ConnEvent::CwdChecked(true));
    match &actions[0] {
        ConnAction::Spawn(plan) => {
            assert_eq!(plan.command, request.command);
            assert_eq!(plan.args, request.args);
            assert_eq!(plan.cwd, request.cwd);
            let entries: Vec<String> =
                plan.env.iter().map(|(name, value)| format!("{name}={value}")).collect();
            assert_eq!(entries, request.env);
        }
        other => panic!("{other:?}"),
    }
    conn.step(ConnEvent::Spawned);
    Pair { session, conn }
}

fn sample() -> Request {
    build_request(
        Some("/work dir".to_owned()),
        Ok("/elsewhere".to_owned()),
        &vec!["A=1".to_owned(), "B=x=y".to_owned(), "HOME".to_owned(), "A=2".to_owned()],
        &vec!["cat".to_owned(), "-".to_owned(), "".to_owned()],
        Some(r#"["LANG", "NOPE"]"#),
        &env_of(&[("HOME", "/root"), ("LANG", "C=UTF")]),
    )
    .unwrap()
}

#[test]
fn request_and_variables_reach_the_child() {
    let request = sample();
    assert_eq!(request.env, vec!["LANG=C=UTF", "A=2", "B=x=y", "HOME=/root"]);
    connected(request);
}

#[test]
fn bytes_pass_both_ways_unchanged() {
    let mut pair = connected(sample());
    let bytes: Vec<u8> = (0..=255).collect();
    let message = sent(pair.session.step(SessionEvent::Stdin(bytes.clone())));
    match &pair.conn.step(ConnEvent::Frame(Ok(message)))[0] {
        ConnAction::WriteStdin(written) => assert_eq!(*written, bytes),
        other => panic!("{other:?}"),
    }
    for (pipe, stream) in [(Pipe::Stdout, Stream::Stdout), (Pipe::Stderr, Stream::Stderr)] {
        let relayed = match pair.conn.step(ConnEvent::Output(pipe, bytes.clone())).remove(0) {
            ConnAction::Relay(message) => carried(message),
            other => panic!("{other:?}"),
        };
        match pair.session.step(SessionEvent::Frame(Ok(relayed))) {
            SessionAction::Write(to, written) => {
                assert_eq!(to, stream);
                assert_eq!(written, bytes);
            }
            other => panic!("{other:?}"),
        }
    }
    let message = sent(pair.session.step(SessionEvent::StdinEnd));
    assert!(matches!(
        pair.conn.step(ConnEvent::Frame(Ok(message)))[0],
        ConnAction::CloseStdin
    ));
}

#[test]
fn signals_keep_their_number() {
    let mut pair = connected(sample());
    for (signal, number) in [(HostSignal::Interrupt, 2u8), (HostSignal::Terminate, 15)] {
        let message = sent(pair.session.step(SessionEvent::Raised(signal)));
        assert_eq!(message, Message::Signal(SignalMsg { signal: number }));
        match pair.conn.step(ConnEvent::Frame(Ok(message)))[0] {
            ConnAction::Kill(sent) => assert_eq!(sent, number),
            _ => panic!("expected the signal"),
        }
    }
}

#[test]
fn every_status_reaches_the_caller() {
    for number in 0..=255i32 {
        for killed in [false, true] {
            let mut pair = connected(sample());
            pair.conn.step(ConnEvent::OutputEnd);
            let event = if killed {
                ConnEvent::Exited { code: None, signal: Some(number) }
            } else {
                ConnEvent::Exited { code: Some(number), signal: None }
            };
            let message = match pair.conn.step(event).remove(0) {
                ConnAction::Send(message) => carried(message),
                other => panic!("{other:?}"),
            };
            let code = match pair.session.step(SessionEvent::Frame(Ok(message))) {
                SessionAction::Finish(result) => report(result).0,
                other => panic!("{other:?}"),
            };
            assert_eq!(code, if killed { 128 + number } else { number });
        }
    }
}

#[test]
fn shutdown_ends_both_sides() {
    let mut pair = connected(sample());
    let mut actions = pair.conn.step(ConnEvent::Stopping);
    assert!(matches!(actions[1], ConnAction::KillQuietly(15)));
    let message = match actions.remove(0) {
        ConnAction::Send(message) => carried(message),
        other => panic!("{other:?}"),
    };
    match pair.session.step(SessionEvent::Frame(Ok(message))) {
        SessionAction::Finish(result) => assert_eq!(report(result), (143, None)),
        other => panic!("{other:?}"),
    }
}

#[test]
fn body_must_match_its_frame() {
    let exit = Message::Exit(Exit { code: Some(1), signal: None });
    assert_eq!(exit.frame_type(), FrameType::Exit);
    assert_eq!(carried(exit.clone()), exit);
}
