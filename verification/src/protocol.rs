//! Wire protocol: frame types, typed payloads, and their text.
//!
//! Every frame is one tag byte, a 4-byte big-endian payload length, then the
//! payload. Struct frames carry JSON; stream frames carry raw bytes.

use vstd::prelude::*;
use vstd::utf8::encode_utf8;

pub use crate::codec::FrameCodec;
use crate::json;
use crate::number;
use crate::text::views;

verus! {

/// 16 MiB.
pub const MAX_PAYLOAD: usize = 16 * 1024 * 1024;

/// The version both ends of the socket speak, as the package carries it.
pub const CURRENT_VERSION: &'static str = "0.1.0";

/// Each byte value is part of the protocol.
#[derive(Debug, Clone, Copy, PartialEq, Eq, Structural)]
pub enum FrameType {
    /// Client to server: run this command.
    Request,
    /// Client to server: stdin bytes for the child.
    Stdin,
    /// Server to client: stdout bytes from the child.
    Stdout,
    /// Server to client: stderr bytes from the child.
    Stderr,
    /// Server to client: the child's terminal status.
    Exit,
    /// Server to client: failure without an exit status.
    Error,
    /// Server to client: orderly shutdown notice.
    ServerStopping,
    /// Reserved: sent by no one; a receiver ignores it wherever it arrives.
    Version,
    /// Client to server: forwarded host signal.
    Signal,
    /// Client to server: opens the version probe; exactly 0 bytes.
    RequestVersion,
    /// Server to client: the server's version, as the probe's reply.
    ServerVersion,
}

impl FrameType {
    /// The wire tag of each type.
    pub open spec fn tag(self) -> u8 {
        match self {
            FrameType::Request => 0x01,
            FrameType::Stdin => 0x02,
            FrameType::Stdout => 0x03,
            FrameType::Stderr => 0x04,
            FrameType::Exit => 0x05,
            FrameType::Error => 0x06,
            FrameType::ServerStopping => 0x07,
            FrameType::Version => 0x08,
            FrameType::Signal => 0x09,
            FrameType::RequestVersion => 0x0A,
            FrameType::ServerVersion => 0x0B,
        }
    }

    /// `None` for unknown tags.
    pub fn from_u8(b: u8) -> (r: Option<Self>)
        ensures
            match r {
                Some(t) => t.tag() == b,
                None => forall|t: FrameType| t.tag() != b,
            },
    {
        match b {
            0x01 => Some(FrameType::Request),
            0x02 => Some(FrameType::Stdin),
            0x03 => Some(FrameType::Stdout),
            0x04 => Some(FrameType::Stderr),
            0x05 => Some(FrameType::Exit),
            0x06 => Some(FrameType::Error),
            0x07 => Some(FrameType::ServerStopping),
            0x08 => Some(FrameType::Version),
            0x09 => Some(FrameType::Signal),
            0x0A => Some(FrameType::RequestVersion),
            0x0B => Some(FrameType::ServerVersion),
            _ => None,
        }
    }

    /// The wire tag byte.
    pub fn to_byte(self) -> (b: u8)
        ensures
            b == self.tag(),
    {
        match self {
            FrameType::Request => 0x01,
            FrameType::Stdin => 0x02,
            FrameType::Stdout => 0x03,
            FrameType::Stderr => 0x04,
            FrameType::Exit => 0x05,
            FrameType::Error => 0x06,
            FrameType::ServerStopping => 0x07,
            FrameType::Version => 0x08,
            FrameType::Signal => 0x09,
            FrameType::RequestVersion => 0x0A,
            FrameType::ServerVersion => 0x0B,
        }
    }

    /// What `name` says.
    pub open spec fn title(self) -> Seq<char> {
        match self {
            FrameType::Request => "Request"@,
            FrameType::Stdin => "Stdin"@,
            FrameType::Stdout => "Stdout"@,
            FrameType::Stderr => "Stderr"@,
            FrameType::Exit => "Exit"@,
            FrameType::Error => "Error"@,
            FrameType::ServerStopping => "ServerStopping"@,
            FrameType::Version => "Version"@,
            FrameType::Signal => "Signal"@,
            FrameType::RequestVersion => "RequestVersion"@,
            FrameType::ServerVersion => "ServerVersion"@,
        }
    }

    /// The type's name, for people.
    pub fn name(self) -> (out: &'static str)
        ensures
            out@ == self.title(),
    {
        match self {
            FrameType::Request => "Request",
            FrameType::Stdin => "Stdin",
            FrameType::Stdout => "Stdout",
            FrameType::Stderr => "Stderr",
            FrameType::Exit => "Exit",
            FrameType::Error => "Error",
            FrameType::ServerStopping => "ServerStopping",
            FrameType::Version => "Version",
            FrameType::Signal => "Signal",
            FrameType::RequestVersion => "RequestVersion",
            FrameType::ServerVersion => "ServerVersion",
        }
    }
}

/// No two frame types share a tag.
pub proof fn law_tags_are_distinct(a: FrameType, b: FrameType)
    ensures
        a.tag() == b.tag() ==> a == b,
{
}

/// A wire frame: tag, big-endian length, raw payload.
#[derive(Debug)]
pub struct Frame {
    /// Decoded tag byte.
    pub frame_type: FrameType,
    /// JSON for struct frames, raw bytes for stream frames.
    pub payload: Vec<u8>,
}

/// A frame as a mathematical value.
#[verifier::ext_equal]
pub struct FrameModel {
    pub frame_type: FrameType,
    pub payload: Seq<u8>,
}

impl View for Frame {
    type V = FrameModel;

    open spec fn view(&self) -> FrameModel {
        FrameModel { frame_type: self.frame_type, payload: self.payload@ }
    }
}

/// Client to server: the command to run inside the container.
#[derive(Debug, Clone, PartialEq, Eq)]
pub struct Request {
    /// Executable, not a shell line.
    pub command: String,
    /// Argv after the executable.
    pub args: Vec<String>,
    /// Working directory for the child.
    pub cwd: String,
    /// `KEY=VALUE` entries applied by the server over its environment.
    pub env: Vec<String>,
}

/// A request as a mathematical value.
#[verifier::ext_equal]
pub struct RequestModel {
    pub command: Seq<char>,
    pub args: Seq<Seq<char>>,
    pub cwd: Seq<char>,
    pub env: Seq<Seq<char>>,
}

impl View for Request {
    type V = RequestModel;

    open spec fn view(&self) -> RequestModel {
        RequestModel {
            command: self.command@,
            args: views(self.args@),
            cwd: self.cwd@,
            env: views(self.env@),
        }
    }
}

/// Exactly one field is set in practice.
#[derive(Debug, Clone, Copy, PartialEq, Eq, Structural)]
pub struct Exit {
    /// On normal termination.
    pub code: Option<u8>,
    /// On death by signal.
    pub signal: Option<u8>,
}

/// Server to client: the connection failed without an exit status.
#[derive(Debug, Clone, PartialEq, Eq)]
pub struct ErrorMsg {
    /// Human-readable failure description.
    pub message: String,
}

/// The version probe's reply payload shape, and the reserved `Version`
/// frame's payload (carried only so receivers can ignore it).
#[derive(Debug, Clone, PartialEq, Eq)]
pub struct VersionMsg {
    /// Sender's protocol version.
    pub version: String,
}

/// A host-shell signal forwarded toward the child.
#[derive(Debug, Clone, Copy, PartialEq, Eq, Structural)]
pub struct SignalMsg {
    /// POSIX signal number (e.g. 2, 9, 15).
    pub signal: u8,
}

/// A typed message carried by a [`Frame`].
#[derive(Debug, Clone, PartialEq, Eq)]
pub enum Message {
    /// Client to server: the request to run a command.
    Request(Request),
    /// Client to server: raw stdin bytes for the child.
    Stdin(Vec<u8>),
    /// Server to client: raw stdout bytes from the child.
    Stdout(Vec<u8>),
    /// Server to client: raw stderr bytes from the child.
    Stderr(Vec<u8>),
    /// Server to client: the child's terminal status.
    Exit(Exit),
    /// Server to client: failure without an exit status.
    Error(ErrorMsg),
    /// Server to client: the server is shutting down. Empty payload.
    ServerStopping,
    /// Reserved: sent by no one; carried only so a receiver can ignore it.
    Version(VersionMsg),
    /// Client to server: a forwarded host signal.
    Signal(SignalMsg),
    /// Client to server: opens the version probe. Empty payload.
    RequestVersion,
    /// Server to client: the server's version, as the probe's reply.
    ServerVersion(VersionMsg),
}

/// A message as a mathematical value.
#[verifier::ext_equal]
pub enum MessageModel {
    Request(RequestModel),
    Stdin(Seq<u8>),
    Stdout(Seq<u8>),
    Stderr(Seq<u8>),
    Exit(Exit),
    Error(Seq<char>),
    ServerStopping,
    Version(Seq<char>),
    Signal(u8),
    RequestVersion,
    ServerVersion(Seq<char>),
}

impl View for Message {
    type V = MessageModel;

    open spec fn view(&self) -> MessageModel {
        match self {
            Message::Request(m) => MessageModel::Request(m@),
            Message::Stdin(b) => MessageModel::Stdin(b@),
            Message::Stdout(b) => MessageModel::Stdout(b@),
            Message::Stderr(b) => MessageModel::Stderr(b@),
            Message::Exit(m) => MessageModel::Exit(*m),
            Message::Error(m) => MessageModel::Error(m.message@),
            Message::ServerStopping => MessageModel::ServerStopping,
            Message::Version(m) => MessageModel::Version(m.version@),
            Message::Signal(m) => MessageModel::Signal(m.signal),
            Message::RequestVersion => MessageModel::RequestVersion,
            Message::ServerVersion(m) => MessageModel::ServerVersion(m.version@),
        }
    }
}

impl MessageModel {
    /// The frame type that carries the message.
    pub open spec fn frame_type(self) -> FrameType {
        match self {
            MessageModel::Request(_) => FrameType::Request,
            MessageModel::Stdin(_) => FrameType::Stdin,
            MessageModel::Stdout(_) => FrameType::Stdout,
            MessageModel::Stderr(_) => FrameType::Stderr,
            MessageModel::Exit(_) => FrameType::Exit,
            MessageModel::Error(_) => FrameType::Error,
            MessageModel::ServerStopping => FrameType::ServerStopping,
            MessageModel::Version(_) => FrameType::Version,
            MessageModel::Signal(_) => FrameType::Signal,
            MessageModel::RequestVersion => FrameType::RequestVersion,
            MessageModel::ServerVersion(_) => FrameType::ServerVersion,
        }
    }

    /// `Exit` with both fields set never travels.
    pub open spec fn is_sendable(self) -> bool {
        !(self matches MessageModel::Exit(exit) && exit.code is Some && exit.signal is Some)
    }

    /// The payload bytes of the message's frame.
    pub open spec fn payload(self) -> Seq<u8> {
        match self {
            MessageModel::Request(m) => encode_utf8(request_json(m)),
            MessageModel::Stdin(b) => b,
            MessageModel::Stdout(b) => b,
            MessageModel::Stderr(b) => b,
            MessageModel::Exit(m) => encode_utf8(exit_json(m)),
            MessageModel::Error(message) => encode_utf8(error_json(message)),
            MessageModel::ServerStopping => Seq::empty(),
            MessageModel::Version(version) => encode_utf8(version_json(version)),
            MessageModel::Signal(signal) => encode_utf8(signal_json(signal)),
            MessageModel::RequestVersion => Seq::empty(),
            MessageModel::ServerVersion(version) => encode_utf8(version_json(version)),
        }
    }

    /// The frame that carries the message.
    pub open spec fn frame(self) -> FrameModel {
        FrameModel { frame_type: self.frame_type(), payload: self.payload() }
    }
}

// ---------------------------------------------------------------------------
// JSON payloads
// ---------------------------------------------------------------------------

/// A request's fields in order, none left out.
pub open spec fn request_json(m: RequestModel) -> Seq<char> {
    "{\"command\":"@ + json::json_text(m.command) + ",\"args\":"@ + json::json_list(m.args)
        + ",\"cwd\":"@ + json::json_text(m.cwd) + ",\"env\":"@ + json::json_list(m.env) + "}"@
}

/// Only the fields that are set.
pub open spec fn exit_json(m: Exit) -> Seq<char> {
    match (m.code, m.signal) {
        (Some(code), Some(signal)) => "{\"code\":"@ + number::decimal(code as nat) + ",\"signal\":"@
            + number::decimal(signal as nat) + "}"@,
        (Some(code), None) => "{\"code\":"@ + number::decimal(code as nat) + "}"@,
        (None, Some(signal)) => "{\"signal\":"@ + number::decimal(signal as nat) + "}"@,
        (None, None) => "{}"@,
    }
}

/// The one field of an error.
pub open spec fn error_json(message: Seq<char>) -> Seq<char> {
    "{\"message\":"@ + json::json_text(message) + "}"@
}

/// The one field of a version.
pub open spec fn version_json(version: Seq<char>) -> Seq<char> {
    "{\"version\":"@ + json::json_text(version) + "}"@
}

/// The one field of a signal.
pub open spec fn signal_json(signal: u8) -> Seq<char> {
    "{\"signal\":"@ + number::decimal(signal as nat) + "}"@
}

/// The UTF-8 bytes of `text`.
fn bytes_of(text: &str) -> (out: Vec<u8>)
    ensures
        out@ == encode_utf8(text@),
{
    text.as_bytes_vec()
}

fn encode_request(m: &Request) -> (out: Vec<u8>)
    ensures
        out@ == encode_utf8(request_json(m@)),
{
    let mut text: String = String::new();
    text.append("{\"command\":");
    json::push_string(&mut text, m.command.as_str());
    text.append(",\"args\":");
    json::push_list(&mut text, &m.args);
    text.append(",\"cwd\":");
    json::push_string(&mut text, m.cwd.as_str());
    text.append(",\"env\":");
    json::push_list(&mut text, &m.env);
    text.append("}");
    proof {
        assert(text@ =~= request_json(m@));
    }
    bytes_of(text.as_str())
}

fn encode_exit(m: &Exit) -> (out: Vec<u8>)
    ensures
        out@ == encode_utf8(exit_json(*m)),
{
    let mut text: String = String::new();
    match (m.code, m.signal) {
        (Some(code), Some(signal)) => {
            text.append("{\"code\":");
            json::push_number(&mut text, code);
            text.append(",\"signal\":");
            json::push_number(&mut text, signal);
            text.append("}");
        },
        (Some(code), None) => {
            text.append("{\"code\":");
            json::push_number(&mut text, code);
            text.append("}");
        },
        (None, Some(signal)) => {
            text.append("{\"signal\":");
            json::push_number(&mut text, signal);
            text.append("}");
        },
        (None, None) => {
            text.append("{}");
        },
    }
    proof {
        assert(text@ =~= exit_json(*m));
    }
    bytes_of(text.as_str())
}

fn encode_error(message: &str) -> (out: Vec<u8>)
    ensures
        out@ == encode_utf8(error_json(message@)),
{
    let mut text: String = String::new();
    text.append("{\"message\":");
    json::push_string(&mut text, message);
    text.append("}");
    proof {
        assert(text@ =~= error_json(message@));
    }
    bytes_of(text.as_str())
}

fn encode_version(version: &str) -> (out: Vec<u8>)
    ensures
        out@ == encode_utf8(version_json(version@)),
{
    let mut text: String = String::new();
    text.append("{\"version\":");
    json::push_string(&mut text, version);
    text.append("}");
    proof {
        assert(text@ =~= version_json(version@));
    }
    bytes_of(text.as_str())
}

fn encode_signal(signal: u8) -> (out: Vec<u8>)
    ensures
        out@ == encode_utf8(signal_json(signal)),
{
    let mut text: String = String::new();
    text.append("{\"signal\":");
    json::push_number(&mut text, signal);
    text.append("}");
    proof {
        assert(text@ =~= signal_json(signal));
    }
    bytes_of(text.as_str())
}

// ---------------------------------------------------------------------------
// Messages and frames
// ---------------------------------------------------------------------------

/// What the JSON reader made of a frame's payload.
#[derive(Debug, Clone, PartialEq, Eq)]
pub enum Body {
    /// A stream frame or an empty frame: nothing to read.
    Raw,
    /// A `Request` payload.
    Request(Request),
    /// An `Exit` payload.
    Exit(Exit),
    /// An `Error` payload.
    Error(ErrorMsg),
    /// A `Version` or `ServerVersion` payload.
    Version(VersionMsg),
    /// A `Signal` payload.
    Signal(SignalMsg),
}

impl Body {
    /// The payload shape that a frame type carries.
    pub open spec fn fits(self, frame_type: FrameType) -> bool {
        match frame_type {
            FrameType::Request => self is Request,
            FrameType::Exit => self is Exit,
            FrameType::Error => self is Error,
            FrameType::Version | FrameType::ServerVersion => self is Version,
            FrameType::Signal => self is Signal,
            FrameType::Stdin | FrameType::Stdout | FrameType::Stderr | FrameType::ServerStopping
                | FrameType::RequestVersion => self is Raw,
        }
    }

    /// The struct value that `message` carries in its payload.
    pub open spec fn holds(self, message: MessageModel) -> bool {
        match message {
            MessageModel::Request(m) => self matches Body::Request(r) && r@ == m,
            MessageModel::Exit(m) => self == Body::Exit(m),
            MessageModel::Error(m) => self matches Body::Error(e) && e.message@ == m,
            MessageModel::Version(m) | MessageModel::ServerVersion(m) => self matches Body::Version(
                v,
            ) && v.version@ == m,
            MessageModel::Signal(m) => self matches Body::Signal(g) && g.signal == m,
            _ => self is Raw,
        }
    }
}

impl Message {
    /// The wire type of this message.
    pub fn frame_type(&self) -> (t: FrameType)
        ensures
            t == self@.frame_type(),
    {
        match self {
            Message::Request(_) => FrameType::Request,
            Message::Stdin(_) => FrameType::Stdin,
            Message::Stdout(_) => FrameType::Stdout,
            Message::Stderr(_) => FrameType::Stderr,
            Message::Exit(_) => FrameType::Exit,
            Message::Error(_) => FrameType::Error,
            Message::ServerStopping => FrameType::ServerStopping,
            Message::Version(_) => FrameType::Version,
            Message::Signal(_) => FrameType::Signal,
            Message::RequestVersion => FrameType::RequestVersion,
            Message::ServerVersion(_) => FrameType::ServerVersion,
        }
    }

    /// Fails if an `Exit` carries both `code` and `signal`, and only then.
    pub fn into_frame(self) -> (r: Result<Frame, EncodeError>)
        ensures
            self@.is_sendable() ==> r is Ok && r->Ok_0@ == self@.frame(),
            !self@.is_sendable() ==> r == Err::<Frame, EncodeError>(EncodeError::InvalidExit),
    {
        let frame_type = self.frame_type();
        let payload = match self {
            Message::Stdin(b) => b,
            Message::Stdout(b) => b,
            Message::Stderr(b) => b,
            Message::Request(m) => encode_request(&m),
            Message::Exit(m) => {
                // Neither field set stays valid: an unknowable status.
                if m.code.is_some() && m.signal.is_some() {
                    return Err(EncodeError::InvalidExit);
                }
                encode_exit(&m)
            },
            Message::Error(m) => encode_error(m.message.as_str()),
            Message::ServerStopping => Vec::new(),
            Message::Version(m) => encode_version(m.version.as_str()),
            Message::Signal(m) => encode_signal(m.signal),
            Message::RequestVersion => Vec::new(),
            Message::ServerVersion(m) => encode_version(m.version.as_str()),
        };
        Ok(Frame { frame_type, payload })
    }

    /// The message in `frame`, whose payload the JSON reader turned into
    /// `body` (or refused, with its reason). A stream frame is its own
    /// payload; `ServerStopping` and `RequestVersion` must come empty; an
    /// `Exit` must not set both fields.
    pub fn from_frame(frame: Frame, body: Result<Body, String>) -> (r: Result<Self, DecodeError>)
        requires
            body is Ok ==> body->Ok_0.fits(frame.frame_type),
        ensures
            frame_message(frame, body, r),
    {
        let size: usize = frame.payload.len();
        match frame.frame_type {
            FrameType::Stdin => return Ok(Message::Stdin(frame.payload)),
            FrameType::Stdout => return Ok(Message::Stdout(frame.payload)),
            FrameType::Stderr => return Ok(Message::Stderr(frame.payload)),
            FrameType::ServerStopping => {
                return if size > 0 {
                    Err(DecodeError::NonEmptyServerStopping(size))
                } else {
                    Ok(Message::ServerStopping)
                };
            },
            FrameType::RequestVersion => {
                return if size > 0 {
                    Err(DecodeError::NonEmptyRequestVersion(size))
                } else {
                    Ok(Message::RequestVersion)
                };
            },
            _ => {},
        }
        match body {
            Err(source) => Err(DecodeError::Json { source }),
            Ok(Body::Request(m)) => Ok(Message::Request(m)),
            Ok(Body::Exit(exit)) => {
                if exit.code.is_some() && exit.signal.is_some() {
                    Err(DecodeError::InvalidExit)
                } else {
                    Ok(Message::Exit(exit))
                }
            },
            Ok(Body::Error(m)) => Ok(Message::Error(m)),
            Ok(Body::Version(m)) => {
                if frame.frame_type == FrameType::Version {
                    Ok(Message::Version(m))
                } else {
                    Ok(Message::ServerVersion(m))
                }
            },
            Ok(Body::Signal(m)) => Ok(Message::Signal(m)),
            Ok(Body::Raw) => vstd::pervasive::unreached(),
        }
    }
}

/// What `from_frame` returns for each frame and reading of its payload.
pub open spec fn frame_message(
    frame: Frame,
    body: Result<Body, String>,
    r: Result<Message, DecodeError>,
) -> bool {
    match frame.frame_type {
        FrameType::Stdin => r == Ok::<Message, DecodeError>(Message::Stdin(frame.payload)),
        FrameType::Stdout => r == Ok::<Message, DecodeError>(Message::Stdout(frame.payload)),
        FrameType::Stderr => r == Ok::<Message, DecodeError>(Message::Stderr(frame.payload)),
        FrameType::ServerStopping => if frame.payload@.len() == 0 {
            r == Ok::<Message, DecodeError>(Message::ServerStopping)
        } else {
            r == Err::<Message, DecodeError>(
                DecodeError::NonEmptyServerStopping(frame.payload@.len() as usize),
            )
        },
        FrameType::RequestVersion => if frame.payload@.len() == 0 {
            r == Ok::<Message, DecodeError>(Message::RequestVersion)
        } else {
            r == Err::<Message, DecodeError>(
                DecodeError::NonEmptyRequestVersion(frame.payload@.len() as usize),
            )
        },
        _ => match body {
            Err(source) => r == Err::<Message, DecodeError>(DecodeError::Json { source }),
            Ok(Body::Request(m)) => r == Ok::<Message, DecodeError>(Message::Request(m)),
            Ok(Body::Exit(m)) => if m.code is Some && m.signal is Some {
                r == Err::<Message, DecodeError>(DecodeError::InvalidExit)
            } else {
                r == Ok::<Message, DecodeError>(Message::Exit(m))
            },
            Ok(Body::Error(m)) => r == Ok::<Message, DecodeError>(Message::Error(m)),
            Ok(Body::Version(m)) => if frame.frame_type == FrameType::Version {
                r == Ok::<Message, DecodeError>(Message::Version(m))
            } else {
                r == Ok::<Message, DecodeError>(Message::ServerVersion(m))
            },
            Ok(Body::Signal(m)) => r == Ok::<Message, DecodeError>(Message::Signal(m)),
            Ok(Body::Raw) => true,
        },
    }
}

/// A message that was written into a frame is the message read from that
/// frame, once the JSON reader hands back the struct that the payload was
/// written from.
pub proof fn law_message_reads_back(
    message: MessageModel,
    frame: Frame,
    body: Body,
    r: Result<Message, DecodeError>,
)
    requires
        message.is_sendable(),
        frame@ == message.frame(),
        body.holds(message),
        frame_message(frame, Ok(body), r),
    ensures
        r is Ok,
        r->Ok_0@ == message,
{
}

/// The message carries no JSON: a stream chunk, or nothing at all.
pub open spec fn is_raw(message: MessageModel) -> bool {
    match message {
        MessageModel::Stdin(_) | MessageModel::Stdout(_) | MessageModel::Stderr(_)
            | MessageModel::ServerStopping | MessageModel::RequestVersion => true,
        _ => false,
    }
}

/// A message without JSON that was written into a frame is the message read
/// from that frame, whatever a JSON reader would make of the payload.
pub proof fn law_raw_message_reads_back(
    message: MessageModel,
    frame: Frame,
    body: Result<Body, String>,
    r: Result<Message, DecodeError>,
)
    requires
        is_raw(message),
        frame@ == message.frame(),
        frame_message(frame, body, r),
    ensures
        r is Ok,
        r->Ok_0@ == message,
{
}

/// No frame reads as an `Exit` with both fields set, whatever its payload.
pub proof fn law_exit_never_carries_both(
    frame: Frame,
    body: Result<Body, String>,
    r: Result<Message, DecodeError>,
)
    requires
        body is Ok ==> body->Ok_0.fits(frame.frame_type),
        frame_message(frame, body, r),
    ensures
        r is Ok ==> r->Ok_0@.is_sendable(),
        r is Ok ==> r->Ok_0@.frame_type() == frame.frame_type,
{
}

// ---------------------------------------------------------------------------
// Errors
// ---------------------------------------------------------------------------

/// Failure while decoding a frame off the wire.
#[derive(Debug, Clone, PartialEq, Eq)]
pub enum DecodeError {
    /// The tag byte does not name a known frame.
    UnknownFrameType(u8),
    /// The declared payload length exceeds [`MAX_PAYLOAD`].
    PayloadTooLarge(usize),
    /// A JSON struct payload failed to parse; the reader's reason.
    Json {
        source: String,
    },
    /// `ServerStopping` arrived with a non-empty payload.
    NonEmptyServerStopping(usize),
    /// `Exit` sets both `code` and `signal`.
    InvalidExit,
    /// `RequestVersion` arrived with a non-empty payload.
    NonEmptyRequestVersion(usize),
    /// Reading a frame off the socket failed; the cause.
    Read {
        source: String,
    },
}

impl DecodeError {
    /// What `message` says.
    pub open spec fn text(self) -> Seq<char> {
        match self {
            DecodeError::UnknownFrameType(tag) => "unknown frame tag: `0x"@ + number::hex(tag as nat)
                + "`"@,
            DecodeError::PayloadTooLarge(n) => "frame declares a "@ + number::decimal(n as nat)
                + "-byte payload above the 16 MiB cap"@,
            DecodeError::Json { source } => "frame payload parse error: "@ + source@,
            DecodeError::NonEmptyServerStopping(n) => "non-empty `ServerStopping` payload: "@
                + number::decimal(n as nat) + " bytes"@,
            DecodeError::InvalidExit => "both `code` and `signal` set in `Exit` frame"@,
            DecodeError::NonEmptyRequestVersion(n) => "non-empty `RequestVersion` payload: "@
                + number::decimal(n as nat) + " bytes"@,
            DecodeError::Read { source } => source@,
        }
    }

    /// One line for people.
    pub fn message(&self) -> (out: String)
        ensures
            out@ == self.text(),
    {
        let mut out: String = String::new();
        match self {
            DecodeError::UnknownFrameType(tag) => {
                out.append("unknown frame tag: `0x");
                out.append(number::format_hex(*tag as u64).as_str());
                out.append("`");
            },
            DecodeError::PayloadTooLarge(n) => {
                out.append("frame declares a ");
                out.append(number::format_decimal(*n as u128).as_str());
                out.append("-byte payload above the 16 MiB cap");
            },
            DecodeError::Json { source } => {
                out.append("frame payload parse error: ");
                out.append(source.as_str());
            },
            DecodeError::NonEmptyServerStopping(n) => {
                out.append("non-empty `ServerStopping` payload: ");
                out.append(number::format_decimal(*n as u128).as_str());
                out.append(" bytes");
            },
            DecodeError::InvalidExit => {
                out.append("both `code` and `signal` set in `Exit` frame");
            },
            DecodeError::NonEmptyRequestVersion(n) => {
                out.append("non-empty `RequestVersion` payload: ");
                out.append(number::format_decimal(*n as u128).as_str());
                out.append(" bytes");
            },
            DecodeError::Read { source } => {
                out.append(source.as_str());
            },
        }
        proof {
            assert(out@ =~= self.text());
        }
        out
    }
}

/// Failure while encoding a frame onto the wire.
#[derive(Debug, Clone, PartialEq, Eq)]
pub enum EncodeError {
    /// The payload exceeds [`MAX_PAYLOAD`].
    PayloadTooLarge(usize),
    /// `Exit` sets both `code` and `signal`.
    InvalidExit,
    /// Writing a frame to the socket failed; the cause.
    Write {
        source: String,
    },
}

impl EncodeError {
    /// What `message` says.
    pub open spec fn text(self) -> Seq<char> {
        match self {
            EncodeError::PayloadTooLarge(n) => "frame payload above the 16 MiB cap: "@
                + number::decimal(n as nat) + " bytes"@,
            EncodeError::InvalidExit => "both `code` and `signal` set in `Exit` frame"@,
            EncodeError::Write { source } => source@,
        }
    }

    /// One line for people.
    pub fn message(&self) -> (out: String)
        ensures
            out@ == self.text(),
    {
        let mut out: String = String::new();
        match self {
            EncodeError::PayloadTooLarge(n) => {
                out.append("frame payload above the 16 MiB cap: ");
                out.append(number::format_decimal(*n as u128).as_str());
                out.append(" bytes");
            },
            EncodeError::InvalidExit => {
                out.append("both `code` and `signal` set in `Exit` frame");
            },
            EncodeError::Write { source } => {
                out.append(source.as_str());
            },
        }
        proof {
            assert(out@ =~= self.text());
        }
        out
    }
}

// ---------------------------------------------------------------------------
// The wire, value by value
// ---------------------------------------------------------------------------

/// The tags on the wire and the cap on a payload.
pub proof fn law_tags_and_cap()
    ensures
        FrameType::Request.tag() == 1,
        FrameType::Stdin.tag() == 2,
        FrameType::Stdout.tag() == 3,
        FrameType::Stderr.tag() == 4,
        FrameType::Exit.tag() == 5,
        FrameType::Error.tag() == 6,
        FrameType::ServerStopping.tag() == 7,
        FrameType::Version.tag() == 8,
        FrameType::Signal.tag() == 9,
        FrameType::RequestVersion.tag() == 10,
        FrameType::ServerVersion.tag() == 11,
        MAX_PAYLOAD == 16777216,
{
}

/// Every message travels in the frame of its own type: stream chunks byte for
/// byte, the rest as one JSON object, and what says all by its type with no
/// payload.
pub proof fn law_messages_on_the_wire(
    request: RequestModel,
    bytes: Seq<u8>,
    text: Seq<char>,
    n: u8,
)
    ensures
        MessageModel::Stdin(bytes).frame() == (FrameModel {
            frame_type: FrameType::Stdin,
            payload: bytes,
        }),
        MessageModel::Stdout(bytes).frame() == (FrameModel {
            frame_type: FrameType::Stdout,
            payload: bytes,
        }),
        MessageModel::Stderr(bytes).frame() == (FrameModel {
            frame_type: FrameType::Stderr,
            payload: bytes,
        }),
        MessageModel::ServerStopping.frame() == (FrameModel {
            frame_type: FrameType::ServerStopping,
            payload: Seq::empty(),
        }),
        MessageModel::RequestVersion.frame() == (FrameModel {
            frame_type: FrameType::RequestVersion,
            payload: Seq::empty(),
        }),
        MessageModel::Request(request).frame() == (FrameModel {
            frame_type: FrameType::Request,
            payload: encode_utf8(
                "{\"command\":"@ + json::json_text(request.command) + ",\"args\":"@
                    + json::json_list(request.args) + ",\"cwd\":"@ + json::json_text(request.cwd)
                    + ",\"env\":"@ + json::json_list(request.env) + "}"@,
            ),
        }),
        MessageModel::Error(text).frame() == (FrameModel {
            frame_type: FrameType::Error,
            payload: encode_utf8("{\"message\":"@ + json::json_text(text) + "}"@),
        }),
        MessageModel::Version(text).frame() == (FrameModel {
            frame_type: FrameType::Version,
            payload: encode_utf8("{\"version\":"@ + json::json_text(text) + "}"@),
        }),
        MessageModel::ServerVersion(text).frame() == (FrameModel {
            frame_type: FrameType::ServerVersion,
            payload: encode_utf8("{\"version\":"@ + json::json_text(text) + "}"@),
        }),
        MessageModel::Signal(n).frame() == (FrameModel {
            frame_type: FrameType::Signal,
            payload: encode_utf8("{\"signal\":"@ + number::decimal(n as nat) + "}"@),
        }),
{
}

/// An exit carries its code, or its signal, or neither, under these names;
/// one that carries both is never sent and never taken.
pub proof fn law_exit_carries_what_it_has(
    code: u8,
    signal: u8,
    frame: Frame,
    r: Result<Message, DecodeError>,
)
    ensures
        MessageModel::Exit(Exit { code: Some(code), signal: None }).payload() == encode_utf8(
            "{\"code\":"@ + number::decimal(code as nat) + "}"@,
        ),
        MessageModel::Exit(Exit { code: None, signal: Some(signal) }).payload() == encode_utf8(
            "{\"signal\":"@ + number::decimal(signal as nat) + "}"@,
        ),
        MessageModel::Exit(Exit { code: None, signal: None }).payload() == encode_utf8("{}"@),
        MessageModel::Exit(Exit { code: Some(code), signal: None }).is_sendable(),
        MessageModel::Exit(Exit { code: None, signal: Some(signal) }).is_sendable(),
        MessageModel::Exit(Exit { code: None, signal: None }).is_sendable(),
        !MessageModel::Exit(Exit { code: Some(code), signal: Some(signal) }).is_sendable(),
        frame.frame_type == FrameType::Exit && frame_message(
            frame,
            Ok(Body::Exit(Exit { code: Some(code), signal: Some(signal) })),
            r,
        ) ==> r == Err::<Message, DecodeError>(DecodeError::InvalidExit),
{
}

/// Everything but an exit with both fields can be sent.
pub proof fn law_only_a_double_exit_is_unsendable(message: MessageModel)
    ensures
        !(message is Exit) ==> message.is_sendable(),
{
}

/// A frame that does not read is refused for what is wrong with it: a payload
/// that does not parse with the parser's reason, and a payload where there
/// may be none with its size. Stream frames never fail.
pub proof fn law_bad_frames_are_refused(
    frame: Frame,
    cause: String,
    r: Result<Message, DecodeError>,
)
    requires
        frame_message(frame, Err(cause), r),
    ensures
        frame.frame_type == FrameType::ServerStopping && frame.payload@.len() > 0 ==> r == Err::<
            Message,
            DecodeError,
        >(DecodeError::NonEmptyServerStopping(frame.payload@.len() as usize)),
        frame.frame_type == FrameType::RequestVersion && frame.payload@.len() > 0 ==> r == Err::<
            Message,
            DecodeError,
        >(DecodeError::NonEmptyRequestVersion(frame.payload@.len() as usize)),
        frame.frame_type == FrameType::Stdin || frame.frame_type == FrameType::Stdout
            || frame.frame_type == FrameType::Stderr ==> r is Ok,
        frame.frame_type == FrameType::Request || frame.frame_type == FrameType::Exit
            || frame.frame_type == FrameType::Error || frame.frame_type == FrameType::Version
            || frame.frame_type == FrameType::Signal || frame.frame_type
            == FrameType::ServerVersion ==> r == Err::<Message, DecodeError>(
            DecodeError::Json { source: cause },
        ),
{
}

/// The frame types by name.
pub proof fn law_frame_types_by_name()
    ensures
        FrameType::Request.title() == "Request"@,
        FrameType::Stdin.title() == "Stdin"@,
        FrameType::Stdout.title() == "Stdout"@,
        FrameType::Stderr.title() == "Stderr"@,
        FrameType::Exit.title() == "Exit"@,
        FrameType::Error.title() == "Error"@,
        FrameType::ServerStopping.title() == "ServerStopping"@,
        FrameType::Version.title() == "Version"@,
        FrameType::Signal.title() == "Signal"@,
        FrameType::RequestVersion.title() == "RequestVersion"@,
        FrameType::ServerVersion.title() == "ServerVersion"@,
{
}

/// Something that is said between two texts is found in the whole.
proof fn lemma_said(front: Seq<char>, said: Seq<char>, back: Seq<char>, whole: Seq<char>)
    requires
        whole =~= front + said + back,
    ensures
        crate::text::occurs(whole, said),
{
    crate::text::law_occurrence_splits_the_text(front, said, back);
}

/// A frame that fails to decode says what came: the tag in hexadecimal, a
/// size in bytes, or the cause as it is.
pub proof fn law_decode_errors_say_what_came(tag: u8, n: usize, source: String)
    ensures
        crate::text::occurs(
            DecodeError::UnknownFrameType(tag).text(),
            "`0x"@ + number::hex(tag as nat) + "`"@,
        ),
        crate::text::occurs(
            DecodeError::PayloadTooLarge(n).text(),
            number::decimal(n as nat) + "-byte"@,
        ),
        crate::text::occurs(
            DecodeError::NonEmptyServerStopping(n).text(),
            number::decimal(n as nat) + " bytes"@,
        ),
        crate::text::occurs(
            DecodeError::NonEmptyRequestVersion(n).text(),
            number::decimal(n as nat) + " bytes"@,
        ),
        DecodeError::InvalidExit.text() == "both `code` and `signal` set in `Exit` frame"@,
        (DecodeError::Json { source }).text() == "frame payload parse error: "@ + source@,
        (DecodeError::Read { source }).text() == source@,
{
    let none = Seq::<char>::empty();
    assert("unknown frame tag: `0x"@ =~= "unknown frame tag: "@ + "`0x"@) by {
        reveal_strlit("unknown frame tag: `0x");
        reveal_strlit("unknown frame tag: ");
        reveal_strlit("`0x");
    }
    assert("-byte payload above the 16 MiB cap"@ =~= "-byte"@ + " payload above the 16 MiB cap"@)
        by {
        reveal_strlit("-byte payload above the 16 MiB cap");
        reveal_strlit("-byte");
        reveal_strlit(" payload above the 16 MiB cap");
    }
    let d = number::decimal(n as nat);
    let h = number::hex(tag as nat);
    lemma_said(
        "unknown frame tag: "@,
        "`0x"@ + h + "`"@,
        none,
        DecodeError::UnknownFrameType(tag).text(),
    );
    lemma_said(
        "frame declares a "@,
        d + "-byte"@,
        " payload above the 16 MiB cap"@,
        DecodeError::PayloadTooLarge(n).text(),
    );
    lemma_said(
        "non-empty `ServerStopping` payload: "@,
        d + " bytes"@,
        none,
        DecodeError::NonEmptyServerStopping(n).text(),
    );
    lemma_said(
        "non-empty `RequestVersion` payload: "@,
        d + " bytes"@,
        none,
        DecodeError::NonEmptyRequestVersion(n).text(),
    );
}

/// A frame that cannot be sent says how large it is, or the cause as it is.
pub proof fn law_encode_errors_say_what_went(n: usize, source: String)
    ensures
        crate::text::occurs(
            EncodeError::PayloadTooLarge(n).text(),
            number::decimal(n as nat) + " bytes"@,
        ),
        EncodeError::InvalidExit.text() == DecodeError::InvalidExit.text(),
        (EncodeError::Write { source }).text() == source@,
{
    lemma_said(
        "frame payload above the 16 MiB cap: "@,
        number::decimal(n as nat) + " bytes"@,
        Seq::empty(),
        EncodeError::PayloadTooLarge(n).text(),
    );
}

/// A message's model is of the same kind and keeps every field: a request its
/// command, arguments, directory and environment, a chunk its bytes, a status
/// its numbers, a text its characters.
pub proof fn law_message_models_keep_every_field(
    request: Request,
    bytes: Vec<u8>,
    exit: Exit,
    error: ErrorMsg,
    version: VersionMsg,
    signal: SignalMsg,
    frame: Frame,
)
    ensures
        Message::Request(request)@ == MessageModel::Request(request@),
        request@.command == request.command@,
        request@.args == views(request.args@),
        request@.cwd == request.cwd@,
        request@.env == views(request.env@),
        Message::Stdin(bytes)@ == MessageModel::Stdin(bytes@),
        Message::Stdout(bytes)@ == MessageModel::Stdout(bytes@),
        Message::Stderr(bytes)@ == MessageModel::Stderr(bytes@),
        Message::Exit(exit)@ == MessageModel::Exit(exit),
        Message::Error(error)@ == MessageModel::Error(error.message@),
        Message::ServerStopping@ == MessageModel::ServerStopping,
        Message::Version(version)@ == MessageModel::Version(version.version@),
        Message::Signal(signal)@ == MessageModel::Signal(signal.signal),
        Message::RequestVersion@ == MessageModel::RequestVersion,
        Message::ServerVersion(version)@ == MessageModel::ServerVersion(version.version@),
        frame@.frame_type == frame.frame_type,
        frame@.payload == frame.payload@,
{
}

} // verus!
