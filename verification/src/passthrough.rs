//! What running a command through the socket keeps: the two ends put
//! together. A frame that one end sends is taken to be the one the other end
//! gets, as [`crate::codec`] has it.

use vstd::prelude::*;

use crate::client::{
    applied, flag_model, flagged, forwarded, is_exit_outcome, key_index, law_later_entry_wins,
    merged, rendered, session_step, ClientError, FlagModel, HostSignal, Outcome, Session,
    SessionAction, SessionEvent, Stream,
};
use crate::connection::{
    byte_exit, conn_step, env_plan, ActionModel, ConnModel, ConnStage, EventModel, Pipe,
};
use crate::protocol::{Message, MessageModel};
use crate::text;

verus! {

/// The frame that carries a chunk from one of the child's pipes.
pub open spec fn chunk(pipe: Pipe, bytes: Seq<u8>) -> MessageModel {
    match pipe {
        Pipe::Stdout => MessageModel::Stdout(bytes),
        Pipe::Stderr => MessageModel::Stderr(bytes),
    }
}

/// The client's own stream for one of the child's pipes.
pub open spec fn stream_of(pipe: Pipe) -> Stream {
    match pipe {
        Pipe::Stdout => Stream::Stdout,
        Pipe::Stderr => Stream::Stderr,
    }
}

/// Every chunk that the child writes is relayed as it is, and the client
/// writes the same bytes to the stream of the same name.
pub proof fn law_output_reaches_the_caller(
    conn: ConnModel,
    pipe: Pipe,
    bytes: Seq<u8>,
    before: Session,
    message: Message,
    after: Session,
    action: SessionAction,
)
    requires
        conn.stage == ConnStage::Bridging,
        message@ == chunk(pipe, bytes),
        session_step(before, SessionEvent::Frame(Ok(message)), after, action),
    ensures
        conn_step(conn, EventModel::Output(pipe, bytes)) == (
            conn,
            seq![ActionModel::Relay(chunk(pipe, bytes))],
        ),
        action matches SessionAction::Write(stream, out) && stream == stream_of(pipe) && out@
            == bytes,
        after.unchanged(before),
{
}

/// Every chunk of host stdin becomes one frame, and the server writes the
/// same bytes to the child; the end of host stdin is the child's end of file,
/// with the connection left open.
pub proof fn law_stdin_reaches_the_child(
    before: Session,
    bytes: Vec<u8>,
    after: Session,
    action: SessionAction,
    conn: ConnModel,
)
    requires
        session_step(before, SessionEvent::Stdin(bytes), after, action),
        conn.stage == ConnStage::Bridging,
        conn.stdin_open,
        bytes@.len() > 0,
    ensures
        action matches SessionAction::Send(message) && message@ == MessageModel::Stdin(bytes@),
        conn_step(conn, EventModel::Frame(MessageModel::Stdin(bytes@))) == (
            conn,
            seq![ActionModel::WriteStdin(bytes@)],
        ),
        conn_step(conn, EventModel::Frame(MessageModel::Stdin(Seq::empty()))).1 == seq![
            ActionModel::CloseStdin,
        ],
{
}

/// Each host signal that the client relays is delivered to the child's whole
/// group under the same number.
pub proof fn law_signal_reaches_the_group(
    before: Session,
    signal: HostSignal,
    after: Session,
    action: SessionAction,
    conn: ConnModel,
)
    requires
        session_step(before, SessionEvent::Raised(signal), after, action),
        conn.stage == ConnStage::Bridging,
    ensures
        action matches SessionAction::Send(message) && message@ == MessageModel::Signal(
            signal.number(),
        ),
        conn_step(conn, EventModel::Frame(MessageModel::Signal(signal.number()))) == (
            conn,
            seq![ActionModel::Kill(signal.number())],
        ),
{
}

/// The child's exit code is the client's, for every code a process can have;
/// death by a signal shows as 128 and its number.
pub proof fn law_status_reaches_the_caller(
    conn: ConnModel,
    number: i32,
    command: Seq<char>,
    r: Result<Outcome, ClientError>,
    killed: Result<Outcome, ClientError>,
)
    requires
        conn.stage == ConnStage::Waiting,
        conn.request is Some,
        0 <= number <= 255,
        is_exit_outcome(byte_exit(Some(number), None), command, r),
        is_exit_outcome(byte_exit(None, Some(number)), command, killed),
    ensures
        conn_step(conn, EventModel::Exited { code: Some(number), signal: None }).1[0]
            == ActionModel::Send(MessageModel::Exit(byte_exit(Some(number), None))),
        r is Ok && r->Ok_0.code == number,
        conn_step(conn, EventModel::Exited { code: None, signal: Some(number) }).1[0]
            == ActionModel::Send(MessageModel::Exit(byte_exit(None, Some(number)))),
        killed is Ok && killed->Ok_0.code == 128 + number,
{
}

/// The request arrives as it was sent, and its command, arguments and
/// working directory are those of the child.
pub proof fn law_request_becomes_the_child(
    before: Session,
    after: Session,
    action: SessionAction,
    conn: ConnModel,
)
    requires
        session_step(before, SessionEvent::Connected, after, action),
        conn.stage == ConnStage::First,
        env_plan(before.request@.env) is Ok,
    ensures
        ({
            let request = before.request@;
            let (checking, asked) = conn_step(
                conn,
                EventModel::Frame(MessageModel::Request(request)),
            );
            let (spawning, actions) = conn_step(checking, EventModel::CwdChecked(true));
            &&& action matches SessionAction::Send(message) && message@ == MessageModel::Request(
                request,
            )
            &&& asked.last() == ActionModel::CheckCwd(request.cwd)
            &&& spawning.stage == ConnStage::Spawning
            &&& actions == seq![
                ActionModel::Spawn {
                    command: request.command,
                    args: request.args,
                    cwd: request.cwd,
                    env: env_plan(request.env)->Ok_0,
                },
            ]
        }),
{
}

/// No key holds an equals sign.
pub open spec fn keys_plain(entries: Seq<(Seq<char>, Seq<char>)>) -> bool {
    forall|i: int, j: int|
        0 <= i < entries.len() && 0 <= j < entries[i].0.len() ==> #[trigger] entries[i].0[j] != '='
}

/// Rendered entries with plain keys are taken apart again into themselves.
proof fn lemma_rendered_reads_back(entries: Seq<(Seq<char>, Seq<char>)>)
    requires
        keys_plain(entries),
    ensures
        env_plan(rendered(entries)) == Ok::<Seq<(Seq<char>, Seq<char>)>, Seq<char>>(entries),
    decreases entries.len(),
{
    let lines = rendered(entries);
    if entries.len() == 0 {
        assert(entries =~= Seq::empty());
    } else {
        let front = entries.drop_last();
        assert(keys_plain(front)) by {
            assert forall|i: int, j: int|
                0 <= i < front.len() && 0 <= j < front[i].0.len() implies #[trigger] front[i].0[j]
                != '=' by {
                assert(front[i] == entries[i]);
                assert(entries[i].0[j] != '=');
            }
        }
        lemma_rendered_reads_back(front);
        assert(lines.drop_last() =~= rendered(front));
        let (key, value) = entries.last();
        let line = lines.last();
        reveal_strlit("=");
        assert(line == key + "="@ + value);
        assert forall|j: int| 0 <= j < key.len() implies line[j] != '=' by {
            assert(entries[entries.len() - 1].0[j] != '=');
        }
        text::lemma_first_index_is(line, '=', key.len() as int);
        assert(line.take(key.len() as int) =~= key);
        assert(line.skip(key.len() as int + 1) =~= value);
        assert(front.push((key, value)) =~= entries);
    }
}

proof fn lemma_applied_plain(
    entries: Seq<(Seq<char>, Seq<char>)>,
    key: Seq<char>,
    value: Seq<char>,
)
    requires
        keys_plain(entries),
        forall|j: int| 0 <= j < key.len() ==> #[trigger] key[j] != '=',
    ensures
        keys_plain(applied(entries, key, value)),
{
    let after = applied(entries, key, value);
    let at = key_index(entries, key);
    law_later_entry_wins(entries, key, value);
    assert forall|i: int, j: int|
        0 <= i < after.len() && 0 <= j < after[i].0.len() implies #[trigger] after[i].0[j]
        != '=' by {
        if i < entries.len() && i != at {
            assert(after[i] == entries[i]);
            assert(entries[i].0[j] != '=');
        } else {
            assert(i == at);
            assert(key[j] != '=');
        }
    }
}

/// The names that are set hold no equals sign, as in every process
/// environment.
pub open spec fn names_plain(vars: Map<Seq<char>, Seq<char>>) -> bool {
    forall|name: Seq<char>, j: int|
        vars.contains_key(name) && 0 <= j < name.len() ==> #[trigger] name[j] != '='
}

proof fn lemma_forwarded_plain(names: Seq<Seq<char>>, vars: Map<Seq<char>, Seq<char>>)
    requires
        names_plain(vars),
    ensures
        keys_plain(forwarded(names, vars)),
    decreases names.len(),
{
    if names.len() > 0 {
        lemma_forwarded_plain(names.drop_last(), vars);
        let name = names.last();
        if vars.contains_key(name) {
            lemma_applied_plain(forwarded(names.drop_last(), vars), name, vars[name]);
        }
    }
}

proof fn lemma_flagged_plain(
    entries: Seq<(Seq<char>, Seq<char>)>,
    flags: Seq<Seq<char>>,
    vars: Map<Seq<char>, Seq<char>>,
)
    requires
        keys_plain(entries),
        names_plain(vars),
    ensures
        flagged(entries, flags, vars) matches Ok(out) ==> keys_plain(out),
    decreases flags.len(),
{
    if flags.len() > 0 {
        lemma_flagged_plain(entries, flags.drop_last(), vars);
        let flag = flags.last();
        if let Ok(before) = flagged(entries, flags.drop_last(), vars) {
            if let FlagModel::Entry(key, value) = flag_model(flag, vars) {
                text::lemma_first_index(flag, '=');
                assert forall|j: int| 0 <= j < key.len() implies #[trigger] key[j] != '=' by {
                    assert(key[j] == flag[j]);
                }
                lemma_applied_plain(before, key, value);
            }
        }
    }
}

/// The variables of a request are never refused by the server, and they are
/// set in the child exactly as the client merged them.
pub proof fn law_variables_reach_the_child(
    names: Seq<Seq<char>>,
    flags: Seq<Seq<char>>,
    vars: Map<Seq<char>, Seq<char>>,
)
    requires
        names_plain(vars),
    ensures
        merged(names, flags, vars) matches Ok(entries) ==> env_plan(rendered(entries)) == Ok::<
            Seq<(Seq<char>, Seq<char>)>,
            Seq<char>,
        >(entries),
{
    lemma_forwarded_plain(names, vars);
    lemma_flagged_plain(forwarded(names, vars), flags, vars);
    if let Ok(entries) = merged(names, flags, vars) {
        lemma_rendered_reads_back(entries);
    }
}

} // verus!
