//! What holds of a client of the keeper, and of a keeper that is starting.
use vstd::prelude::*;
use vstd::utf8::{decode_utf8, encode_utf8, encode_utf8_decode_utf8, encode_utf8_valid_utf8, valid_utf8};

use crate::encoding::bytes_are_without;
use crate::ipc::{ClientMessage, KeeperFrame, KeeperMessage, KeeperStatus, LINE_END};
use crate::keeper::{as_line, chomped, client_step, command_for, end_text, exit_progress, frame_output, left_over, line_end, line_end_is_first, line_is_taken_as_written, relayed, round_progress, stderr_progress, stdout_progress, tells, ClientAction, ClientActionView, ClientEvent, ClientView, OutputStream, PipeRead, ProgressView, SpawnOutcome, Told, WaitOutcome, CARRIAGE_RETURN};
use crate::names::NameMap;
use crate::text::{blank, blank_text_trims_to_nothing, decimal, joined, texts, trimmed};
use crate::unix_path::lossy_text;

verus! {

/// A request for a process, from a client that waits, starts the process with
/// the arguments of the request, in order, and with its environment: the same
/// value under every name of it, and no other names.
pub proof fn process_is_started_as_requested(argv: Vec<String>, env: NameMap<String>)
    requires
        argv@.len() > 0,
    ensures
        ({
            let (next, action) = client_step(
                ClientView::Waiting,
                ClientEvent::Request(ClientMessage::Spawn { argv, env }),
            );
            &&& next is Starting
            &&& next->Starting_0.len() == argv@.len()
            &&& forall|i: int|
                0 <= i < argv@.len() ==> next->Starting_0[i] == (#[trigger] argv@[i])@
            &&& action is Spawn
            &&& action->Spawn_0.len() == argv@.len()
            &&& forall|i: int|
                0 <= i < argv@.len() ==> action->Spawn_0[i] == (#[trigger] argv@[i])@
            &&& forall|name: Seq<char>| #[trigger]
                action->Spawn_1.contains_key(name) <==> env.has(name)
            &&& forall|name: Seq<char>|
                env.has(name) ==> #[trigger] action->Spawn_1[name] == env.at(name)@
        }),
{
}

/// An action that is seen as the start of a process starts it with the
/// arguments and the environment that are seen.
pub proof fn seen_start_is_the_start(
    action: ClientAction,
    argv: Seq<Seq<char>>,
    env: Map<Seq<char>, Seq<char>>,
)
    requires
        action.seen_as(ClientActionView::Spawn(argv, env)),
    ensures
        action is Spawn,
        action->argv@.len() == argv.len(),
        forall|i: int| 0 <= i < argv.len() ==> (#[trigger] action->argv@[i])@ == argv[i],
        forall|name: Seq<char>| #[trigger] action->env.has(name) <==> env.contains_key(name),
        forall|name: Seq<char>|
            env.contains_key(name) ==> (#[trigger] action->env.at(name))@ == env[name],
{
    assert forall|i: int| 0 <= i < argv.len() implies (#[trigger] action->argv@[i])@
        == argv[i] by {
        assert(texts(action->argv@)[i] == argv[i]);
    }
    assert forall|name: Seq<char>| #[trigger] action->env.has(name) <==> env.contains_key(name) by {
        assert(action->env.text_map().contains_key(name) == env.contains_key(name));
    }
    assert forall|name: Seq<char>| env.contains_key(name) implies (#[trigger] action->env.at(
        name,
    ))@ == env[name] by {
        assert(action->env.text_map()[name] == env[name]);
    }
}

/// A process is started for nothing but a request of a client that waits.
pub proof fn only_a_request_starts_a_process(state: ClientView, event: ClientEvent)
    requires
        client_step(state, event).1 is Spawn,
    ensures
        state is Waiting,
        event is Request,
        event->Request_0 is Spawn,
{
}

/// A client that waits and does not ask for a process, or for one without a
/// program, is told so, and left.
pub proof fn bad_request_is_refused(request: ClientMessage)
    requires
        request is Spawn ==> request->argv@.len() == 0,
    ensures
        ({
            let (next, action) = client_step(ClientView::Waiting, ClientEvent::Request(request));
            &&& next is Done
            &&& action == ClientActionView::Send(
                Told::Error(
                    if request is Spawn {
                        "spawn argv is empty"@
                    } else {
                        "first runner message must be spawn"@
                    },
                ),
            )
        }),
{
}

/// A client is told that its process runs if it does, and then served with its
/// number; where the system refuses, the client is told the command and the
/// reason.
pub proof fn client_hears_how_the_start_went(argv: Seq<Seq<char>>, pid: u32, error: String)
    ensures
        ({
            let started = client_step(
                ClientView::Starting(argv),
                ClientEvent::Spawned(SpawnOutcome::Running(pid)),
            );
            let refused = client_step(
                ClientView::Starting(argv),
                ClientEvent::Spawned(SpawnOutcome::Refused(error)),
            );
            &&& pid <= i32::MAX ==> started == (
                ClientView::Serving(pid as i32),
                ClientActionView::Send(Told::Spawned),
            )
            &&& pid > i32::MAX ==> started.0 is Done && started.1 is Abandon
            &&& refused.0 is Done
            &&& refused.1 == ClientActionView::Send(
                Told::Error("failed to spawn "@ + joined(argv, " "@) + ": "@ + error@),
            )
        }),
{
}

/// A client that is served is told of the end of its process, and no other event
/// changes anything.
pub proof fn served_client_hears_of_the_end(pid: i32, event: ClientEvent)
    ensures
        event is Exited ==> client_step(ClientView::Serving(pid), event) == (
            ClientView::Done,
            ClientActionView::Send(Told::Exited),
        ),
        !(event is Exited) ==> client_step(ClientView::Serving(pid), event) == (
            ClientView::Serving(pid),
            ClientActionView::Nothing,
        ),
        client_step(ClientView::Done, event) == (ClientView::Done, ClientActionView::Nothing),
{
}

/// An event that does not belong to where the keeper is with a client changes
/// nothing.
pub proof fn other_events_change_nothing(state: ClientView, event: ClientEvent)
    requires
        match state {
            ClientView::Waiting => !(event is Request),
            ClientView::Starting(_) => !(event is Spawned),
            ClientView::Serving(_) => !(event is Exited),
            ClientView::Done => true,
        },
    ensures
        client_step(state, event) == (state, ClientActionView::Nothing),
{
}

/// A frame tells one thing only: that a process runs, that it has ended, or one
/// error.
pub proof fn frames_tell_one_thing(frame: KeeperFrame, told: Told, text: Seq<char>)
    requires
        tells(frame, told),
    ensures
        match told {
            Told::Spawned => frame == (KeeperFrame::KeeperMessage {
                message: KeeperMessage::ChildSpawned,
            }),
            Told::Exited => frame == (KeeperFrame::KeeperMessage {
                message: KeeperMessage::ChildExited,
            }),
            Told::Error(message) => {
                &&& frame is KeeperStatus
                &&& frame->status.error is Some
                &&& frame->status.error->Some_0@ == message
            },
        },
        tells(frame, Told::Error(text)) <==> told == Told::Error(text),
{
}

/// A line is left without the bytes that end lines at its end, and with all
/// others.
pub proof fn chomping_drops_line_ends_only(line: Seq<u8>)
    ensures
        chomped(line).is_prefix_of(line),
        chomped(line).len() > 0 ==> chomped(line).last() != LINE_END && chomped(line).last()
            != CARRIAGE_RETURN,
        forall|i: int|
            chomped(line).len() <= i < line.len() ==> #[trigger] line[i] == LINE_END || line[i]
                == CARRIAGE_RETURN,
    decreases line.len(),
{
    if line.len() > 0 && (line.last() == LINE_END || line.last() == CARRIAGE_RETURN) {
        let init = line.drop_last();
        chomping_drops_line_ends_only(init);
        assert forall|i: int| chomped(line).len() <= i < line.len() implies #[trigger] line[i]
            == LINE_END || line[i] == CARRIAGE_RETURN by {
            if i < init.len() {
                assert(init[i] == line[i]);
            }
        }
    }
}

/// The bytes that end lines are those of the line feed and of the carriage
/// return.
pub proof fn bytes_that_end_lines()
    ensures
        LINE_END == '\n' as u8,
        CARRIAGE_RETURN == '\r' as u8,
{
}

/// Once the keeper has put out a whole line, it is ready, with that line, and
/// what follows is kept; the line may have come in several portions.
pub proof fn first_line_makes_ready(
    heard: Seq<u8>,
    read: PipeRead,
    line: Seq<u8>,
    rest: Seq<u8>,
)
    requires
        read is Bytes,
        heard + read->Bytes_0@ == line.push(LINE_END) + rest,
        forall|i: int| 0 <= i < line.len() ==> #[trigger] line[i] != LINE_END,
        line.len() > 0 ==> line.last() != CARRIAGE_RETURN,
    ensures
        stdout_progress(heard, read) == ProgressView::Ready(line),
        left_over(heard, read) == rest,
{
    line_is_taken_as_written(line, rest);
}

/// As long as no line has ended, all that has been heard is kept, and there is
/// more to be heard.
pub proof fn no_line_no_decision(heard: Seq<u8>, read: PipeRead)
    requires
        !(read is Failed),
        forall|i: int|
            0 <= i < (heard + read.bytes()).len() ==> #[trigger] (heard + read.bytes())[i]
                != LINE_END,
    ensures
        stdout_progress(heard, read) is Continue,
        stderr_progress(heard, read) is Continue,
        left_over(heard, read) == heard + read.bytes(),
        read is Bytes ==> read.bytes() == read->Bytes_0@,
        read is WouldBlock ==> left_over(heard, read) == heard,
{
    let all = heard + read.bytes();
    line_end_is_first(all);
    if read is WouldBlock {
        assert(all =~= heard);
    }
}

/// A pipe that cannot be read ends the handshake.
pub proof fn unreadable_pipe_fails(heard: Seq<u8>)
    ensures
        stdout_progress(heard, PipeRead::Failed) is Failed,
        stderr_progress(heard, PipeRead::Failed) is Failed,
{
}

/// A first line of complaints ends the handshake with its text, unless it is
/// blank; what follows is kept.
pub proof fn first_complaint_fails(
    heard: Seq<u8>,
    read: PipeRead,
    line: Seq<u8>,
    rest: Seq<u8>,
)
    requires
        read is Bytes,
        heard + read->Bytes_0@ == line.push(LINE_END) + rest,
        forall|i: int| 0 <= i < line.len() ==> #[trigger] line[i] != LINE_END,
        line.len() > 0 ==> line.last() != CARRIAGE_RETURN,
    ensures
        stderr_progress(heard, read) == (if blank(lossy_text(line)) {
            ProgressView::Continue
        } else {
            ProgressView::Failed(trimmed(lossy_text(line)))
        }),
        left_over(heard, read) == rest,
{
    line_is_taken_as_written(line, rest);
    blank_text_trims_to_nothing(lossy_text(line));
}

/// A keeper tells of an error if and only if it names one.
pub proof fn status_tells_its_error(status: KeeperStatus, message: KeeperMessage)
    ensures
        status.error_text() is Some <==> status.error is Some,
        status.error is Some ==> status.error_text() == Some(status.error->Some_0@),
        message.output() is Some <==> message is ChildStdout || message is ChildStderr,
        message matches KeeperMessage::ChildStdout { data } ==> message.output() == Some(data@),
        message matches KeeperMessage::ChildStderr { data } ==> message.output() == Some(data@),
{
}

/// The output of a keeper decides a round; its complaints are heard only where the
/// output leaves the handshake open.
pub proof fn output_decides_the_round(
    out: Seq<u8>,
    err: Seq<u8>,
    stdout: Option<PipeRead>,
    stderr: Option<PipeRead>,
)
    ensures
        stdout matches Some(read) ==> !(stdout_progress(out, read) is Continue) ==> round_progress(
            out,
            err,
            stdout,
            stderr,
        ) == stdout_progress(out, read),
        stdout matches Some(read) ==> stdout_progress(out, read) is Continue ==> round_progress(
            out,
            err,
            stdout,
            stderr,
        ) == round_progress(out, err, None, stderr),
        stderr matches Some(read) ==> round_progress(out, err, None, stderr) == stderr_progress(
            err,
            read,
        ),
        round_progress(out, err, None, None) is Continue,
{
}

/// A keeper that has ended was ready if it had put out a line; else its complaint
/// is told, or the way in which it ended where it has not complained.
pub proof fn ended_keeper_is_heard_out(out: Seq<u8>, err: Seq<u8>, status: Seq<char>)
    ensures
        out.contains(LINE_END) <==> exit_progress(out, err, status) is Ready,
        !out.contains(LINE_END) ==> exit_progress(out, err, status) == ProgressView::Failed(
            if blank(lossy_text(err)) {
                "runner keeper exited before handshake with status "@ + status
            } else {
                trimmed(lossy_text(err))
            },
        ),
{
    line_end_is_first(out);
    blank_text_trims_to_nothing(lossy_text(err));
    if out.contains(LINE_END) {
        let i = out.index_of(LINE_END);
        if line_end(out) == out.len() {
            assert(out[i] != LINE_END);
        }
    } else if line_end(out) < out.len() {
        assert(out[line_end(out)] == LINE_END);
    }
}

/// The line of a keeper that has ended is what it would have been while it ran.
pub proof fn last_line_counts(line: Seq<u8>, rest: Seq<u8>, err: Seq<u8>, status: Seq<char>)
    requires
        forall|i: int| 0 <= i < line.len() ==> #[trigger] line[i] != LINE_END,
        line.len() > 0 ==> line.last() != CARRIAGE_RETURN,
    ensures
        exit_progress(line.push(LINE_END) + rest, err, status) == ProgressView::Ready(line),
{
    line_is_taken_as_written(line, rest);
}

/// What a keeper that fails puts out is heard as the reason of its failure.
pub proof fn fatal_line_is_heard(message: Seq<char>, read: PipeRead)
    requires
        read is Bytes,
        read->Bytes_0@ == as_line(message),
        forall|i: int| 0 <= i < message.len() ==> #[trigger] message[i] != '\n',
        message.len() > 0 ==> encode_utf8(message).last() != CARRIAGE_RETURN,
    ensures
        stderr_progress(Seq::empty(), read) == (if blank(lossy_text(encode_utf8(message))) {
            ProgressView::Continue
        } else {
            ProgressView::Failed(trimmed(lossy_text(encode_utf8(message))))
        }),
{
    let line = encode_utf8(message);
    bytes_are_without(message, '\n');
    assert(Seq::<u8>::empty() + read->Bytes_0@ =~= line.push(LINE_END) + Seq::<u8>::empty());
    if message.len() == 0 {
        assert(line.len() == 0);
    }
    first_complaint_fails(Seq::empty(), read, line, Seq::empty());
}

/// The end of the keeper is a success if and only if it ended with the status
/// zero; and what is told of another end names the status or the signal.
pub proof fn end_of_the_keeper(code: i32, signal: String, shown: String)
    ensures
        end_text(WaitOutcome::Exited(code)) is None <==> code == 0,
        code != 0 ==> end_text(WaitOutcome::Exited(code)) == Some(
            "runner keeper child exited with status "@ + decimal(code as int),
        ),
        end_text(WaitOutcome::Signaled(signal)) == Some(
            "runner keeper child terminated by signal "@ + signal@,
        ),
        end_text(WaitOutcome::Other(shown)) == Some(
            "runner keeper child ended unexpectedly: "@ + shown@,
        ),
{
}

/// A text that a client sends reaches the process as its bytes; a request to stop
/// goes to the group of the process, which the negative number stands for; and
/// there is no second process.
pub proof fn commands_reach_the_process(message: ClientMessage, pid: int)
    ensures
        match message {
            ClientMessage::Stdin { data } => {
                &&& command_for(message, pid) is Write
                &&& valid_utf8(command_for(message, pid)->Write_0)
                &&& decode_utf8(command_for(message, pid)->Write_0) == data@
            },
            ClientMessage::Stop => {
                &&& command_for(message, pid) is Terminate
                &&& command_for(message, pid)->Terminate_0 + pid == 0
            },
            ClientMessage::Spawn { .. } => command_for(message, pid) is Ignore,
        },
{
    if let ClientMessage::Stdin { data } = message {
        encode_utf8_valid_utf8(data@);
        encode_utf8_decode_utf8(data@);
    }
}

/// Output of a process is told as it came, and as that of the stream that it came
/// from; nothing is told where there was none.
pub proof fn output_is_told_as_it_came(stream: OutputStream, data: Vec<u8>)
    ensures
        data@.len() > 0 ==> relayed(stream, Some(data)) == Some((stream, data@)),
        data@.len() == 0 ==> relayed(stream, Some(data)) is None,
        relayed(stream, None) is None,
        frame_output(
            KeeperFrame::KeeperMessage { message: KeeperMessage::ChildStdout { data } },
        ) == Some((OutputStream::Stdout, data@)),
        frame_output(
            KeeperFrame::KeeperMessage { message: KeeperMessage::ChildStderr { data } },
        ) == Some((OutputStream::Stderr, data@)),
{
}

} // verus!
