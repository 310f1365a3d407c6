//! The keeper of the runner: how it answers its client, and how it is heard to
//! be ready.
use vstd::prelude::*;
use vstd::slice::slice_to_vec;
use vstd::utf8::encode_utf8;

use crate::ipc::{ClientMessage, KeeperFrame, KeeperMessage, KeeperStatus, LINE_END};
use crate::names::NameMap;
use crate::text::{copy_texts, decimal, decimal_text, join, joined, text2, text4, texts, trim, trimmed};
use crate::unix_path::{lossy_text, text_of_bytes, UnixPath};

verus! {

/// The byte that may come before the end of a line.
pub const CARRIAGE_RETURN: u8 = 0x0d;

/// Where the first line of `buffer` ends; at the end of the buffer where no
/// line does.
pub open spec fn line_end(buffer: Seq<u8>) -> int
    decreases buffer.len(),
{
    if buffer.len() == 0 || buffer[0] == LINE_END {
        0
    } else {
        1 + line_end(buffer.drop_first())
    }
}

/// `line` without the bytes that end lines at its end.
pub open spec fn chomped(line: Seq<u8>) -> Seq<u8>
    decreases line.len(),
{
    if line.len() > 0 && (line.last() == LINE_END || line.last() == CARRIAGE_RETURN) {
        chomped(line.drop_last())
    } else {
        line
    }
}

/// The first line ends at the first byte that ends lines.
pub proof fn line_end_is_first(buffer: Seq<u8>)
    ensures
        0 <= line_end(buffer) <= buffer.len(),
        line_end(buffer) < buffer.len() ==> buffer[line_end(buffer)] == LINE_END,
        forall|i: int| 0 <= i < line_end(buffer) ==> #[trigger] buffer[i] != LINE_END,
    decreases buffer.len(),
{
    if buffer.len() > 0 && buffer[0] != LINE_END {
        let rest = buffer.drop_first();
        line_end_is_first(rest);
        assert forall|i: int| 0 <= i < line_end(buffer) implies #[trigger] buffer[i] != LINE_END by {
            if i > 0 {
                assert(buffer[i] == rest[i - 1]);
            }
        }
    }
}

/// Takes the first line out of the buffer, if there is a whole one.
pub fn take_line(buffer: &mut Vec<u8>) -> (r: Option<Vec<u8>>)
    ensures
        ({
            let end = line_end(old(buffer)@);
            &&& r is Some == (end < old(buffer)@.len())
            &&& r matches Some(line) ==> {
                &&& line@ == chomped(old(buffer)@.take(end))
                &&& final(buffer)@ == old(buffer)@.skip(end + 1)
            }
            &&& r is None ==> final(buffer)@ == old(buffer)@
        }),
{
    let ghost whole = buffer@;
    let mut end: usize = 0;
    proof {
        assert(whole.skip(0) =~= whole);
        line_end_is_first(whole);
    }
    while end < buffer.len() && buffer[end] != LINE_END
        invariant
            buffer@ == whole,
            end <= whole.len(),
            line_end(whole) == end + line_end(whole.skip(end as int)),
        decreases buffer.len() - end,
    {
        proof {
            assert(whole.skip(end as int).drop_first() =~= whole.skip(end + 1));
        }
        end += 1;
    }
    if end >= buffer.len() {
        return None;
    }
    let rest = buffer.split_off(end + 1);
    let mut line = slice_to_vec(buffer.as_slice());
    *buffer = rest;
    let ghost full = line@;
    proof {
        assert(full =~= whole.take(end as int).push(LINE_END));
        assert(full.drop_last() =~= whole.take(end as int));
        assert(chomped(full) == chomped(whole.take(end as int)));
    }
    while line.len() > 0 && (line[line.len() - 1] == LINE_END || line[line.len() - 1]
        == CARRIAGE_RETURN)
        invariant
            chomped(line@) == chomped(full),
        decreases line.len(),
    {
        line.pop();
    }
    Some(line)
}

/// A line that was written is taken out as it was, where it does not hold or
/// end in bytes that end lines; what follows it stays.
pub proof fn line_is_taken_as_written(line: Seq<u8>, rest: Seq<u8>)
    requires
        forall|i: int| 0 <= i < line.len() ==> #[trigger] line[i] != LINE_END,
        line.len() > 0 ==> line.last() != CARRIAGE_RETURN,
    ensures
        ({
            let buffer = line.push(LINE_END) + rest;
            &&& line_end(buffer) == line.len()
            &&& chomped(buffer.take(line.len() as int)) == line
            &&& buffer.skip(line.len() + 1int) == rest
        }),
{
    let buffer = line.push(LINE_END) + rest;
    line_end_is_first(buffer);
    assert(buffer[line.len() as int] == LINE_END);
    assert forall|i: int| 0 <= i < line.len() implies buffer[i] != LINE_END by {
        assert(buffer[i] == line[i]);
    }
    assert(buffer.take(line.len() as int) =~= line);
    assert(buffer.skip(line.len() + 1int) =~= rest);
}

/// Why the keeper has failed.
#[derive(Debug)]
pub enum KeeperFailure {
    MissingSocketPath,
    SpawnFailed,
    NoStdout,
    NoStderr,
    PollFailed,
    PipeUnreadable,
    ProcessUnknown,
    BindFailed { socket_path: UnixPath },
    ParentSignal,
    ChildUnknown,
    /// The keeper has said so itself, or has ended.
    Reported { message: String },
}

impl KeeperFailure {
    /// What a user is told.
    pub open spec fn text(self) -> Seq<char> {
        match self {
            KeeperFailure::MissingSocketPath => "missing socket path for runner keeper"@,
            KeeperFailure::SpawnFailed => "failed to spawn runner keeper"@,
            KeeperFailure::NoStdout => "runner keeper stdout pipe was not available"@,
            KeeperFailure::NoStderr => "runner keeper stderr pipe was not available"@,
            KeeperFailure::PollFailed => "failed to poll runner keeper pipes"@,
            KeeperFailure::PipeUnreadable => "failed to read runner keeper pipe"@,
            KeeperFailure::ProcessUnknown => "failed to poll runner keeper process"@,
            KeeperFailure::BindFailed { socket_path } => "failed to bind runner keeper socket "@
                + lossy_text(socket_path@),
            KeeperFailure::ParentSignal => "failed to set parent death signal"@,
            KeeperFailure::ChildUnknown => "failed to wait for runner keeper child"@,
            KeeperFailure::Reported { message } => message@,
        }
    }

    /// What a user is told.
    pub fn message(&self) -> (r: String)
        ensures
            r@ == self.text(),
    {
        match self {
            KeeperFailure::MissingSocketPath => "missing socket path for runner keeper".to_owned(),
            KeeperFailure::SpawnFailed => "failed to spawn runner keeper".to_owned(),
            KeeperFailure::NoStdout => "runner keeper stdout pipe was not available".to_owned(),
            KeeperFailure::NoStderr => "runner keeper stderr pipe was not available".to_owned(),
            KeeperFailure::PollFailed => "failed to poll runner keeper pipes".to_owned(),
            KeeperFailure::PipeUnreadable => "failed to read runner keeper pipe".to_owned(),
            KeeperFailure::ProcessUnknown => "failed to poll runner keeper process".to_owned(),
            KeeperFailure::BindFailed { socket_path } => text2(
                "failed to bind runner keeper socket ",
                socket_path.display().as_str(),
            ),
            KeeperFailure::ParentSignal => "failed to set parent death signal".to_owned(),
            KeeperFailure::ChildUnknown => "failed to wait for runner keeper child".to_owned(),
            KeeperFailure::Reported { message } => message.clone(),
        }
    }
}

/// What came of reading from a pipe.
#[derive(Debug)]
pub enum PipeRead {
    /// Bytes; none where the other end is closed.
    Bytes(Vec<u8>),
    /// There is nothing to read yet.
    WouldBlock,
    Failed,
}

impl PipeRead {
    /// The bytes that were read.
    pub open spec fn bytes(self) -> Seq<u8> {
        match self {
            PipeRead::Bytes(bytes) => bytes@,
            _ => Seq::empty(),
        }
    }
}

/// Adds what was read from a pipe to the buffer.
pub fn read_pipe_chunk(read: &PipeRead, buffer: &mut Vec<u8>) -> (r: Result<(), KeeperFailure>)
    ensures
        r is Err == (read is Failed),
        r is Err ==> r->Err_0 is PipeUnreadable,
        final(buffer)@ == old(buffer)@ + read.bytes(),
{
    let ghost before = buffer@;
    match read {
        PipeRead::Bytes(bytes) => {
            let mut more = slice_to_vec(bytes.as_slice());
            buffer.append(&mut more);
            Ok(())
        },
        PipeRead::WouldBlock => {
            proof {
                assert(before + Seq::<u8>::empty() =~= before);
            }
            Ok(())
        },
        PipeRead::Failed => {
            proof {
                assert(before + Seq::<u8>::empty() =~= before);
            }
            Err(KeeperFailure::PipeUnreadable)
        },
    }
}

/// What has been heard of a keeper that is starting.
pub struct Handshake {
    pub stdout: Vec<u8>,
    pub stderr: Vec<u8>,
}

/// Where a handshake has got to.
#[derive(Debug)]
pub enum HandshakeStep {
    /// There is more to be heard.
    Continue,
    /// The keeper is ready; the line tells with which warnings.
    Ready(Vec<u8>),
    Failed(KeeperFailure),
}

/// Where a handshake has got to; a failure by what a user is told of it.
pub enum ProgressView {
    Continue,
    Ready(Seq<u8>),
    Failed(Seq<char>),
}

impl View for HandshakeStep {
    type V = ProgressView;

    open spec fn view(&self) -> ProgressView {
        match self {
            HandshakeStep::Continue => ProgressView::Continue,
            HandshakeStep::Ready(line) => ProgressView::Ready(line@),
            HandshakeStep::Failed(failure) => ProgressView::Failed(failure.text()),
        }
    }
}

/// What is left to be looked at after a read from a pipe: what is behind the
/// first line, or all where no line has ended.
pub open spec fn left_over(buffer: Seq<u8>, read: PipeRead) -> Seq<u8> {
    let heard = buffer + read.bytes();
    if !(read is Failed) && line_end(heard) < heard.len() {
        heard.skip(line_end(heard) + 1)
    } else {
        heard
    }
}

/// What a read of the keeper's output means: its first line tells that it is
/// ready.
pub open spec fn stdout_progress(buffer: Seq<u8>, read: PipeRead) -> ProgressView {
    let heard = buffer + read.bytes();
    if read is Failed {
        ProgressView::Failed(KeeperFailure::PipeUnreadable.text())
    } else if line_end(heard) < heard.len() {
        ProgressView::Ready(chomped(heard.take(line_end(heard))))
    } else {
        ProgressView::Continue
    }
}

/// What a read of the keeper's complaints means: a first line that is not blank
/// tells why it has failed.
pub open spec fn stderr_progress(buffer: Seq<u8>, read: PipeRead) -> ProgressView {
    let heard = buffer + read.bytes();
    let message = trimmed(lossy_text(chomped(heard.take(line_end(heard)))));
    if read is Failed {
        ProgressView::Failed(KeeperFailure::PipeUnreadable.text())
    } else if line_end(heard) < heard.len() && message.len() > 0 {
        ProgressView::Failed(message)
    } else {
        ProgressView::Continue
    }
}

/// What the reads of one round mean, where there was something to read.
pub open spec fn round_progress(
    heard_out: Seq<u8>,
    heard_err: Seq<u8>,
    stdout: Option<PipeRead>,
    stderr: Option<PipeRead>,
) -> ProgressView {
    let first = match stdout {
        Some(read) => stdout_progress(heard_out, read),
        None => ProgressView::Continue,
    };
    match (first, stderr) {
        (ProgressView::Continue, Some(read)) => stderr_progress(heard_err, read),
        _ => first,
    }
}

/// What the end of a keeper means that has put out `out` and complained `err`.
pub open spec fn exit_progress(out: Seq<u8>, err: Seq<u8>, status: Seq<char>) -> ProgressView {
    let message = trimmed(lossy_text(err));
    if line_end(out) < out.len() {
        ProgressView::Ready(chomped(out.take(line_end(out))))
    } else if message.len() > 0 {
        ProgressView::Failed(message)
    } else {
        ProgressView::Failed("runner keeper exited before handshake with status "@ + status)
    }
}

impl Handshake {
    /// Nothing has been heard.
    pub fn new() -> (r: Self)
        ensures
            r.stdout@ == Seq::<u8>::empty(),
            r.stderr@ == Seq::<u8>::empty(),
    {
        Handshake { stdout: Vec::new(), stderr: Vec::new() }
    }

    /// The keeper has put something out.
    pub fn stdout_ready(&mut self, read: &PipeRead) -> (r: HandshakeStep)
        ensures
            r@ == stdout_progress(old(self).stdout@, *read),
            read is Failed ==> r->Failed_0 is PipeUnreadable,
            final(self).stdout@ == left_over(old(self).stdout@, *read),
            final(self).stderr@ == old(self).stderr@,
    {
        match read_pipe_chunk(read, &mut self.stdout) {
            Ok(()) => {},
            Err(failure) => return HandshakeStep::Failed(failure),
        }
        match take_line(&mut self.stdout) {
            Some(line) => HandshakeStep::Ready(line),
            None => HandshakeStep::Continue,
        }
    }

    /// The keeper complains.
    pub fn stderr_ready(&mut self, read: &PipeRead) -> (r: HandshakeStep)
        ensures
            r@ == stderr_progress(old(self).stderr@, *read),
            r is Failed ==> if read is Failed {
                r->Failed_0 is PipeUnreadable
            } else {
                r->Failed_0 is Reported
            },
            final(self).stderr@ == left_over(old(self).stderr@, *read),
            final(self).stdout@ == old(self).stdout@,
    {
        match read_pipe_chunk(read, &mut self.stderr) {
            Ok(()) => {},
            Err(failure) => return HandshakeStep::Failed(failure),
        }
        match take_line(&mut self.stderr) {
            Some(line) => match complaint(&line) {
                Some(message) => HandshakeStep::Failed(KeeperFailure::Reported { message }),
                None => HandshakeStep::Continue,
            },
            None => HandshakeStep::Continue,
        }
    }

    /// What has been read in one round, where there was something to read: the
    /// output decides, and only where it leaves the handshake open the
    /// complaints do.
    pub fn round(&mut self, stdout: &Option<PipeRead>, stderr: &Option<PipeRead>) -> (r:
        HandshakeStep)
        ensures
            r@ == round_progress(old(self).stdout@, old(self).stderr@, *stdout, *stderr),
            ({
                let first = match stdout {
                    Some(read) => stdout_progress(old(self).stdout@, *read),
                    None => ProgressView::Continue,
                };
                &&& final(self).stdout@ == (match stdout {
                    Some(read) => left_over(old(self).stdout@, *read),
                    None => old(self).stdout@,
                })
                &&& first is Continue ==> {
                    &&& r@ == (match stderr {
                        Some(read) => stderr_progress(old(self).stderr@, *read),
                        None => ProgressView::Continue,
                    })
                    &&& final(self).stderr@ == (match stderr {
                        Some(read) => left_over(old(self).stderr@, *read),
                        None => old(self).stderr@,
                    })
                }
                &&& !(first is Continue) ==> {
                    &&& r@ == first
                    &&& final(self).stderr@ == old(self).stderr@
                }
            }),
    {
        if let Some(read) = stdout {
            match self.stdout_ready(read) {
                HandshakeStep::Continue => {},
                step => return step,
            }
        }
        match stderr {
            Some(read) => self.stderr_ready(read),
            None => HandshakeStep::Continue,
        }
    }

    /// The keeper has ended, after the last of its output: it may still have
    /// told that it was ready, or why it failed.
    pub fn keeper_exited(
        &mut self,
        stdout_rest: &Vec<u8>,
        stderr_rest: &Vec<u8>,
        status: &str,
    ) -> (r: HandshakeStep)
        ensures
            r@ == exit_progress(
                old(self).stdout@ + stdout_rest@,
                old(self).stderr@ + stderr_rest@,
                status@,
            ),
            ({
                let heard = old(self).stdout@ + stdout_rest@;
                let end = line_end(heard);
                let message = trimmed(lossy_text(old(self).stderr@ + stderr_rest@));
                if end < heard.len() {
                    &&& r is Ready
                    &&& r->Ready_0@ == chomped(heard.take(end))
                } else {
                    &&& r is Failed
                    &&& r->Failed_0 is Reported
                    &&& r->Failed_0->message@ == (if message.len() > 0 {
                        message
                    } else {
                        "runner keeper exited before handshake with status "@ + status@
                    })
                }
            }),
    {
        let mut more = slice_to_vec(stdout_rest.as_slice());
        self.stdout.append(&mut more);
        let mut more = slice_to_vec(stderr_rest.as_slice());
        self.stderr.append(&mut more);
        match take_line(&mut self.stdout) {
            Some(line) => return HandshakeStep::Ready(line),
            None => {},
        }
        let message = match complaint(&self.stderr) {
            Some(message) => message,
            None => text2("runner keeper exited before handshake with status ", status),
        };
        HandshakeStep::Failed(KeeperFailure::Reported { message })
    }
}

/// The text of bytes without the whitespace around it, if anything is left.
fn complaint(bytes: &Vec<u8>) -> (r: Option<String>)
    ensures
        r is Some == (trimmed(lossy_text(bytes@)).len() > 0),
        r matches Some(text) ==> text@ == trimmed(lossy_text(bytes@)),
{
    let text = text_of_bytes(bytes);
    let message = trim(text.as_str());
    if message.as_str().is_empty() {
        None
    } else {
        Some(message)
    }
}

/// How the process of the keeper has ended.
#[derive(Debug)]
pub enum WaitOutcome {
    Exited(i32),
    /// By the signal of the given name.
    Signaled(String),
    /// In the way that is shown.
    Other(String),
}

/// What a user is told of the end of the keeper, unless it is a success.
pub open spec fn end_text(outcome: WaitOutcome) -> Option<Seq<char>> {
    match outcome {
        WaitOutcome::Exited(code) => if code == 0 {
            None
        } else {
            Some("runner keeper child exited with status "@ + decimal(code as int))
        },
        WaitOutcome::Signaled(signal) => Some(
            "runner keeper child terminated by signal "@ + signal@,
        ),
        WaitOutcome::Other(shown) => Some("runner keeper child ended unexpectedly: "@ + shown@),
    }
}

/// What the end of the keeper means: success, or what a user is told.
pub fn keeper_child_result(outcome: &WaitOutcome) -> (r: Result<(), String>)
    ensures
        r is Ok == end_text(*outcome) is None,
        r matches Err(text) ==> end_text(*outcome) == Some(text@),
        match outcome {
            WaitOutcome::Exited(code) => {
                &&& r is Ok == (*code == 0)
                &&& r matches Err(text) ==> text@ == "runner keeper child exited with status "@
                    + decimal(*code as int)
            },
            WaitOutcome::Signaled(signal) => r is Err && r->Err_0@
                == "runner keeper child terminated by signal "@ + signal@,
            WaitOutcome::Other(shown) => r is Err && r->Err_0@
                == "runner keeper child ended unexpectedly: "@ + shown@,
        },
{
    match outcome {
        WaitOutcome::Exited(code) => if *code == 0 {
            Ok(())
        } else {
            Err(
                text2(
                    "runner keeper child exited with status ",
                    decimal_text(*code as i64).as_str(),
                ),
            )
        },
        WaitOutcome::Signaled(signal) => Err(
            text2("runner keeper child terminated by signal ", signal.as_str()),
        ),
        WaitOutcome::Other(shown) => Err(
            text2("runner keeper child ended unexpectedly: ", shown.as_str()),
        ),
    }
}

/// What a client is answered to its first message.
pub enum FirstRequest {
    /// A process is to be started.
    Start { argv: Vec<String>, env: NameMap<String> },
    /// The client is told why not, and left.
    Reject(KeeperFrame),
}

/// Whether a frame tells of the given error.
pub open spec fn tells_error(frame: KeeperFrame, text: Seq<char>) -> bool {
    frame matches KeeperFrame::KeeperStatus { status } && status.error_text() == Some(text)
}

/// A frame that tells of an error.
fn error_frame(message: String) -> (r: KeeperFrame)
    ensures
        tells_error(r, message@),
{
    KeeperFrame::status(KeeperStatus::error(message))
}

/// What a client is answered to its first message, which has to ask for a
/// process.
pub fn first_request(request: ClientMessage) -> (r: FirstRequest)
    ensures
        match request {
            ClientMessage::Spawn { argv, env } => if argv@.len() > 0 {
                r == (FirstRequest::Start { argv, env })
            } else {
                r is Reject && tells_error(r->Reject_0, "spawn argv is empty"@)
            },
            _ => r is Reject && tells_error(r->Reject_0, "first runner message must be spawn"@),
        },
{
    match request {
        ClientMessage::Spawn { argv, env } => if argv.len() == 0 {
            FirstRequest::Reject(error_frame("spawn argv is empty".to_owned()))
        } else {
            FirstRequest::Start { argv, env }
        },
        _ => FirstRequest::Reject(error_frame("first runner message must be spawn".to_owned())),
    }
}

/// What came of starting a process for a client.
#[derive(Debug)]
pub enum SpawnOutcome {
    /// The process runs, under the given number.
    Running(u32),
    /// The system has refused, for the reason that is shown.
    Refused(String),
}

/// What is done once a process was to be started.
pub enum SpawnAction {
    /// The client is told that it runs; commands go to the process `pid`.
    Serve { frame: KeeperFrame, pid: i32 },
    /// The client is told why it does not run, and left.
    Report(KeeperFrame),
    /// The client is left without an answer, for the reason given.
    Abandon(String),
}

/// What is done once a process was to be started.
pub fn spawn_finished(argv: &Vec<String>, outcome: &SpawnOutcome) -> (r: SpawnAction)
    ensures
        match outcome {
            SpawnOutcome::Running(pid) => if *pid <= i32::MAX {
                r == (SpawnAction::Serve {
                    frame: KeeperFrame::KeeperMessage { message: KeeperMessage::ChildSpawned },
                    pid: *pid as i32,
                })
            } else {
                r is Abandon && r->Abandon_0@ == "child pid overflowed i32"@
            },
            SpawnOutcome::Refused(error) => r is Report && tells_error(
                r->Report_0,
                "failed to spawn "@ + joined(texts(argv@), " "@) + ": "@ + error@,
            ),
        },
{
    match outcome {
        SpawnOutcome::Running(pid) => if *pid <= i32::MAX as u32 {
            SpawnAction::Serve {
                frame: KeeperFrame::child(KeeperMessage::ChildSpawned),
                pid: *pid as i32,
            }
        } else {
            SpawnAction::Abandon("child pid overflowed i32".to_owned())
        },
        SpawnOutcome::Refused(error) => {
            let command = join(argv, " ");
            SpawnAction::Report(
                error_frame(text4("failed to spawn ", command.as_str(), ": ", error.as_str())),
            )
        },
    }
}

/// What a client is told when its process has ended.
pub fn exit_frame() -> (r: KeeperFrame)
    ensures
        r == (KeeperFrame::KeeperMessage { message: KeeperMessage::ChildExited }),
{
    KeeperFrame::child(KeeperMessage::ChildExited)
}

/// Where the keeper is with a client.
pub enum ClientState {
    /// The client has yet to ask for a process.
    Waiting,
    /// The process that it has asked for is to be started.
    Starting { argv: Vec<String> },
    /// The process runs, under the given number.
    Serving { pid: i32 },
    /// The client is told nothing more.
    Done,
}

/// Where the keeper is with a client.
pub enum ClientView {
    Waiting,
    Starting(Seq<Seq<char>>),
    Serving(i32),
    Done,
}

impl View for ClientState {
    type V = ClientView;

    open spec fn view(&self) -> ClientView {
        match self {
            ClientState::Waiting => ClientView::Waiting,
            ClientState::Starting { argv } => ClientView::Starting(texts(argv@)),
            ClientState::Serving { pid } => ClientView::Serving(*pid),
            ClientState::Done => ClientView::Done,
        }
    }
}

/// What happens with a client.
pub enum ClientEvent {
    /// Its first message has come.
    Request(ClientMessage),
    /// The process was to be started.
    Spawned(SpawnOutcome),
    /// The process has ended.
    Exited,
}

/// What is done for a client.
pub enum ClientAction {
    Nothing,
    /// A process is started.
    Spawn { argv: Vec<String>, env: NameMap<String> },
    /// The client is sent a frame.
    Send(KeeperFrame),
    /// The client is left without an answer, for the reason given.
    Abandon(String),
}

/// What a frame tells a client of its process.
pub enum Told {
    Spawned,
    Exited,
    Error(Seq<char>),
}

/// What is done for a client.
pub enum ClientActionView {
    Nothing,
    Spawn(Seq<Seq<char>>, Map<Seq<char>, Seq<char>>),
    Send(Told),
    Abandon(Seq<char>),
}

/// Whether a frame tells so.
pub open spec fn tells(frame: KeeperFrame, told: Told) -> bool {
    match told {
        Told::Spawned => frame == (KeeperFrame::KeeperMessage {
            message: KeeperMessage::ChildSpawned,
        }),
        Told::Exited => frame == (KeeperFrame::KeeperMessage {
            message: KeeperMessage::ChildExited,
        }),
        Told::Error(text) => tells_error(frame, text),
    }
}

impl ClientAction {
    /// Whether the action is as it is seen.
    pub open spec fn seen_as(self, seen: ClientActionView) -> bool {
        match seen {
            ClientActionView::Nothing => self is Nothing,
            ClientActionView::Spawn(argv, env) => self is Spawn && texts(self->argv@) == argv
                && self->env.text_map() == env,
            ClientActionView::Send(told) => self is Send && tells(self->Send_0, told),
            ClientActionView::Abandon(text) => self is Abandon && self->Abandon_0@ == text,
        }
    }
}

/// Where the keeper is with a client after an event, and what is done for it. An
/// event that does not belong there changes nothing.
pub open spec fn client_step(state: ClientView, event: ClientEvent) -> (
    ClientView,
    ClientActionView,
) {
    match (state, event) {
        (ClientView::Waiting, ClientEvent::Request(request)) => match request {
            ClientMessage::Spawn { argv, env } => if argv@.len() > 0 {
                (
                    ClientView::Starting(texts(argv@)),
                    ClientActionView::Spawn(texts(argv@), env.text_map()),
                )
            } else {
                (ClientView::Done, ClientActionView::Send(Told::Error("spawn argv is empty"@)))
            },
            _ => (
                ClientView::Done,
                ClientActionView::Send(Told::Error("first runner message must be spawn"@)),
            ),
        },
        (ClientView::Starting(argv), ClientEvent::Spawned(outcome)) => match outcome {
            SpawnOutcome::Running(pid) => if pid <= i32::MAX {
                (ClientView::Serving(pid as i32), ClientActionView::Send(Told::Spawned))
            } else {
                (ClientView::Done, ClientActionView::Abandon("child pid overflowed i32"@))
            },
            SpawnOutcome::Refused(error) => (
                ClientView::Done,
                ClientActionView::Send(
                    Told::Error("failed to spawn "@ + joined(argv, " "@) + ": "@ + error@),
                ),
            ),
        },
        (ClientView::Serving(_), ClientEvent::Exited) => (
            ClientView::Done,
            ClientActionView::Send(Told::Exited),
        ),
        _ => (state, ClientActionView::Nothing),
    }
}

impl ClientState {
    /// What is done for the client upon an event.
    pub fn step(&mut self, event: ClientEvent) -> (r: ClientAction)
        ensures
            final(self)@ == client_step(old(self)@, event).0,
            r.seen_as(client_step(old(self)@, event).1),
            r is Spawn ==> *old(self) is Waiting && event == ClientEvent::Request(
                ClientMessage::Spawn { argv: r->argv, env: r->env },
            ),
    {
        let mut state = ClientState::Done;
        std::mem::swap(&mut state, self);
        match (state, event) {
            (ClientState::Waiting, ClientEvent::Request(request)) => match first_request(request) {
                FirstRequest::Start { argv, env } => {
                    *self = ClientState::Starting { argv: copy_texts(&argv) };
                    ClientAction::Spawn { argv, env }
                },
                FirstRequest::Reject(frame) => ClientAction::Send(frame),
            },
            (ClientState::Starting { argv }, ClientEvent::Spawned(outcome)) => match spawn_finished(
                &argv,
                &outcome,
            ) {
                SpawnAction::Serve { frame, pid } => {
                    *self = ClientState::Serving { pid };
                    ClientAction::Send(frame)
                },
                SpawnAction::Report(frame) => ClientAction::Send(frame),
                SpawnAction::Abandon(message) => ClientAction::Abandon(message),
            },
            (ClientState::Serving { .. }, ClientEvent::Exited) => ClientAction::Send(exit_frame()),
            (state, _) => {
                *self = state;
                ClientAction::Nothing
            },
        }
    }
}

/// What a client is told over a course of events.
pub open spec fn client_told(state: ClientView, events: Seq<ClientEvent>) -> Seq<Told>
    decreases events.len(),
{
    if events.len() == 0 {
        Seq::empty()
    } else {
        let (next, action) = client_step(state, events[0]);
        let rest = client_told(next, events.drop_first());
        match action {
            ClientActionView::Send(told) => seq![told] + rest,
            _ => rest,
        }
    }
}

/// Whatever happens, a client that has been left is told nothing more, and one
/// whose process runs is told at most that it has ended, once.
proof fn served_client_is_told(state: ClientView, events: Seq<ClientEvent>)
    ensures
        state is Done ==> client_told(state, events) == Seq::<Told>::empty(),
        state is Serving ==> client_told(state, events) == Seq::<Told>::empty() || client_told(
            state,
            events,
        ) == seq![Told::Exited],
    decreases events.len(),
{
    if events.len() > 0 {
        let (next, _) = client_step(state, events[0]);
        served_client_is_told(next, events.drop_first());
        if state is Serving && events[0] is Exited {
            assert(client_told(state, events) =~= seq![Told::Exited]);
        }
    }
}

/// Whatever happens, a client is told of one error and nothing else, or first
/// that its process runs and then at most that it has ended, once.
pub proof fn client_is_told_in_order(state: ClientView, events: Seq<ClientEvent>)
    requires
        state is Waiting || state is Starting,
    ensures
        ({
            let told = client_told(state, events);
            ||| told.len() == 0
            ||| told.len() == 1 && told[0] is Error
            ||| told == seq![Told::Spawned]
            ||| told == seq![Told::Spawned, Told::Exited]
        }),
    decreases events.len(),
{
    if events.len() > 0 {
        let (next, action) = client_step(state, events[0]);
        let rest = client_told(next, events.drop_first());
        served_client_is_told(next, events.drop_first());
        if next is Waiting || next is Starting {
            client_is_told_in_order(next, events.drop_first());
        } else if next is Serving {
            if rest.len() == 0 {
                assert(client_told(state, events) =~= seq![Told::Spawned]);
            } else {
                assert(client_told(state, events) =~= seq![Told::Spawned, Told::Exited]);
            }
        }
    }
}

/// What is done for a message that comes while the process runs.
#[derive(Debug)]
pub enum CommandAction {
    Ignore,
    /// The bytes go to the process.
    Write(Vec<u8>),
    /// The group of processes is told to terminate, by its number.
    Terminate(i32),
}

/// What is done for a message.
pub enum CommandView {
    Ignore,
    Write(Seq<u8>),
    Terminate(int),
}

impl View for CommandAction {
    type V = CommandView;

    open spec fn view(&self) -> CommandView {
        match self {
            CommandAction::Ignore => CommandView::Ignore,
            CommandAction::Write(bytes) => CommandView::Write(bytes@),
            CommandAction::Terminate(number) => CommandView::Terminate(*number as int),
        }
    }
}

/// What is done for a message that comes while the process `pid` runs.
pub open spec fn command_for(message: ClientMessage, pid: int) -> CommandView {
    match message {
        ClientMessage::Spawn { .. } => CommandView::Ignore,
        ClientMessage::Stdin { data } => CommandView::Write(encode_utf8(data@)),
        ClientMessage::Stop => CommandView::Terminate(-pid),
    }
}

/// What is done for a message that comes while the process `pid` runs. The
/// process leads a group of its own, which a negative number stands for.
pub fn client_command(message: &ClientMessage, pid: i32) -> (r: CommandAction)
    requires
        0 <= pid,
    ensures
        r@ == command_for(*message, pid as int),
        match message {
            ClientMessage::Spawn { .. } => r is Ignore,
            ClientMessage::Stdin { data } => r is Write && r->Write_0@ == encode_utf8(data@),
            ClientMessage::Stop => r is Terminate && r->Terminate_0 == -pid,
        },
{
    match message {
        ClientMessage::Spawn { .. } => CommandAction::Ignore,
        ClientMessage::Stdin { data } => CommandAction::Write(
            slice_to_vec(data.as_str().as_bytes()),
        ),
        ClientMessage::Stop => CommandAction::Terminate(-pid),
    }
}

/// The two outputs of a process.
#[derive(Debug, Clone, Copy, PartialEq, Eq, Structural)]
pub enum OutputStream {
    Stdout,
    Stderr,
}

/// The output that a frame tells of, and which of the two it is.
pub open spec fn frame_output(frame: KeeperFrame) -> Option<(OutputStream, Seq<u8>)> {
    match frame {
        KeeperFrame::KeeperMessage { message } => match message {
            KeeperMessage::ChildStdout { data } => Some((OutputStream::Stdout, data@)),
            KeeperMessage::ChildStderr { data } => Some((OutputStream::Stderr, data@)),
            _ => None,
        },
        KeeperFrame::KeeperStatus { .. } => None,
    }
}

/// The output that a client is told of after a read.
pub open spec fn relayed(stream: OutputStream, read: Option<Vec<u8>>) -> Option<
    (OutputStream, Seq<u8>),
> {
    match read {
        Some(data) => if data@.len() > 0 {
            Some((stream, data@))
        } else {
            None
        },
        None => None,
    }
}

/// What a client is told of a portion of output; nothing more comes where there
/// is none, or where it cannot be read.
pub fn relay_output(stream: OutputStream, read: Option<Vec<u8>>) -> (r: Option<KeeperFrame>)
    ensures
        r is Some == relayed(stream, read) is Some,
        r matches Some(frame) ==> frame_output(frame) == relayed(stream, read),
        match read {
            Some(data) => if data@.len() == 0 {
                r is None
            } else {
                r == Some(
                    KeeperFrame::KeeperMessage {
                        message: match stream {
                            OutputStream::Stdout => KeeperMessage::ChildStdout { data },
                            OutputStream::Stderr => KeeperMessage::ChildStderr { data },
                        },
                    },
                )
            },
            None => r is None,
        },
{
    match read {
        Some(data) => if data.len() == 0 {
            None
        } else {
            let message = match stream {
                OutputStream::Stdout => KeeperMessage::child_stdout(data),
                OutputStream::Stderr => KeeperMessage::child_stderr(data),
            };
            Some(KeeperFrame::child(message))
        },
        None => None,
    }
}

/// A text as a line of bytes.
pub open spec fn as_line(text: Seq<char>) -> Seq<u8> {
    encode_utf8(text).push(LINE_END)
}

/// What a keeper that fails puts out: the message, and the end of the line.
pub fn fatal_line(message: &str) -> (r: Vec<u8>)
    ensures
        r@ == encode_utf8(message@).push(LINE_END),
        r@ == as_line(message@),
{
    let mut line = slice_to_vec(message.as_bytes());
    line.push(LINE_END);
    line
}

/// Chunks of bytes, one after the other.
pub open spec fn in_one(chunks: Seq<Seq<u8>>) -> Seq<u8>
    decreases chunks.len(),
{
    if chunks.len() == 0 {
        Seq::empty()
    } else {
        chunks[0] + in_one(chunks.drop_first())
    }
}

/// The line that a handshake comes to where the keeper puts out `chunks` after
/// `heard`, if it comes to one.
pub open spec fn ready_line(heard: Seq<u8>, chunks: Seq<Seq<u8>>) -> Option<Seq<u8>>
    decreases chunks.len(),
{
    if chunks.len() == 0 {
        None
    } else {
        let more = heard + chunks[0];
        if line_end(more) < more.len() {
            Some(chomped(more.take(line_end(more))))
        } else {
            ready_line(more, chunks.drop_first())
        }
    }
}

proof fn line_end_stays(buffer: Seq<u8>, more: Seq<u8>)
    ensures
        line_end(buffer) < buffer.len() ==> line_end(buffer + more) == line_end(buffer),
        line_end(buffer) == buffer.len() ==> line_end(buffer + more) == buffer.len() + line_end(more),
    decreases buffer.len(),
{
    if buffer.len() > 0 && buffer[0] != LINE_END {
        line_end_is_first(buffer.drop_first());
        line_end_stays(buffer.drop_first(), more);
        assert((buffer + more).drop_first() =~= buffer.drop_first() + more);
    } else if buffer.len() == 0 {
        assert(buffer + more =~= more);
    }
}

/// How the output of the keeper is cut into chunks does not matter: the
/// handshake comes to the first line of it all.
pub proof fn chunks_do_not_matter(heard: Seq<u8>, chunks: Seq<Seq<u8>>)
    requires
        line_end(heard) == heard.len(),
    ensures
        ({
            let all = heard + in_one(chunks);
            ready_line(heard, chunks) == (if line_end(all) < all.len() {
                Some(chomped(all.take(line_end(all))))
            } else {
                None
            })
        }),
    decreases chunks.len(),
{
    let all = heard + in_one(chunks);
    if chunks.len() == 0 {
        assert(all =~= heard);
    } else {
        let more = heard + chunks[0];
        let rest = in_one(chunks.drop_first());
        assert(all =~= more + rest);
        line_end_is_first(more);
        line_end_stays(more, rest);
        if line_end(more) < more.len() {
            assert(all.take(line_end(all)) =~= more.take(line_end(more)));
        } else {
            chunks_do_not_matter(more, chunks.drop_first());
        }
    }
}

} // verus!
