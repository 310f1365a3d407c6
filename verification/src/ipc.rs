//! The messages between the application and the keeper of the runner, and the
//! lines that carry them.
use vstd::prelude::*;
use vstd::utf8::{decode_utf8, encode_utf8, encode_utf8_decode_utf8, encode_utf8_valid_utf8, is_ascii_chars_encode_utf8, valid_utf8};

use crate::encoding::{bytes_are_without, encoding_of_both};
use crate::keeper::{line_end, line_end_is_first};
use crate::names::NameMap;
use crate::screen::at_most;
use crate::text::{end_trimmed, is_space, text2, trim_end};

verus! {

/// What the application asks of the keeper.
#[derive(Debug)]
pub enum ClientMessage {
    /// To start a process.
    Spawn { argv: Vec<String>, env: NameMap<String> },
    /// To hand a text to the process.
    Stdin { data: String },
    /// To stop the process.
    Stop,
}

/// What a server tells of a process.
#[derive(Debug)]
pub enum ServerMessage {
    Spawned { pid: i32 },
    Output { data: Vec<u8> },
    Exited,
    Error { message: String },
}

/// What the keeper tells of a process.
#[derive(Debug, Clone)]
pub enum KeeperMessage {
    ChildSpawned,
    ChildStdout { data: Vec<u8> },
    ChildStderr { data: Vec<u8> },
    ChildExited,
}

/// What the keeper tells of itself.
#[derive(Debug, Clone)]
pub struct KeeperStatus {
    pub error: Option<String>,
}

/// What the keeper sends.
#[derive(Debug)]
pub enum KeeperFrame {
    KeeperStatus { status: KeeperStatus },
    KeeperMessage { message: KeeperMessage },
}

impl ClientMessage {
    /// The request to hand a line to the process.
    pub fn input_line(text: &str) -> (r: Self)
        ensures
            r is Stdin,
            r->data@ == text@ + "\n"@,
    {
        ClientMessage::Stdin { data: text2(text, "\n") }
    }
}

impl KeeperMessage {
    /// The bytes that the process has put out, if the message holds such.
    pub open spec fn output(self) -> Option<Seq<u8>> {
        match self {
            KeeperMessage::ChildStdout { data } => Some(data@),
            KeeperMessage::ChildStderr { data } => Some(data@),
            _ => None,
        }
    }

    pub fn child_stdout(data: Vec<u8>) -> (r: Self)
        ensures
            r == (KeeperMessage::ChildStdout { data }),
    {
        KeeperMessage::ChildStdout { data }
    }

    pub fn child_stderr(data: Vec<u8>) -> (r: Self)
        ensures
            r == (KeeperMessage::ChildStderr { data }),
    {
        KeeperMessage::ChildStderr { data }
    }

    /// The bytes that the process has put out, if the message holds such.
    pub fn output_bytes(&self) -> (r: Option<&[u8]>)
        ensures
            r is Some == self.output() is Some,
            r matches Some(bytes) ==> self.output() == Some(bytes@),
    {
        match self {
            KeeperMessage::ChildStdout { data } => Some(data.as_slice()),
            KeeperMessage::ChildStderr { data } => Some(data.as_slice()),
            _ => None,
        }
    }

    /// Whether the process has ended.
    pub fn is_child_exited(&self) -> (r: bool)
        ensures
            r == (self is ChildExited),
    {
        match self {
            KeeperMessage::ChildExited => true,
            _ => false,
        }
    }
}

impl KeeperStatus {
    /// The text of the error, if there is one.
    pub open spec fn error_text(self) -> Option<Seq<char>> {
        match self.error {
            Some(message) => Some(message@),
            None => None,
        }
    }

    /// A keeper that cannot do what it was asked.
    pub fn error(message: String) -> (r: Self)
        ensures
            r.error_text() == Some(message@),
    {
        KeeperStatus { error: Some(message) }
    }

    /// The text of the error, if there is one.
    pub fn error_message(&self) -> (r: Option<&str>)
        ensures
            r is Some == self.error_text() is Some,
            r matches Some(message) ==> self.error_text() == Some(message@),
    {
        match &self.error {
            Some(message) => Some(message.as_str()),
            None => None,
        }
    }
}

impl KeeperFrame {
    pub fn status(status: KeeperStatus) -> (r: Self)
        ensures
            r == (KeeperFrame::KeeperStatus { status }),
    {
        KeeperFrame::KeeperStatus { status }
    }

    pub fn child(message: KeeperMessage) -> (r: Self)
        ensures
            r == (KeeperFrame::KeeperMessage { message }),
    {
        KeeperFrame::KeeperMessage { message }
    }
}

/// The byte at the end of a line.
pub const LINE_END: u8 = 0x0a;

/// What is written for a message of the given bytes.
pub open spec fn framed(encoded: Seq<u8>) -> Seq<u8> {
    encoded.push(LINE_END)
}

/// The text of a message that is read from a line, if there was something to
/// read.
pub open spec fn text_read(size: int, line: Seq<char>) -> Option<Seq<char>> {
    if size == 0 {
        None
    } else {
        Some(end_trimmed(line))
    }
}

/// What is written for a message: its bytes, and the end of the line.
pub fn write_json_line(encoded: Vec<u8>) -> (r: Vec<u8>)
    ensures
        r@ == encoded@.push(LINE_END),
        r@ == framed(encoded@),
{
    let mut data = encoded;
    data.push(LINE_END);
    data
}

/// There is nothing more to read.
#[derive(Debug, Clone, Copy, PartialEq, Eq, Structural)]
pub struct StreamClosed;

impl StreamClosed {
    /// What a user is told.
    pub fn message(&self) -> (r: String)
        ensures
            r@ == "runner stream closed"@,
    {
        "runner stream closed".to_owned()
    }
}

/// The text of a message, given how many bytes were read and the line that they
/// make up; no bytes mean that the stream has been closed.
pub fn read_json_line(size: usize, line: &str) -> (r: Result<String, StreamClosed>)
    ensures
        r is Err == (size == 0),
        r matches Ok(text) ==> text@ == end_trimmed(line@),
        r is Ok == text_read(size as int, line@) is Some,
        r matches Ok(text) ==> text_read(size as int, line@) == Some(text@),
{
    if size == 0 {
        return Err(StreamClosed);
    }
    Ok(trim_end(line))
}

proof fn encoding_of_a_line(text: Seq<char>)
    ensures
        encode_utf8(text.push('\n')) == encode_utf8(text).push(LINE_END),
{
    let end = seq!['\n'];
    encoding_of_both(text, end);
    is_ascii_chars_encode_utf8(end);
    assert(end[0] as u8 == LINE_END);
    assert(text.push('\n') =~= text + end);
    assert(encode_utf8(text.push('\n')) =~= encode_utf8(text).push(LINE_END));
}

/// What is on a stream after messages have been written to it, one after the
/// other.
pub open spec fn on_stream(messages: Seq<Seq<char>>) -> Seq<u8>
    decreases messages.len(),
{
    if messages.len() == 0 {
        Seq::empty()
    } else {
        encode_utf8(messages[0]).push(LINE_END) + on_stream(messages.drop_first())
    }
}

/// The bytes of the first line of a stream, with its end; all that is left where
/// no line ends.
pub open spec fn first_line(stream: Seq<u8>) -> Seq<u8> {
    stream.take(at_most(line_end(stream) + 1, stream.len() as int))
}

/// What is left of a stream behind its first line.
pub open spec fn behind_first_line(stream: Seq<u8>) -> Seq<u8> {
    stream.skip(first_line(stream).len() as int)
}

/// The texts that are read from a stream line by line, until it is closed.
pub open spec fn read_from(stream: Seq<u8>) -> Seq<Seq<char>>
    decreases stream.len(),
{
    if stream.len() == 0 {
        Seq::empty()
    } else {
        proof {
            line_end_is_first(stream);
        }
        seq![end_trimmed(decode_utf8(first_line(stream)))] + read_from(behind_first_line(stream))
    }
}

/// A message as it can be sent: on one line, and without whitespace at its end.
pub open spec fn sendable(text: Seq<char>) -> bool {
    &&& text.len() > 0
    &&& !is_space(text.last())
    &&& forall|i: int| 0 <= i < text.len() ==> #[trigger] text[i] != '\n'
}

/// A message that was written is read back as it was, whatever follows it; the
/// read takes its line and nothing else.
pub proof fn message_survives_the_stream(text: Seq<char>, rest: Seq<u8>)
    requires
        sendable(text),
    ensures
        ({
            let stream = encode_utf8(text).push(LINE_END) + rest;
            &&& first_line(stream) == encode_utf8(text).push(LINE_END)
            &&& valid_utf8(first_line(stream))
            &&& end_trimmed(decode_utf8(first_line(stream))) == text
            &&& behind_first_line(stream) == rest
        }),
{
    let line = encode_utf8(text).push(LINE_END);
    let stream = line + rest;
    bytes_are_without(text, '\n');
    line_end_is_first(stream);
    assert(stream[line.len() - 1] == LINE_END);
    assert forall|i: int| 0 <= i < line.len() - 1 implies stream[i] != LINE_END by {
        assert(stream[i] == encode_utf8(text)[i]);
    }
    assert(line_end(stream) == line.len() - 1);
    assert(first_line(stream) =~= line);
    assert(behind_first_line(stream) =~= rest);
    encoding_of_a_line(text);
    encode_utf8_valid_utf8(text.push('\n'));
    encode_utf8_decode_utf8(text.push('\n'));
    assert(text.push('\n').drop_last() =~= text);
    assert(is_space('\n'));
    assert(end_trimmed(text) == text);
}

/// Messages that were written one after the other are read back one by one, each
/// as it was, until the stream is closed.
pub proof fn messages_survive_the_stream(messages: Seq<Seq<char>>)
    requires
        forall|i: int| 0 <= i < messages.len() ==> sendable(#[trigger] messages[i]),
    ensures
        read_from(on_stream(messages)) == messages,
    decreases messages.len(),
{
    if messages.len() > 0 {
        let rest = messages.drop_first();
        assert forall|i: int| 0 <= i < rest.len() implies sendable(#[trigger] rest[i]) by {
            assert(rest[i] == messages[i + 1]);
        }
        messages_survive_the_stream(rest);
        assert(sendable(messages[0]));
        message_survives_the_stream(messages[0], on_stream(rest));
        assert(messages =~= seq![messages[0]] + rest);
    }
}

/// Of two messages that were written the first is read first, the second then,
/// and nothing is left.
pub proof fn two_messages_survive_the_stream(first: Seq<char>, second: Seq<char>)
    requires
        sendable(first),
        sendable(second),
    ensures
        ({
            let stream = encode_utf8(first).push(LINE_END) + encode_utf8(second).push(LINE_END);
            let rest = behind_first_line(stream);
            &&& end_trimmed(decode_utf8(first_line(stream))) == first
            &&& end_trimmed(decode_utf8(first_line(rest))) == second
            &&& behind_first_line(rest).len() == 0
        }),
{
    let line = encode_utf8(second).push(LINE_END);
    message_survives_the_stream(first, line);
    message_survives_the_stream(second, Seq::empty());
    assert(line + Seq::<u8>::empty() =~= line);
}

/// Values that are written in an encoding that gives messages, and that decoding
/// gives back, are read back one by one, each as it was.
pub proof fn values_survive_the_stream<T>(
    encode: spec_fn(T) -> Seq<char>,
    decode: spec_fn(Seq<char>) -> Option<T>,
    values: Seq<T>,
)
    requires
        forall|i: int|
            0 <= i < values.len() ==> {
                let text = encode(#[trigger] values[i]);
                sendable(text) && decode(text) == Some(values[i])
            },
    ensures
        read_from(on_stream(values.map_values(encode))).map_values(decode) == values.map_values(
            |value: T| Some(value),
        ),
{
    let messages = values.map_values(encode);
    assert forall|i: int| 0 <= i < messages.len() implies sendable(#[trigger] messages[i]) by {
        assert(messages[i] == encode(values[i]));
    }
    messages_survive_the_stream(messages);
    assert(messages.map_values(decode) =~= values.map_values(|value: T| Some(value)));
}

/// What is read of the bytes that were written for a message is the message,
/// whatever is written behind it; nothing that is read means that nothing was
/// written.
pub proof fn what_is_written_is_read(text: Seq<char>, rest: Seq<u8>)
    requires
        sendable(text),
    ensures
        ({
            let stream = framed(encode_utf8(text)) + rest;
            let line = first_line(stream);
            &&& valid_utf8(line)
            &&& text_read(line.len() as int, decode_utf8(line)) == Some(text)
            &&& behind_first_line(stream) == rest
        }),
        text_read(0, Seq::empty()) is None,
{
    message_survives_the_stream(text, rest);
}

} // verus!
