//! Messages between the local processes: one line of JSON each.
use crate::json::{content, parse, parsed, Json};
use crate::text::chars_of;
use vstd::prelude::*;
use vstd::string::*;

verus! {

/// The most bytes that are read of a message, with its line feed.
pub const LONGEST_MESSAGE: usize = 65_536;

/// Why a message was not received.
#[derive(Debug)]
pub enum ProtocolError {
    /// The connection was closed before the message was complete, or it is too long.
    Incomplete,
    /// The message is no JSON.
    Malformed(String),
}

impl ProtocolError {
    pub open spec fn spec_describe(self) -> Seq<char> {
        match self {
            ProtocolError::Incomplete => "local connection closed or message incomplete"@,
            ProtocolError::Malformed(message) => message@,
        }
    }

    /// The error in words.
    pub fn describe(&self) -> (text: String)
        ensures
            text@ == self.spec_describe(),
    {
        match self {
            ProtocolError::Incomplete => "local connection closed or message incomplete".to_string(),
            ProtocolError::Malformed(message) => message.clone(),
        }
    }
}

/// The line that carries a message.
pub open spec fn framed(message: Seq<char>) -> Seq<char> {
    message.push('\n')
}

/// What was read of a stream of characters for one message: up to and with the first line feed, if
/// there is one.
pub open spec fn first_line(stream: Seq<char>) -> Seq<char>
    decreases stream.len(),
{
    if stream.len() == 0 || stream[0] == '\n' {
        if stream.len() == 0 {
            stream
        } else {
            stream.take(1)
        }
    } else {
        seq![stream[0]] + first_line(stream.skip(1))
    }
}

/// Makes a message into the line that carries it.
pub fn send(message: &str) -> (line: String)
    ensures
        line@ == framed(message@),
{
    let mut line = message.to_string();
    line.push('\n');
    line
}

/// Takes the value out of a line that was read. A line without a line feed is not complete.
pub fn receive(line: &str) -> (r: Result<serde_json::Value, ProtocolError>)
    ensures
        match r {
            Ok(value) => {
                &&& line@.len() > 0 && line@.last() == '\n'
                &&& parsed(line@) == Ok::<Json, Seq<char>>(content(value))
            },
            Err(ProtocolError::Incomplete) => line@.len() == 0 || line@.last() != '\n',
            Err(ProtocolError::Malformed(message)) => {
                &&& line@.len() > 0 && line@.last() == '\n'
                &&& parsed(line@) == Err::<Json, Seq<char>>(message@)
            },
        },
{
    let chars = chars_of(line);
    let n: usize = chars.len();
    if n == 0 || chars[n - 1] != '\n' {
        return Err(ProtocolError::Incomplete);
    }
    match parse(line) {
        Ok(value) => Ok(value),
        Err(message) => Err(ProtocolError::Malformed(message)),
    }
}

/// Messages sent one after the other are received one by one: what is read for the first is the
/// line that carries it, whatever follows.
pub proof fn law_messages_are_received_one_by_one(message: Seq<char>, rest: Seq<char>)
    requires
        !message.contains('\n'),
    ensures
        first_line(framed(message) + rest) == framed(message),
    decreases message.len(),
{
    let stream = framed(message) + rest;
    if message.len() == 0 {
        assert(stream[0] == '\n');
        assert(stream.take(1) =~= framed(message));
    } else {
        let shorter = message.skip(1);
        assert(message.contains(message[0]));
        assert(!shorter.contains('\n')) by {
            if shorter.contains('\n') {
                let i = choose|i: int| 0 <= i < shorter.len() && shorter[i] == '\n';
                assert(message[i + 1] == '\n');
            }
        }
        law_messages_are_received_one_by_one(shorter, rest);
        assert(stream.skip(1) =~= framed(shorter) + rest);
        assert(seq![stream[0]] + framed(shorter) =~= framed(message));
    }
}

/// A connection that ends within a message never looks like a message.
pub proof fn law_cut_messages_are_incomplete(message: Seq<char>, n: int)
    requires
        !message.contains('\n'),
        0 <= n <= message.len(),
    ensures
        ({
            let read = first_line(framed(message).take(n));
            read.len() == 0 || read.last() != '\n'
        }),
    decreases message.len(),
{
    let stream = framed(message).take(n);
    if n > 0 {
        assert(stream[0] == message[0]);
        assert(message.contains(message[0]));
        let shorter = message.skip(1);
        assert(!shorter.contains('\n')) by {
            if shorter.contains('\n') {
                let i = choose|i: int| 0 <= i < shorter.len() && shorter[i] == '\n';
                assert(message[i + 1] == '\n');
            }
        }
        assert(stream.skip(1) =~= framed(shorter).take(n - 1));
        law_cut_messages_are_incomplete(shorter, n - 1);
        let read = first_line(stream.skip(1));
        assert(first_line(stream) == seq![stream[0]] + read);
        if read.len() > 0 {
            assert((seq![stream[0]] + read).last() == read.last());
        }
    }
}

/// A message is carried as it is, by one line feed more.
pub proof fn law_messages_are_carried_as_they_are(message: Seq<char>)
    ensures
        framed(message).len() == message.len() + 1,
        framed(message).take(message.len() as int) == message,
        framed(message).last() == '\n',
{
    assert(framed(message).take(message.len() as int) =~= message);
}

/// What is received is what was sent, and only a complete line is a message.
pub proof fn law_complete_lines_are_messages(
    message: &str,
    line: String,
    text: &str,
    r: Result<serde_json::Value, ProtocolError>,
)
    requires
        call_ensures(send, (message,), line),
        call_ensures(receive, (text,), r),
    ensures
        line@ == message@ + seq!['\n'],
        text@.len() == 0 || text@.last() != '\n' ==> r is Err && r->Err_0 is Incomplete,
        text@.len() > 0 && text@.last() == '\n' ==> match parsed(text@) {
            Ok(json) => r is Ok && content(r->Ok_0) == json,
            Err(error) => r is Err && (r->Err_0 matches ProtocolError::Malformed(words) && words@
                == error),
        },
{
    assert(message@ + seq!['\n'] =~= message@.push('\n'));
}

/// Every message that was not received says why.
pub proof fn law_protocol_errors_in_words(error: &ProtocolError, text: String)
    requires
        call_ensures(ProtocolError::describe, (error,), text),
    ensures
        *error matches ProtocolError::Incomplete ==> text@ == "local connection closed or message incomplete"@,
        *error matches ProtocolError::Malformed(message) ==> text@ == message@,
{
}

} // verus!
