//! Turning the bytes read from a stream into messages, as a state machine:
//! the caller does the reading and hands each outcome back as an event.
use crate::byte_buffer::{bytes_as_slice, bytes_from_vec, bytes_view};
use crate::codec::decode_one;
use crate::message::{message_model, message_parse, MessageParse, SequencedGenericMessage};
use crate::wire::UnbufferError;
use bytes::Bytes;
use vstd::prelude::*;

verus! {

/// Where a message stream stands.
#[derive(Debug, Clone, Copy, PartialEq, Eq, Structural)]
pub enum MessageStreamState {
    /// Waiting for bytes from the stream.
    Reading,
    /// Parsing messages from the bytes already read.
    Parsing,
    /// The stream failed or ended; it yields nothing more.
    Error,
}

/// What happened since the last step.
#[derive(Debug)]
pub enum StreamEvent {
    /// Nothing new: the caller asks for the next message.
    Poll,
    /// These bytes were read from the stream (none: the stream ended).
    ReadData(Vec<u8>),
    /// Reading from the stream failed.
    ReadFailed,
}

/// What the caller should do next.
#[derive(Debug)]
pub enum StreamAction {
    /// Read more bytes from the stream, then step with what came.
    Read,
    /// Hand out this message; step with `Poll` for the next one.
    Yield(SequencedGenericMessage),
    /// Hand out the read failure; the stream is finished.
    ReadError,
    /// Hand out this parse failure; the stream is finished.
    Failed(UnbufferError),
    /// The stream is finished.
    End,
}

/// Parses messages from the bytes read from a stream.
#[derive(Debug)]
pub struct MessageStream {
    state: MessageStreamState,
    buf: Bytes,
}

impl MessageStream {
    /// The state.
    pub closed spec fn state(self) -> MessageStreamState {
        self.state
    }

    /// The bytes read and not yet parsed.
    pub closed spec fn pending(self) -> Seq<u8> {
        bytes_view(self.buf)
    }

    /// A stream waiting for its first bytes.
    pub fn new() -> (r: MessageStream)
        ensures
            r.state() == MessageStreamState::Reading,
            r.pending() == Seq::<u8>::empty(),
    {
        let empty: Vec<u8> = Vec::new();
        MessageStream { state: MessageStreamState::Reading, buf: bytes_from_vec(empty) }
    }

    /// The current state.
    pub fn current_state(&self) -> (r: MessageStreamState)
        ensures
            r == self.state(),
    {
        self.state
    }

    /// Appends bytes to the pending ones.
    fn append(&mut self, data: &Vec<u8>)
        ensures
            final(self).pending() == old(self).pending() + data@,
            final(self).state() == old(self).state(),
    {
        let old_bytes = bytes_as_slice(&self.buf);
        let mut joined: Vec<u8> = Vec::new();
        let mut i: usize = 0;
        while i < old_bytes.len()
            invariant
                i <= old_bytes@.len(),
                joined@ == old_bytes@.take(i as int),
            decreases old_bytes@.len() - i,
        {
            joined.push(old_bytes[i]);
            i = i + 1;
            assert(joined@ =~= old_bytes@.take(i as int));
        }
        assert(old_bytes@.take(i as int) =~= old_bytes@);
        let ghost mid = joined@;
        let mut j: usize = 0;
        while j < data.len()
            invariant
                j <= data@.len(),
                joined@ == mid + data@.take(j as int),
            decreases data@.len() - j,
        {
            joined.push(data[j]);
            j = j + 1;
            assert(joined@ =~= mid + data@.take(j as int));
        }
        assert(data@.take(j as int) =~= data@);
        self.buf = bytes_from_vec(joined);
    }

    /// Parses the next message from the pending bytes.
    fn parse(&mut self) -> (r: StreamAction)
        requires
            old(self).state() != MessageStreamState::Error,
        ensures
            ({
                let s = old(self).pending();
                match message_parse(s) {
                    MessageParse::Parsed(m, n) => (r matches StreamAction::Yield(v) && message_model(v)
                        == m) && final(self).pending() == s.skip(n as int) && final(self).state()
                        == MessageStreamState::Parsing,
                    MessageParse::NeedMore(_) => (r matches StreamAction::Read) && final(self).pending()
                        == s && final(self).state() == MessageStreamState::Reading,
                    MessageParse::Malformed(p) => (r matches StreamAction::Failed(e) && e
                        == UnbufferError::ParseError(p)) && final(self).pending() == s
                        && final(self).state() == MessageStreamState::Error,
                }
            }),
    {
        match decode_one(&mut self.buf) {
            Ok(Some(m)) => {
                self.state = MessageStreamState::Parsing;
                StreamAction::Yield(m)
            },
            Ok(None) => {
                self.state = MessageStreamState::Reading;
                StreamAction::Read
            },
            Err(e) => {
                self.state = MessageStreamState::Error;
                StreamAction::Failed(e)
            },
        }
    }

    /// Takes one step: the outcome of the last action goes in, the next
    /// action comes out.  A finished stream stays finished.  Reading no
    /// bytes means the stream ended (the peer closed it), so the stream ends
    /// there rather than reading again.
    pub fn step(&mut self, event: StreamEvent) -> (r: StreamAction)
        ensures
            old(self).state() == MessageStreamState::Error ==> (r matches StreamAction::End)
                && final(self).state() == MessageStreamState::Error && final(self).pending()
                == old(self).pending(),
            old(self).state() != MessageStreamState::Error ==> match event {
                StreamEvent::ReadFailed => (r matches StreamAction::ReadError) && final(self).state()
                    == MessageStreamState::Error && final(self).pending() == old(self).pending(),
                StreamEvent::ReadData(d) => if d@.len() == 0 {
                    (r matches StreamAction::End) && final(self).state()
                        == MessageStreamState::Error && final(self).pending() == old(self).pending()
                } else {
                    parse_step(old(self).pending() + d@, r, final(self).pending(), final(self).state())
                },
                StreamEvent::Poll => if old(self).state() == MessageStreamState::Reading {
                    (r matches StreamAction::Read) && *final(self) == *old(self)
                } else {
                    parse_step(old(self).pending(), r, final(self).pending(), final(self).state())
                },
            },
    {
        if self.state == MessageStreamState::Error {
            return StreamAction::End;
        }
        match event {
            StreamEvent::ReadFailed => {
                self.state = MessageStreamState::Error;
                StreamAction::ReadError
            },
            StreamEvent::ReadData(d) => {
                if d.len() == 0 {
                    self.state = MessageStreamState::Error;
                    return StreamAction::End;
                }
                self.append(&d);
                self.parse()
            },
            StreamEvent::Poll => {
                if self.state == MessageStreamState::Reading {
                    StreamAction::Read
                } else {
                    self.parse()
                }
            },
        }
    }
}

/// Whether parsing the next message of `s` gave action `r`, left `pending`
/// and moved to `state`.
pub open spec fn parse_step(
    s: Seq<u8>,
    r: StreamAction,
    pending: Seq<u8>,
    state: MessageStreamState,
) -> bool {
    match message_parse(s) {
        MessageParse::Parsed(m, n) => (r matches StreamAction::Yield(v) && message_model(v) == m)
            && pending == s.skip(n as int) && state == MessageStreamState::Parsing,
        MessageParse::NeedMore(_) => (r matches StreamAction::Read) && pending == s && state
            == MessageStreamState::Reading,
        MessageParse::Malformed(p) => (r matches StreamAction::Failed(e) && e
            == UnbufferError::ParseError(p)) && pending == s && state == MessageStreamState::Error,
    }
}

} // verus!
