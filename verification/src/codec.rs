//! Framing a byte stream into messages: decoding every complete message at
//! the front of a buffer, and encoding messages one after another.
use crate::byte_buffer::bytes_view;
use crate::message::{
    lemma_message_roundtrip, lemma_message_wire_len, message_model, message_parse, message_wire,
    padded_spec, MessageModel, MessageParse, SequencedGenericMessage,
};
use crate::wire::{has_room_spec, Buffer, BufferError, ParseProblem, Unbuffer, UnbufferError};
use bytes::Bytes;
use vstd::prelude::*;

verus! {

/// Reads one message from the front of the buffer: `None` (and nothing
/// consumed) when the buffer does not yet hold a whole message.
pub fn decode_one(buf: &mut Bytes) -> (r: Result<Option<SequencedGenericMessage>, UnbufferError>)
    ensures
        ({
            let s = bytes_view(*old(buf));
            match message_parse(s) {
                MessageParse::Parsed(m, n) => (r matches Ok(Some(v)) && message_model(v) == m)
                    && bytes_view(*final(buf)) == s.skip(n as int),
                MessageParse::NeedMore(_) => (r matches Ok(None) && bytes_view(*final(buf)) == s),
                MessageParse::Malformed(p) => r == Err::<
                    Option<SequencedGenericMessage>,
                    UnbufferError,
                >(UnbufferError::ParseError(p)) && bytes_view(*final(buf)) == s,
            }
        }),
{
    match SequencedGenericMessage::unbuffer_ref(buf) {
        Ok(v) => Ok(Some(v)),
        Err(UnbufferError::NeedMoreData(_)) => Ok(None),
        Err(e) => Err(e),
    }
}

/// The outcome of decoding every complete message at the front of `s`: the
/// messages, the bytes they take, and the problem that stopped decoding, if
/// it was not simply the end of the complete messages.
pub open spec fn decode_all(s: Seq<u8>) -> (Seq<MessageModel>, nat, Option<ParseProblem>)
    decreases s.len(),
{
    match message_parse(s) {
        MessageParse::Parsed(m, n) => if 0 < n <= s.len() {
            let (ms, c, e) = decode_all(s.skip(n as int));
            (seq![m] + ms, n + c, e)
        } else {
            (Seq::empty(), 0, None)
        },
        MessageParse::NeedMore(_) => (Seq::empty(), 0, None),
        MessageParse::Malformed(p) => (Seq::empty(), 0, Some(p)),
    }
}

/// The wire forms of the messages, one after another.
pub open spec fn wire_all(ms: Seq<MessageModel>) -> Seq<u8>
    decreases ms.len(),
{
    if ms.len() == 0 {
        Seq::empty()
    } else {
        message_wire(ms[0]) + wire_all(ms.skip(1))
    }
}

/// Whether a message can be framed: its body fits the length field and the
/// platform's sizes.
pub open spec fn frameable(m: MessageModel) -> bool {
    m.body.len() + 24 <= u32::MAX && padded_spec(m.body.len()) + 24 <= usize::MAX
}

/// Decodes and encodes the framing of messages on a stream.
#[derive(Debug, Clone, Copy)]
pub struct FramedMessageCodec;

impl FramedMessageCodec {
    /// Decodes every complete message at the front of the buffer and
    /// consumes them; `None` when there is none.  A malformed message is an
    /// error, and then nothing is consumed.
    pub fn decode(&mut self, buf: &mut Bytes) -> (r: Result<
        Option<Vec<SequencedGenericMessage>>,
        UnbufferError,
    >)
        ensures
            ({
                let s = bytes_view(*old(buf));
                let (ms, c, e) = decode_all(s);
                &&& e matches Some(p) ==> (r == Err::<
                    Option<Vec<SequencedGenericMessage>>,
                    UnbufferError,
                >(UnbufferError::ParseError(p)) && bytes_view(*final(buf)) == s)
                &&& (e is None && ms.len() == 0) ==> (r matches Ok(None) && bytes_view(*final(buf))
                    == s)
                &&& (e is None && ms.len() > 0) ==> (r matches Ok(Some(v)) && v@.len() == ms.len()
                    && (forall|i: int| 0 <= i < ms.len() ==> message_model(#[trigger] v@[i]) == ms[i])
                    && bytes_view(*final(buf)) == s.skip(c as int))
            }),
    {
        let ghost s = bytes_view(*buf);
        let mut inner = buf.clone();
        let mut messages: Vec<SequencedGenericMessage> = Vec::new();
        let ghost mut consumed: nat = 0;
        assert(s.skip(0) =~= s);
        assert(messages@.map_values(|v: SequencedGenericMessage| message_model(v)) =~= Seq::<
            MessageModel,
        >::empty());
        loop
            invariant
                bytes_view(*buf) == s,
                consumed <= s.len(),
                bytes_view(inner) == s.skip(consumed as int),
                ({
                    let (ms, c, e) = decode_all(s);
                    let (ms2, c2, e2) = decode_all(s.skip(consumed as int));
                    &&& ms == messages@.map_values(|v: SequencedGenericMessage| message_model(v))
                        + ms2
                    &&& c == consumed + c2
                    &&& e == e2
                }),
            ensures
                bytes_view(inner) == s.skip(consumed as int),
                decode_all(s.skip(consumed as int)).0.len() == 0,
                decode_all(s.skip(consumed as int)).1 == 0,
                decode_all(s.skip(consumed as int)).2 is None,
            decreases bytes_view(inner).len(),
        {
            let ghost before = bytes_view(inner);
            let ghost old_messages = messages@;
            match decode_one(&mut inner) {
                Ok(Some(m)) => {
                    proof {
                        let (pm, pn) = match message_parse(before) {
                            MessageParse::Parsed(pm, pn) => (pm, pn),
                            _ => (message_model(m), 0),
                        };
                        assert(message_parse(before) is Parsed);
                        lemma_parse_takes_bytes(before);
                        assert(s.skip(consumed as int).skip(pn as int) =~= s.skip(
                            (consumed + pn) as int,
                        ));
                        consumed = consumed + pn;
                    }
                    messages.push(m);
                    assert(messages@.map_values(|v: SequencedGenericMessage| message_model(v))
                        =~= old_messages.map_values(|v: SequencedGenericMessage| message_model(v)).push(
                        message_model(m),
                    ));
                },
                Ok(None) => {
                    assert(message_parse(before) is NeedMore);
                    break ;
                },
                Err(e) => {
                    assert(message_parse(before) is Malformed);
                    return Err(e);
                },
            }
        }
        proof {
            assert(messages@.map_values(|v: SequencedGenericMessage| message_model(v)).len()
                == messages@.len());
        }
        if messages.len() == 0 {
            Ok(None)
        } else {
            *buf = inner;
            Ok(Some(messages))
        }
    }

    /// Appends the wire form of a message (see `SequencedMessage::buffer_ref`),
    /// when the vector has room for it.
    pub fn encode(&mut self, item: &SequencedGenericMessage, dst: &mut Vec<u8>) -> (r: Result<
        (),
        BufferError,
    >)
        ensures
            r is Ok <==> has_room_spec(
                old(dst)@.len(),
                padded_spec(message_model(*item).body.len()) + 24,
            ),
            r is Ok ==> final(dst)@ == old(dst)@ + message_wire(message_model(*item)),
            r is Err ==> final(dst)@ == old(dst)@ && r == Err::<(), BufferError>(
                BufferError::OutOfBuffer,
            ),
    {
        item.buffer_ref(dst)
    }
}

/// A parsed message takes at least its 24-byte header, and no more bytes
/// than there are.
pub proof fn lemma_parse_takes_bytes(s: Seq<u8>)
    ensures
        message_parse(s) matches MessageParse::Parsed(m, n) ==> 24 <= n <= s.len(),
{
}

/// Decoding the wire forms of frameable messages, one after another, gives
/// back exactly those messages and takes every byte.
#[verifier::spinoff_prover]
#[verifier::rlimit(40)]
pub proof fn lemma_decode_wire_all(ms: Seq<MessageModel>)
    requires
        forall|i: int| 0 <= i < ms.len() ==> frameable(#[trigger] ms[i]),
    ensures
        decode_all(wire_all(ms)) == (ms, wire_all(ms).len(), None::<ParseProblem>),
    decreases ms.len(),
{
    if ms.len() == 0 {
        assert(wire_all(ms) =~= Seq::<u8>::empty());
        assert(ms =~= Seq::<MessageModel>::empty());
    } else {
        let rest = wire_all(ms.skip(1));
        assert forall|i: int| 0 <= i < ms.skip(1).len() implies frameable(#[trigger] ms.skip(1)[i]) by {
            assert(ms.skip(1)[i] == ms[i + 1]);
        }
        lemma_decode_wire_all(ms.skip(1));
        assert(frameable(ms[0]));
        lemma_message_roundtrip(ms[0], rest);
        lemma_message_wire_len(ms[0]);
        let w = wire_all(ms);
        assert(w == message_wire(ms[0]) + rest);
        assert(w.skip(message_wire(ms[0]).len() as int) == rest);
        assert(seq![ms[0]] + ms.skip(1) =~= ms);
    }
}


/// Decoding the wire forms of frameable messages followed by the start of a
/// message that is not complete yet gives back exactly those messages and
/// leaves that start for later.
#[verifier::spinoff_prover]
#[verifier::rlimit(40)]
pub proof fn lemma_decode_wire_all_then_partial(ms: Seq<MessageModel>, tail: Seq<u8>)
    requires
        forall|i: int| 0 <= i < ms.len() ==> frameable(#[trigger] ms[i]),
        message_parse(tail) is NeedMore,
    ensures
        decode_all(wire_all(ms) + tail) == (ms, wire_all(ms).len(), None::<ParseProblem>),
    decreases ms.len(),
{
    if ms.len() == 0 {
        assert(wire_all(ms) =~= Seq::<u8>::empty());
        assert(wire_all(ms) + tail =~= tail);
        assert(ms =~= Seq::<MessageModel>::empty());
    } else {
        let rest = wire_all(ms.skip(1));
        assert forall|i: int| 0 <= i < ms.skip(1).len() implies frameable(#[trigger] ms.skip(1)[i]) by {
            assert(ms.skip(1)[i] == ms[i + 1]);
        }
        lemma_decode_wire_all_then_partial(ms.skip(1), tail);
        assert(frameable(ms[0]));
        lemma_message_roundtrip(ms[0], rest + tail);
        lemma_message_wire_len(ms[0]);
        let w = wire_all(ms);
        assert(w == message_wire(ms[0]) + rest);
        assert(w + tail =~= message_wire(ms[0]) + (rest + tail));
        assert((w + tail).skip(message_wire(ms[0]).len() as int) == rest + tail);
        assert(seq![ms[0]] + ms.skip(1) =~= ms);
    }
}

} // verus!
