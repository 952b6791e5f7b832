//! Messages: headers, bodies, sizes and the wire form of a whole message.
use crate::byte_buffer::{bytes_as_slice, bytes_from_vec, bytes_len, bytes_split_to, bytes_view};
use crate::constants::ALIGN;
use crate::encoding::{
    i32_wire, lemma_be_bytes_len, lemma_be_value_bound, lemma_pow256_values, read_be, to_unsigned,
    u32_wire,
};
use crate::time::{lemma_timeval_wire_parse, timeval_parse, TimeVal};
use crate::types::{SenderId, SequenceNumber, StaticTypeName, TypeId};
use crate::wire::{
    check_buffer_remaining, has_room_spec, i32_parse, u32_parse, Buffer, BufferError, BufferSize,
    BytesRequired, ParseProblem, UnbufferError, Unbuffer, lemma_i32_wire_parse,
    lemma_u32_wire_parse,
};
use bytes::Bytes;
use vstd::prelude::*;

verus! {

// ---------------------------------------------------------------------------
// Sizes
/// The number of zero bytes that follow a field of `len` bytes to align it:
/// the fewest that make its length a multiple of `ALIGN` (none for a field
/// that is already aligned).
pub open spec fn pad_spec(len: nat) -> nat {
    ((8 - len % 8) % 8) as nat
}

/// The length of a field of `len` bytes once padded.
pub open spec fn padded_spec(len: nat) -> nat {
    len + pad_spec(len)
}

/// The number of padding bytes that follow a field of `len` bytes.
pub fn compute_padding(len: usize) -> (r: usize)
    ensures
        r == pad_spec(len as nat),
        r < 8,
        (len + r) % 8 == 0,
{
    (ALIGN - len % ALIGN) % ALIGN
}

/// The length of a field of `len` bytes once padded.
pub fn padded(len: usize) -> (r: usize)
    requires
        padded_spec(len as nat) <= usize::MAX,
    ensures
        r == padded_spec(len as nat),
{
    len + compute_padding(len)
}

/// The unpadded size of a message header: length, time (two fields), sender and type.
pub const UNPADDED_HEADER_SIZE: usize = 20usize;

/// The padded size of a message header (the padding holds the sequence number).
pub const PADDED_HEADER_SIZE: usize = 24usize;

/// Calculations related to the size of a message.
#[derive(Debug, Clone, Copy, PartialEq, Eq, Structural, PartialOrd, Ord, Hash)]
pub struct MessageSize {
    /// The unpadded size of the message body only.
    pub unpadded_body_size: usize,
}

/// The type of the length field of a message.
pub type LengthField = u32;

impl MessageSize {
    /// A size from the unpadded size of a message body.
    pub fn from_unpadded_body_size(unpadded_body_size: usize) -> (r: MessageSize)
        ensures
            r.unpadded_body_size == unpadded_body_size,
    {
        MessageSize { unpadded_body_size }
    }

    /// A size from the total unpadded size of a message (header plus body).
    pub fn from_unpadded_message_size(unpadded_message_size: usize) -> (r: MessageSize)
        requires
            unpadded_message_size >= UNPADDED_HEADER_SIZE,
        ensures
            r.unpadded_body_size == unpadded_message_size - UNPADDED_HEADER_SIZE,
    {
        MessageSize::from_unpadded_body_size(unpadded_message_size - UNPADDED_HEADER_SIZE)
    }

    /// A size from the length field of a message (padded header plus unpadded body).
    pub fn from_length_field(length_field: LengthField) -> (r: MessageSize)
        requires
            length_field >= PADDED_HEADER_SIZE,
        ensures
            r.unpadded_body_size == length_field - PADDED_HEADER_SIZE,
    {
        MessageSize::from_unpadded_body_size(length_field as usize - PADDED_HEADER_SIZE)
    }

    /// The unpadded size of the message body.
    pub fn unpadded_body_size(&self) -> (r: usize)
        ensures
            r == self.unpadded_body_size,
    {
        self.unpadded_body_size
    }

    /// The padded header size plus the unpadded body size, as put in the
    /// message header's length field (truncated to 32 bits).
    pub fn length_field(&self) -> (r: LengthField)
        requires
            self.unpadded_body_size + PADDED_HEADER_SIZE <= usize::MAX,
        ensures
            r == length_field_spec(self.unpadded_body_size as nat),
    {
        let v = self.unpadded_body_size + PADDED_HEADER_SIZE;
        let r = ((v as u64) % 4294967296u64) as u32;
        r
    }

    /// The size of the body plus padding (a multiple of `ALIGN`).
    pub fn padded_body_size(&self) -> (r: usize)
        requires
            padded_spec(self.unpadded_body_size as nat) <= usize::MAX,
        ensures
            r == padded_spec(self.unpadded_body_size as nat),
    {
        padded(self.unpadded_body_size)
    }

    /// The number of padding bytes that follow the message body.
    pub fn body_padding(&self) -> (r: usize)
        ensures
            r == pad_spec(self.unpadded_body_size as nat),
            r < ALIGN,
            (self.unpadded_body_size + r) % (ALIGN as int) == 0,
            padded_spec(self.unpadded_body_size as nat) == self.unpadded_body_size + r,
    {
        compute_padding(self.unpadded_body_size)
    }

    /// The total padded size of a message (header and body padded separately):
    /// the size of buffer the message actually needs.
    pub fn padded_message_size(&self) -> (r: usize)
        requires
            padded_spec(self.unpadded_body_size as nat) + PADDED_HEADER_SIZE <= usize::MAX,
        ensures
            r == padded_spec(self.unpadded_body_size as nat) + PADDED_HEADER_SIZE,
    {
        self.padded_body_size() + PADDED_HEADER_SIZE
    }
}

/// The length field of a message whose body has `body_len` bytes.
pub open spec fn length_field_spec(body_len: nat) -> u32 {
    ((body_len + 24) % 4294967296) as u32
}

/// Going from a body size to the length field and back gives the body size.
pub proof fn lemma_length_field_roundtrip(body_len: nat)
    requires
        body_len + 24 <= u32::MAX,
    ensures
        length_field_spec(body_len) >= PADDED_HEADER_SIZE,
        length_field_spec(body_len) - PADDED_HEADER_SIZE == body_len,
{
}

// ---------------------------------------------------------------------------
// Messages
/// Marks types that can be placed in a message body.
pub trait MessageBody {}

/// How a typed message body type is identified.
pub enum MessageTypeIdentifier {
    /// User message types are identified by a name, dynamically associated
    /// with an ID on each side.
    UserMessageName(StaticTypeName),
    /// System message types are identified by a constant, negative type ID.
    SystemMessageId(TypeId),
}

/// A message type identifier by plain values.
pub enum MessageTypeIdentity {
    /// A user message type, by the bytes of its name.
    UserMessageName(Seq<u8>),
    /// A system message type, by its type ID.
    SystemMessageId(TypeId),
}

impl View for MessageTypeIdentifier {
    type V = MessageTypeIdentity;

    open spec fn view(&self) -> MessageTypeIdentity {
        match self {
            MessageTypeIdentifier::UserMessageName(n) => MessageTypeIdentity::UserMessageName(n.0@),
            MessageTypeIdentifier::SystemMessageId(id) => MessageTypeIdentity::SystemMessageId(*id),
        }
    }
}

/// Message bodies that know how their message type is identified.
pub trait TypedMessageBody {
    /// How this message type is identified.
    spec fn type_identity() -> MessageTypeIdentity;

    /// The name (user messages) or type ID (system messages) of this message type.
    fn message_identifier() -> (r: MessageTypeIdentifier)
        ensures
            r@ == Self::type_identity(),
    ;
}

/// Header information for a message.
#[derive(Debug, Clone, Copy, PartialEq, Eq, Structural, PartialOrd, Ord, Hash)]
pub struct MessageHeader {
    /// When the message was made.
    pub time: TimeVal,
    /// Its type.
    pub message_type: TypeId,
    /// Its sender.
    pub sender: SenderId,
}

impl MessageHeader {
    /// A header with the given time, or the current time when none is given.
    pub fn new(time: Option<TimeVal>, message_type: TypeId, sender: SenderId) -> (r: MessageHeader)
        ensures
            time matches Some(t) ==> r.time == t,
            r.message_type == message_type,
            r.sender == sender,
    {
        let time = match time {
            Some(t) => t,
            None => TimeVal::get_time_of_day(),
        };
        MessageHeader { time, message_type, sender }
    }

    /// The time.
    pub fn time(&self) -> (r: &TimeVal)
        ensures
            *r == self.time,
    {
        &self.time
    }

    /// The message type.
    pub fn message_type(&self) -> (r: TypeId)
        ensures
            r == self.message_type,
    {
        self.message_type
    }

    /// The sender.
    pub fn sender(&self) -> (r: SenderId)
        ensures
            r == self.sender,
    {
        self.sender
    }
}

/// A message with header information, almost ready to be buffered to the wire.
#[derive(Debug, Clone, PartialEq, Eq, Hash)]
pub struct Message<T> {
    /// The header.
    pub header: MessageHeader,
    /// The body.
    pub body: T,
}

impl<T> Message<T> {
    /// A message with a new header (see `MessageHeader::new`) and the given body.
    pub fn new(time: Option<TimeVal>, message_type: TypeId, sender: SenderId, body: T) -> (r:
        Message<T>)
        ensures
            time matches Some(t) ==> r.header.time == t,
            r.header.message_type == message_type,
            r.header.sender == sender,
            r.body == body,
    {
        Message { header: MessageHeader::new(time, message_type, sender), body }
    }

    /// A message made of a header and a body.
    pub fn from_header_and_body(header: MessageHeader, body: T) -> (r: Message<T>)
        ensures
            r.header == header,
            r.body == body,
    {
        Message { header, body }
    }

    /// This message with a sequence number added.
    pub fn into_sequenced_message(self, sequence_number: SequenceNumber) -> (r: SequencedMessage<
        T,
    >)
        ensures
            r.message == self,
            r.sequence_number == sequence_number,
    {
        SequencedMessage { message: self, sequence_number }
    }

    /// Whether the message type is a system one (type ID below zero).
    pub fn is_system_message(&self) -> (r: bool)
        ensures
            r == (self.header.message_type.0 < 0),
    {
        self.header.message_type.is_system_message()
    }
}

/// A message with header information and sequence number, ready to be buffered to the wire.
#[derive(Debug, Clone, PartialEq, Eq, Hash)]
pub struct SequencedMessage<T> {
    /// The message.
    pub message: Message<T>,
    /// Its sequence number.
    pub sequence_number: SequenceNumber,
}

impl<T> SequencedMessage<T> {
    /// A sequenced message with a new header (see `MessageHeader::new`).
    pub fn new(
        time: Option<TimeVal>,
        message_type: TypeId,
        sender: SenderId,
        body: T,
        sequence_number: SequenceNumber,
    ) -> (r: SequencedMessage<T>)
        ensures
            time matches Some(t) ==> r.message.header.time == t,
            r.message.header.message_type == message_type,
            r.message.header.sender == sender,
            r.message.body == body,
            r.sequence_number == sequence_number,
    {
        SequencedMessage { message: Message::new(time, message_type, sender, body), sequence_number }
    }

    /// The message, without its sequence number.
    pub fn into_inner(self) -> (r: Message<T>)
        ensures
            r == self.message,
    {
        self.message
    }
}

/// Body of a message before dispatch on its type decodes it further.
#[derive(Debug, Clone, PartialEq, Eq, Hash)]
pub struct GenericBody {
    /// The body bytes.
    pub inner: Bytes,
}

impl GenericBody {
    /// A body holding the given bytes.
    pub fn new(inner: Bytes) -> (r: GenericBody)
        ensures
            r.inner == inner,
    {
        GenericBody { inner }
    }

    /// The bytes of the body.
    pub open spec fn contents(self) -> Seq<u8> {
        bytes_view(self.inner)
    }
}

impl Default for GenericBody {
    fn default() -> (r: GenericBody)
        ensures
            r.contents() == Seq::<u8>::empty(),
    {
        GenericBody::new(bytes_from_vec(Vec::new()))
    }
}

impl MessageBody for GenericBody {}

/// A message whose body has not been decoded.
pub type GenericMessage = Message<GenericBody>;

/// A sequenced message whose body has not been decoded.
pub type SequencedGenericMessage = SequencedMessage<GenericBody>;

// ---------------------------------------------------------------------------
// Wire form of a whole message
/// `n` zero bytes.
pub open spec fn zeros(n: nat) -> Seq<u8> {
    Seq::new(n, |i: int| 0u8)
}

/// What a sequenced generic message holds, as plain values.
pub struct MessageModel {
    pub time: TimeVal,
    pub message_type: TypeId,
    pub sender: SenderId,
    pub sequence_number: SequenceNumber,
    pub body: Seq<u8>,
}

/// What a sequenced generic message holds.
pub open spec fn message_model(m: SequencedGenericMessage) -> MessageModel {
    MessageModel {
        time: m.message.header.time,
        message_type: m.message.header.message_type,
        sender: m.message.header.sender,
        sequence_number: m.sequence_number,
        body: m.message.body.contents(),
    }
}

/// The wire form of a message: length field, time, sender, type, sequence
/// number (each four bytes, big-endian), then the body and its padding.
pub open spec fn message_wire(m: MessageModel) -> Seq<u8> {
    u32_wire(length_field_spec(m.body.len())) + m.time.wire_spec() + i32_wire(m.sender.0)
        + i32_wire(m.message_type.0) + u32_wire(m.sequence_number.0) + m.body + zeros(
        pad_spec(m.body.len()),
    )
}

/// The outcome of reading a message from the front of a byte sequence.
pub enum MessageParse {
    /// A message, and the number of bytes it took.
    Parsed(MessageModel, nat),
    /// More bytes are needed.
    NeedMore(BytesRequired),
    /// The data cannot be a message.
    Malformed(ParseProblem),
}

/// Reading a message from the front of `s`: the length field says how many
/// bytes the whole (padded) message takes; the padding bytes are skipped
/// without being checked.
pub open spec fn message_parse(s: Seq<u8>) -> MessageParse {
    if s.len() < 4 {
        MessageParse::NeedMore(BytesRequired::AtLeast((4 - s.len()) as usize))
    } else {
        let lf = u32_parse(s);
        if lf < 24 {
            MessageParse::Malformed(ParseProblem::LengthFieldTooSmall(lf))
        } else {
            let b = (lf - 24) as nat;
            let total = padded_spec(b) + 24;
            if total > usize::MAX {
                MessageParse::Malformed(ParseProblem::MessageTooLarge(lf))
            } else if s.len() < total {
                MessageParse::NeedMore(BytesRequired::Exactly((total - s.len()) as usize))
            } else {
                MessageParse::Parsed(
                    MessageModel {
                        time: timeval_parse(s.skip(4)),
                        sender: SenderId(i32_parse(s.skip(12))),
                        message_type: TypeId(i32_parse(s.skip(16))),
                        sequence_number: SequenceNumber(u32_parse(s.skip(20))),
                        body: s.subrange(24, 24 + b as int),
                    },
                    total,
                )
            }
        }
    }
}

impl BufferSize for SequencedMessage<GenericBody> {
    fn buffer_size(&self) -> (r: usize)
        ensures
            bytes_view(self.message.body.inner).len() + 32 <= usize::MAX ==> r == padded_spec(
                bytes_view(self.message.body.inner).len(),
            ) + 24,
            bytes_view(self.message.body.inner).len() + 32 > usize::MAX ==> r == usize::MAX,
    {
        let b = bytes_len(&self.message.body.inner);
        if b > usize::MAX - 32 {
            usize::MAX
        } else {
            MessageSize::from_unpadded_body_size(b).padded_message_size()
        }
    }
}

impl Buffer for SequencedMessage<GenericBody> {
    open spec fn buffered(&self) -> Seq<u8> {
        message_wire(message_model(*self))
    }

    open spec fn bufferable(&self) -> bool {
        true
    }

    /// Appends the wire form of the message, if there is room for all of it.
    fn buffer_ref(&self, buf: &mut Vec<u8>) -> (r: Result<(), BufferError>)
        ensures
            ({
                let m = message_model(*self);
                &&& r is Ok <==> has_room_spec(old(buf)@.len(), padded_spec(m.body.len()) + 24)
                &&& r is Ok ==> final(buf)@ == old(buf)@ + message_wire(m)
                &&& r is Err ==> final(buf)@ == old(buf)@ && r == Err::<(), BufferError>(
                    BufferError::OutOfBuffer,
                )
            }),
    {
        let body = bytes_as_slice(&self.message.body.inner);
        let b = body.len();
        proof {
            lemma_message_wire_len(message_model(*self));
        }
        if b > (isize::MAX as usize) {
            return Err(BufferError::OutOfBuffer);
        }
        let size = MessageSize::from_unpadded_body_size(b);
        let total = size.padded_message_size();
        check_buffer_remaining(buf, total)?;
        let ghost start = buf@;
        let length_field = size.length_field();
        proof {
            lemma_be_bytes_len(length_field as nat, 4);
            lemma_be_bytes_len(to_unsigned(self.message.header.time.sec.0 as int, 4), 4);
            lemma_be_bytes_len(to_unsigned(self.message.header.time.usec.0 as int, 4), 4);
            lemma_be_bytes_len(to_unsigned(self.message.header.sender.0 as int, 4), 4);
            lemma_be_bytes_len(to_unsigned(self.message.header.message_type.0 as int, 4), 4);
        }
        length_field.buffer_ref(buf)?;
        self.message.header.time.buffer_ref(buf)?;
        self.message.header.sender.buffer_ref(buf)?;
        self.message.header.message_type.buffer_ref(buf)?;
        self.sequence_number.buffer_ref(buf)?;
        let ghost header_end = buf@;
        let mut i: usize = 0;
        while i < b
            invariant
                i <= b == body@.len(),
                buf@ == header_end + body@.take(i as int),
            decreases b - i,
        {
            buf.push(body[i]);
            i = i + 1;
            assert(buf@ =~= header_end + body@.take(i as int));
        }
        let pad = size.body_padding();
        let ghost body_end = buf@;
        let mut j: usize = 0;
        while j < pad
            invariant
                j <= pad <= 8,
                buf@ == body_end + zeros(j as nat),
            decreases pad - j,
        {
            buf.push(0u8);
            j = j + 1;
            assert(buf@ =~= body_end + zeros(j as nat));
        }
        assert(body@.take(b as int) =~= body@);
        assert(buf@ =~= start + message_wire(message_model(*self)));
        Ok(())
    }
}

impl Unbuffer for SequencedMessage<GenericBody> {
    open spec fn parses(s: Seq<u8>) -> bool {
        message_parse(s) is Parsed
    }

    open spec fn parses_as(s: Seq<u8>, v: SequencedMessage<GenericBody>) -> bool {
        message_parse(s) matches MessageParse::Parsed(m, _) && message_model(v) == m
    }

    open spec fn consumed(s: Seq<u8>) -> nat {
        match message_parse(s) {
            MessageParse::Parsed(_, n) => n,
            _ => 0,
        }
    }

    open spec fn needs_more(s: Seq<u8>) -> Option<BytesRequired> {
        match message_parse(s) {
            MessageParse::NeedMore(n) => Some(n),
            _ => None,
        }
    }

    /// Reads a message from the front of the buffer.  On success the whole
    /// padded message is consumed; on error nothing is.
    fn unbuffer_ref(buf: &mut Bytes) -> (r: Result<SequencedMessage<GenericBody>, UnbufferError>)
        ensures
            ({
                let s = bytes_view(*old(buf));
                match message_parse(s) {
                    MessageParse::Parsed(m, n) => {
                        &&& r matches Ok(v) && message_model(v) == m
                        &&& bytes_view(*final(buf)) == s.skip(n as int)
                    },
                    MessageParse::NeedMore(n) => {
                        &&& r == Err::<SequencedMessage<GenericBody>, UnbufferError>(
                            UnbufferError::NeedMoreData(n),
                        )
                        &&& bytes_view(*final(buf)) == s
                    },
                    MessageParse::Malformed(p) => {
                        &&& r == Err::<SequencedMessage<GenericBody>, UnbufferError>(
                            UnbufferError::ParseError(p),
                        )
                        &&& bytes_view(*final(buf)) == s
                    },
                }
            }),
    {
        let ghost s = bytes_view(*buf);
        let len = bytes_len(buf);
        if len < 4 {
            return Err(UnbufferError::NeedMoreData(BytesRequired::AtLeast(4 - len)));
        }
        let length_field = read_be(bytes_as_slice(buf), 0, 4);
        proof {
            lemma_pow256_values();
            lemma_be_value_bound(s.subrange(0, 4));
            assert(s.subrange(0, 4) =~= s.take(4));
        }
        let length_field = length_field as u32;
        if length_field < 24 {
            return Err(UnbufferError::ParseError(ParseProblem::LengthFieldTooSmall(length_field)));
        }
        let size = MessageSize::from_length_field(length_field);
        let b = size.unpadded_body_size();
        let pad = size.body_padding();
        if b > usize::MAX - 24 || b + 24 > usize::MAX - pad {
            return Err(UnbufferError::ParseError(ParseProblem::MessageTooLarge(length_field)));
        }
        let total = size.padded_message_size();
        if len < total {
            return Err(UnbufferError::NeedMoreData(BytesRequired::Exactly(total - len)));
        }
        let mut whole = bytes_split_to(buf, total);
        let ghost w = bytes_view(whole);
        assert(w =~= s.take(total as int));
        let _ = bytes_split_to(&mut whole, 4);
        let time = match TimeVal::unbuffer_ref(&mut whole) {
            Ok(v) => v,
            Err(e) => return Err(e),
        };
        let sender = match SenderId::unbuffer_ref(&mut whole) {
            Ok(v) => v,
            Err(e) => return Err(e),
        };
        let message_type = match TypeId::unbuffer_ref(&mut whole) {
            Ok(v) => v,
            Err(e) => return Err(e),
        };
        let sequence_number = match SequenceNumber::unbuffer_ref(&mut whole) {
            Ok(v) => v,
            Err(e) => return Err(e),
        };
        let body = bytes_split_to(&mut whole, b);
        proof {
            assert(w.skip(4) =~= s.skip(4).take(total - 4));
            assert(w.skip(4).take(4) =~= s.skip(4).take(4));
            assert(w.skip(4).skip(4).take(4) =~= s.skip(4).skip(4).take(4));
            assert(w.skip(12).take(4) =~= s.skip(12).take(4));
            assert(w.skip(16).take(4) =~= s.skip(16).take(4));
            assert(w.skip(20).take(4) =~= s.skip(20).take(4));
            assert(w.skip(4).skip(8) =~= w.skip(12));
            assert(w.skip(12).skip(4) =~= w.skip(16));
            assert(w.skip(16).skip(4) =~= w.skip(20));
            assert(w.skip(20).skip(4) =~= w.skip(24));
            assert(w.skip(24).take(b as int) =~= s.subrange(24, 24 + b));
        }
        Ok(SequencedMessage::new(Some(time), message_type, sender, GenericBody::new(body), sequence_number))
    }
}

/// The wire form of a message takes its padded size.
pub proof fn lemma_message_wire_len(m: MessageModel)
    ensures
        message_wire(m).len() == padded_spec(m.body.len()) + 24,
{
    lemma_u32_wire_parse(length_field_spec(m.body.len()), Seq::empty());
    lemma_timeval_wire_parse(m.time, Seq::empty());
    lemma_i32_wire_parse(m.sender.0, Seq::empty());
    lemma_i32_wire_parse(m.message_type.0, Seq::empty());
    lemma_u32_wire_parse(m.sequence_number.0, Seq::empty());
}

/// Reading a message back from its wire form, followed by anything, gives
/// the message and takes exactly its wire form, when the length field can
/// hold the body size.
pub proof fn lemma_message_roundtrip(m: MessageModel, rest: Seq<u8>)
    requires
        m.body.len() + 24 <= u32::MAX,
        padded_spec(m.body.len()) + 24 <= usize::MAX,
    ensures
        message_parse(message_wire(m) + rest) == MessageParse::Parsed(m, message_wire(m).len()),
        (message_wire(m) + rest).skip(message_wire(m).len() as int) == rest,
{
    let b = m.body.len();
    let lf = length_field_spec(b);
    let a = u32_wire(lf);
    let t = m.time.wire_spec();
    let c = i32_wire(m.sender.0);
    let d = i32_wire(m.message_type.0);
    let e = u32_wire(m.sequence_number.0);
    let tail = m.body + zeros(pad_spec(b)) + rest;
    lemma_message_wire_len(m);
    let s = message_wire(m) + rest;
    assert(s =~= a + (t + (c + (d + (e + tail)))));
    lemma_u32_wire_parse(lf, t + (c + (d + (e + tail))));
    lemma_timeval_wire_parse(m.time, c + (d + (e + tail)));
    lemma_i32_wire_parse(m.sender.0, d + (e + tail));
    lemma_i32_wire_parse(m.message_type.0, e + tail);
    lemma_u32_wire_parse(m.sequence_number.0, tail);
    assert(s.skip(4) =~= t + (c + (d + (e + tail))));
    assert(s.skip(12) =~= c + (d + (e + tail)));
    assert(s.skip(16) =~= d + (e + tail));
    assert(s.skip(20) =~= e + tail);
    assert(s.subrange(24, 24 + b as int) =~= m.body);
    assert(s.skip(message_wire(m).len() as int) =~= rest);
}

} // verus!
