//! The bodies of the description system messages: sender and type names,
//! and the address on which a peer listens for UDP.
use crate::byte_buffer::{bytes_as_slice, bytes_from_vec, bytes_len, bytes_split_to, bytes_view};
use crate::constants::{SENDER_DESCRIPTION, TYPE_DESCRIPTION, UDP_DESCRIPTION};
use crate::length_prefixed::{
    buffer_string, length_prefixed_wire, string_parse, unbuffer_string, LengthBehavior,
    NullTermination, StringParse,
};
use crate::message::{GenericBody, GenericMessage, Message, MessageTypeIdentifier, MessageTypeIdentity,
    TypedMessageBody,};
use crate::types::{BaseTypeSafeId, IdType, SenderId, TypeId, TypeSafeId};
use crate::wire::{
    has_room, has_room_spec, Buffer, BufferError, BufferSize, BytesRequired, ParseProblem,
    Unbuffer, UnbufferError,
};
use bytes::Bytes;
use core::marker::PhantomData;
use vstd::prelude::*;

verus! {

/// Body of a sender or type description message: the name, which the wire
/// carries as a length-prefixed, null-terminated string.
#[derive(Debug)]
pub struct InnerDescription<T> {
    /// The name (without terminator).
    pub name: Bytes,
    /// Which kind of identifier is described.
    pub phantom: PhantomData<T>,
}

impl<T: BaseTypeSafeId> InnerDescription<T> {
    /// A description body holding `name`.
    pub fn new(name: Bytes) -> (r: InnerDescription<T>)
        ensures
            r.name == name,
    {
        InnerDescription { name, phantom: PhantomData }
    }

    /// The name.
    pub fn name(&self) -> (r: &Bytes)
        ensures
            *r == self.name,
    {
        &self.name
    }
}

impl TypedMessageBody for InnerDescription<SenderId> {
    open spec fn type_identity() -> MessageTypeIdentity {
        MessageTypeIdentity::SystemMessageId(TypeId(SENDER_DESCRIPTION))
    }

    fn message_identifier() -> (r: MessageTypeIdentifier) {
        MessageTypeIdentifier::SystemMessageId(TypeId(SENDER_DESCRIPTION))
    }
}

impl TypedMessageBody for InnerDescription<TypeId> {
    open spec fn type_identity() -> MessageTypeIdentity {
        MessageTypeIdentity::SystemMessageId(TypeId(TYPE_DESCRIPTION))
    }

    fn message_identifier() -> (r: MessageTypeIdentifier) {
        MessageTypeIdentifier::SystemMessageId(TypeId(TYPE_DESCRIPTION))
    }
}

/// The wire form of a description body.
pub open spec fn description_wire(name: Seq<u8>) -> Seq<u8> {
    length_prefixed_wire(name, NullTermination::AddTrailingNull, LengthBehavior::IncludeNull)
}

/// Whether a name fits in a description body: its length plus terminator
/// must fit the 32-bit length field.
pub open spec fn name_fits(name: Seq<u8>) -> bool {
    name.len() < u32::MAX && name.len() + 5 <= usize::MAX
}

impl<T: BaseTypeSafeId> BufferSize for InnerDescription<T> {
    /// Length prefix, name and terminator (saturating).
    fn buffer_size(&self) -> (r: usize)
        ensures
            bytes_view(self.name).len() + 5 <= usize::MAX ==> r == bytes_view(self.name).len()
                + 5,
            bytes_view(self.name).len() + 5 > usize::MAX ==> r == usize::MAX,
    {
        let n = bytes_len(&self.name);
        if n > usize::MAX - 5 {
            usize::MAX
        } else {
            n + 5
        }
    }
}

impl<T: BaseTypeSafeId> Buffer for InnerDescription<T> {
    open spec fn buffered(&self) -> Seq<u8> {
        description_wire(bytes_view(self.name))
    }

    open spec fn bufferable(&self) -> bool {
        name_fits(bytes_view(self.name))
    }

    /// Appends the name as a length-prefixed string whose length counts its
    /// null terminator.  Fails when there is no room, or when the name is too
    /// long for the length field.
    fn buffer_ref(&self, buf: &mut Vec<u8>) -> (r: Result<(), BufferError>)
        ensures
            ({
                let name = bytes_view(self.name);
                &&& r is Ok <==> name_fits(name) && has_room_spec(old(buf)@.len(), name.len() + 5)
                &&& r is Ok ==> final(buf)@ == old(buf)@ + description_wire(name)
                &&& r is Err ==> final(buf)@ == old(buf)@ && r == Err::<(), BufferError>(
                    BufferError::OutOfBuffer,
                )
            }),
    {
        let s = bytes_as_slice(&self.name);
        proof {
            crate::wire::lemma_u32_wire_parse((s@.len() + 1) as u32, Seq::empty());
            assert(Seq::new(1, |i: int| 0u8).len() == 1);
        }
        if s.len() >= u32::MAX as usize || s.len() > usize::MAX - 5 {
            return Err(BufferError::OutOfBuffer);
        }
        buffer_string(s, buf, NullTermination::AddTrailingNull, LengthBehavior::IncludeNull)
    }
}

impl<T: BaseTypeSafeId> Unbuffer for InnerDescription<T> {
    open spec fn parses(s: Seq<u8>) -> bool {
        string_parse(s) is Parsed
    }

    open spec fn parses_as(s: Seq<u8>, v: InnerDescription<T>) -> bool {
        string_parse(s) matches StringParse::Parsed(x, _) && bytes_view(v.name) == x
    }

    open spec fn consumed(s: Seq<u8>) -> nat {
        match string_parse(s) {
            StringParse::Parsed(_, n) => n,
            _ => 0,
        }
    }

    open spec fn needs_more(s: Seq<u8>) -> Option<BytesRequired> {
        match string_parse(s) {
            StringParse::NeedMore(n) => Some(n),
            _ => None,
        }
    }

    /// Reads the name (see `unbuffer_string`).
    fn unbuffer_ref(buf: &mut Bytes) -> (r: Result<InnerDescription<T>, UnbufferError>)
        ensures
            ({
                let s = bytes_view(*old(buf));
                match string_parse(s) {
                    StringParse::Parsed(v, n) => {
                        &&& r matches Ok(d) && bytes_view(d.name) == v
                        &&& bytes_view(*final(buf)) == s.skip(n as int)
                    },
                    StringParse::NeedMore(n) => {
                        &&& r == Err::<InnerDescription<T>, UnbufferError>(
                            UnbufferError::NeedMoreData(n),
                        )
                        &&& bytes_view(*final(buf)) == s
                    },
                    StringParse::ZeroLength => {
                        &&& r == Err::<InnerDescription<T>, UnbufferError>(
                            UnbufferError::ParseError(ParseProblem::ZeroLengthString),
                        )
                        &&& bytes_view(*final(buf)) == s
                    },
                    StringParse::BadTerminator(c) => {
                        &&& r matches Err(UnbufferError::UnexpectedAsciiData { actual, expected })
                            && bytes_view(actual) == seq![c] && bytes_view(expected) == seq![0u8]
                        &&& bytes_view(*final(buf)) == s
                    },
                }
            }),
    {
        match unbuffer_string(buf) {
            Ok(name) => Ok(InnerDescription::new(name)),
            Err(e) => Err(e),
        }
    }
}

impl<T: BaseTypeSafeId> Message<InnerDescription<T>> {
    /// The described identifier, which the message carries in its sender field.
    pub fn which(&self) -> (r: T)
        ensures
            r.id_value() == self.header.sender.0,
    {
        T::new(self.header.sender.0)
    }
}

/// Typed description of a sender or type: an identifier and its name.
///
/// Converted to a `Message<InnerDescription>` before being sent.
#[derive(Debug, Clone)]
pub struct Description<T> {
    /// The identifier.
    pub which: T,
    /// The name associated with the identifier (no null termination).
    pub name: Bytes,
}

impl<T: BaseTypeSafeId> Description<T> {
    /// A description of `which` with the given name.
    pub fn new(which: T, name: Bytes) -> (r: Description<T>)
        ensures
            r.which == which,
            r.name == name,
    {
        Description { which, name }
    }

    /// Reads a description from its message: the identifier from the sender
    /// field, the name from the body.
    pub fn from_message(msg: Message<InnerDescription<T>>) -> (r: Description<T>)
        ensures
            r.which.id_value() == msg.header.sender.0,
            r.name == msg.body.name,
    {
        let which = msg.which();
        Description::new(which, msg.body.name)
    }

    /// The message that carries this description: the description type of
    /// the identifier's kind, the identifier in the sender field, the name
    /// in the body, stamped with the current time.
    pub fn into_message(self) -> (r: Message<InnerDescription<T>>)
        ensures
            r.header.message_type == T::description_type_id(),
            r.header.sender == SenderId(self.which.id_value()),
            r.body.name == self.name,
    {
        let sender = SenderId(self.which.get());
        Message::new(None, T::description_type(), sender, InnerDescription::new(self.name))
    }
}

/// Body of a UDP description message: the text of the address on which the
/// peer listens, followed by a null byte.  The port travels in the message's
/// sender field.
#[derive(Debug, Clone)]
pub struct UdpInnerDescription {
    /// The address, as text (without terminator).
    pub address: Bytes,
}

impl UdpInnerDescription {
    /// A UDP description body holding the address text.
    pub fn new(address: Bytes) -> (r: UdpInnerDescription)
        ensures
            r.address == address,
    {
        UdpInnerDescription { address }
    }
}

impl TypedMessageBody for UdpInnerDescription {
    open spec fn type_identity() -> MessageTypeIdentity {
        MessageTypeIdentity::SystemMessageId(TypeId(UDP_DESCRIPTION))
    }

    fn message_identifier() -> (r: MessageTypeIdentifier) {
        MessageTypeIdentifier::SystemMessageId(TypeId(UDP_DESCRIPTION))
    }
}

impl BufferSize for UdpInnerDescription {
    /// The address text and its terminator (saturating).
    fn buffer_size(&self) -> (r: usize)
        ensures
            bytes_view(self.address).len() + 1 <= usize::MAX ==> r == bytes_view(self.address).len()
                + 1,
            bytes_view(self.address).len() + 1 > usize::MAX ==> r == usize::MAX,
    {
        let n = bytes_len(&self.address);
        if n == usize::MAX {
            usize::MAX
        } else {
            n + 1
        }
    }
}

impl Buffer for UdpInnerDescription {
    open spec fn buffered(&self) -> Seq<u8> {
        bytes_view(self.address) + seq![0u8]
    }

    open spec fn bufferable(&self) -> bool {
        true
    }

    /// Appends the address text and a null byte, if there is room.
    fn buffer_ref(&self, buf: &mut Vec<u8>) -> (r: Result<(), BufferError>)
        ensures
            ({
                let a = bytes_view(self.address);
                &&& r is Ok <==> has_room_spec(old(buf)@.len(), a.len() + 1)
                &&& r is Ok ==> final(buf)@ == old(buf)@ + a + seq![0u8]
                &&& r is Err ==> final(buf)@ == old(buf)@ && r == Err::<(), BufferError>(
                    BufferError::OutOfBuffer,
                )
            }),
    {
        let a = bytes_as_slice(&self.address);
        let n = a.len();
        if n == usize::MAX || !has_room(buf, n + 1) {
            return Err(BufferError::OutOfBuffer);
        }
        let ghost start = buf@;
        let mut i: usize = 0;
        while i < n
            invariant
                i <= n == a@.len(),
                buf@ == start + a@.take(i as int),
            decreases n - i,
        {
            buf.push(a[i]);
            i = i + 1;
            assert(buf@ =~= start + a@.take(i as int));
        }
        buf.push(0u8);
        assert(a@.take(n as int) =~= a@);
        assert(buf@ =~= start + a@ + seq![0u8]);
        Ok(())
    }
}

/// Whether `k` is the index of the first null byte of `s`.
pub open spec fn is_first_null(s: Seq<u8>, k: int) -> bool {
    0 <= k < s.len() && s[k] == 0u8 && forall|j: int| 0 <= j < k ==> s[j] != 0u8
}

/// Finds the first null byte of `s`.
pub fn find_null(s: &[u8]) -> (r: Option<usize>)
    ensures
        r matches Some(k) ==> is_first_null(s@, k as int),
        r is None ==> forall|j: int| 0 <= j < s@.len() ==> s@[j] != 0u8,
{
    let mut i: usize = 0;
    while i < s.len()
        invariant
            i <= s@.len(),
            forall|j: int| 0 <= j < i ==> s@[j] != 0u8,
        decreases s@.len() - i,
    {
        if s[i] == 0u8 {
            return Some(i);
        }
        i = i + 1;
    }
    None
}

impl Unbuffer for UdpInnerDescription {
    open spec fn parses(s: Seq<u8>) -> bool {
        exists|k: int| is_first_null(s, k)
    }

    open spec fn parses_as(s: Seq<u8>, v: UdpInnerDescription) -> bool {
        exists|k: int| is_first_null(s, k) && bytes_view(v.address) == s.take(k)
    }

    open spec fn consumed(s: Seq<u8>) -> nat {
        (choose|k: int| is_first_null(s, k)) as nat + 1
    }

    open spec fn needs_more(s: Seq<u8>) -> Option<BytesRequired> {
        if exists|k: int| is_first_null(s, k) {
            None
        } else {
            Some(BytesRequired::AtLeast(1))
        }
    }

    /// Reads the address text up to the first null byte, and consumes both.
    /// Without a null byte nothing is consumed and more data is needed.  The
    /// text is kept as it came: whether it is an IP address is checked where
    /// the address is used, by the networking layer.
    fn unbuffer_ref(buf: &mut Bytes) -> (r: Result<UdpInnerDescription, UnbufferError>)
        ensures
            ({
                let s = bytes_view(*old(buf));
                if exists|k: int| is_first_null(s, k) {
                    exists|k: int|
                        is_first_null(s, k) && (r matches Ok(d) && bytes_view(d.address) == s.take(
                            k,
                        ) && bytes_view(*final(buf)) == s.skip(k + 1))
                } else {
                    &&& r == Err::<UdpInnerDescription, UnbufferError>(
                        UnbufferError::NeedMoreData(BytesRequired::AtLeast(1)),
                    )
                    &&& bytes_view(*final(buf)) == s
                }
            }),
    {
        let ghost s = bytes_view(*buf);
        match find_null(bytes_as_slice(buf)) {
            Some(k) => {
                let address = bytes_split_to(buf, k);
                let _ = bytes_split_to(buf, 1);
                assert(s.skip(k as int).skip(1) =~= s.skip(k + 1));
                Ok(UdpInnerDescription::new(address))
            },
            None => {
                assert forall|k: int| !is_first_null(s, k) by {}
                Err(UnbufferError::NeedMoreData(BytesRequired::AtLeast(1)))
            },
        }
    }
}

impl Message<UdpInnerDescription> {
    /// The port, which the message carries in its sender field (low 16 bits).
    pub fn port(&self) -> (r: u16)
        ensures
            r == self.header.sender.0 as u16,
    {
        self.header.sender.0 as u16
    }
}

/// A UDP description with the address text and the port together.
#[derive(Debug, Clone)]
pub struct UdpDescription {
    /// The address, as text.
    pub address: Bytes,
    /// The port.
    pub port: u16,
}

impl UdpDescription {
    /// A UDP description of the given address text and port.
    pub fn new(address: Bytes, port: u16) -> (r: UdpDescription)
        ensures
            r.address == address,
            r.port == port,
    {
        UdpDescription { address, port }
    }

    /// Reads a UDP description from its message.
    pub fn from_message(msg: Message<UdpInnerDescription>) -> (r: UdpDescription)
        ensures
            r.address == msg.body.address,
            r.port == msg.header.sender.0 as u16,
    {
        let port = msg.port();
        UdpDescription { address: msg.body.address, port }
    }

    /// The message that carries this description, stamped with the current
    /// time: the UDP description type, the port in the sender field and the
    /// address text in the body.
    pub fn into_message(self) -> (r: Message<UdpInnerDescription>)
        ensures
            r.header.message_type == TypeId(UDP_DESCRIPTION),
            r.header.sender == SenderId(self.port as IdType),
            r.body.address == self.address,
    {
        Message::new(
            None,
            TypeId(UDP_DESCRIPTION),
            SenderId(self.port as IdType),
            UdpInnerDescription::new(self.address),
        )
    }
}

/// The description message of an identifier and its name, stamped with the
/// current time: the description type of the identifier's kind, the
/// identifier in the sender field, and the name as a length-prefixed string
/// in the body.  Fails when the name is too long for the length field.
pub fn into_description_message<T: BaseTypeSafeId>(which: T, name: &Bytes) -> (r: Result<
    GenericMessage,
    BufferError,
>)
    ensures
        r is Ok <==> name_fits(bytes_view(*name)) && bytes_view(*name).len() + 5 <= isize::MAX,
        r matches Ok(m) ==> m.header.message_type == T::description_type_id()
            && m.header.sender == SenderId(which.id_value()) && bytes_view(m.body.inner)
            == description_wire(bytes_view(*name)),
        r is Err ==> r == Err::<GenericMessage, BufferError>(BufferError::OutOfBuffer),
{
    let body = InnerDescription::<T>::new(name.clone());
    let mut v: Vec<u8> = Vec::new();
    match body.buffer_ref(&mut v) {
        Ok(()) => {},
        Err(e) => return Err(e),
    }
    assert(v@ =~= description_wire(bytes_view(*name)));
    Ok(
        Message::new(
            None,
            T::description_type(),
            SenderId(which.get()),
            GenericBody::new(bytes_from_vec(v)),
        ),
    )
}

} // verus!
