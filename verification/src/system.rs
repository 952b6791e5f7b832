//! System messages: decoding typed message bodies from generic ones, and
//! recognizing the system messages that describe a peer.
use crate::byte_buffer::{bytes_from_vec, bytes_len, bytes_view};
use crate::constants::{
    DISCONNECT_MESSAGE, LOG_DESCRIPTION, SENDER_DESCRIPTION, TYPE_DESCRIPTION, UDP_DESCRIPTION,
};
use crate::descriptions::{is_first_null, Description, InnerDescription, UdpDescription, UdpInnerDescription};
use crate::error::Error;
use crate::length_prefixed::{string_parse, StringParse};
use crate::log::LogFileNames;
use crate::message::{
    GenericBody, GenericMessage, Message, SequencedGenericMessage, SequencedMessage,
    TypedMessageBody,
};
use crate::types::{BaseTypeSafeId, IdType, SenderId, TypeId};
use crate::wire::{
    Buffer, OutputResultExtras, BufferError, BytesRequired, ParseProblem,
    Unbuffer, UnbufferError,
};
use vstd::prelude::*;

verus! {

/// A system message, decoded.
#[derive(Debug)]
pub enum SystemMessage {
    /// A sender's name.
    SenderDescription(Description<SenderId>),
    /// Where the peer listens for UDP.
    UdpDescription(UdpDescription),
    /// A message type's name.
    TypeDescription(Description<TypeId>),
    /// The peer's log file names.
    LogDescription(LogFileNames),
    /// The peer is disconnecting.
    DisconnectMessage,
}

/// Checks that a message body was consumed entirely by its parser.
pub fn check_body_consumed(indicated: usize, remaining: usize) -> (r: Result<(), UnbufferError>)
    ensures
        remaining == 0 ==> r is Ok,
        remaining > 0 ==> r == Err::<(), UnbufferError>(
            UnbufferError::ParseError(ParseProblem::BodyNotConsumed { indicated, remaining }),
        ),
{
    if remaining > 0 {
        Err(UnbufferError::ParseError(ParseProblem::BodyNotConsumed { indicated, remaining }))
    } else {
        Ok(())
    }
}

/// Decodes the body of a generic message as a `T`, keeping the header.  The
/// body must hold exactly one `T`: running out of data is a parse error (the
/// body can get no more bytes), and leftover bytes are an error too.
pub fn unbuffer_typed_message_body<T: Unbuffer + TypedMessageBody>(msg: GenericMessage) -> (r:
    Result<Message<T>, UnbufferError>)
    ensures
        ({
            let s = bytes_view(msg.body.inner);
            &&& r is Ok <==> T::parses(s) && T::consumed(s) == s.len()
            &&& r matches Ok(m) ==> m.header == msg.header && T::parses_as(s, m.body)
            &&& (T::parses(s) && T::consumed(s) < s.len()) ==> r == Err::<
                Message<T>,
                UnbufferError,
            >(
                UnbufferError::ParseError(
                    ParseProblem::BodyNotConsumed {
                        indicated: s.len() as usize,
                        remaining: (s.len() - T::consumed(s)) as usize,
                    },
                ),
            )
            &&& !(r matches Err(UnbufferError::NeedMoreData(_)))
        }),
{
    let mut buf = msg.body.inner.clone();
    let indicated = bytes_len(&buf);
    let body = match T::unbuffer_ref(&mut buf).map_need_more_err_to_generic_parse_err() {
        Ok(b) => b,
        Err(e) => return Err(e),
    };
    match check_body_consumed(indicated, bytes_len(&buf)) {
        Ok(()) => Ok(Message::from_header_and_body(msg.header, body)),
        Err(e) => Err(e),
    }
}

/// Buffers the body of a typed message into a generic one, keeping the header.
pub fn make_message_body_generic<T: Buffer + TypedMessageBody>(msg: Message<T>) -> (r: Result<
    GenericMessage,
    BufferError,
>)
    ensures
        r is Ok <==> msg.body.bufferable() && msg.body.buffered().len() <= isize::MAX,
        r matches Ok(m) ==> m.header == msg.header && bytes_view(m.body.inner)
            == msg.body.buffered(),
{
    let mut body: Vec<u8> = Vec::new();
    match msg.body.buffer_ref(&mut body) {
        Ok(()) => {
            assert(body@ =~= msg.body.buffered());
            Ok(Message::from_header_and_body(msg.header, GenericBody::new(bytes_from_vec(body))))
        },
        Err(e) => Err(e),
    }
}

/// Buffers the body of a typed, sequenced message into a generic one,
/// keeping the header and the sequence number.
pub fn make_sequenced_message_body_generic<T: Buffer + TypedMessageBody>(
    msg: SequencedMessage<T>,
) -> (r: Result<SequencedGenericMessage, BufferError>)
    ensures
        r is Ok <==> msg.message.body.bufferable() && msg.message.body.buffered().len()
            <= isize::MAX,
        r matches Ok(m) ==> m.message.header == msg.message.header && m.sequence_number
            == msg.sequence_number && bytes_view(m.message.body.inner)
            == msg.message.body.buffered(),
{
    let seq = msg.sequence_number;
    match make_message_body_generic(msg.message) {
        Ok(m) => Ok(m.into_sequenced_message(seq)),
        Err(e) => Err(e),
    }
}

/// What decoding a description body gives.
pub enum DescriptionBodyParse {
    /// The name.
    Name(Seq<u8>),
    /// The body ended inside the string.
    RanOut(BytesRequired),
    /// The string's length prefix is zero.
    ZeroLength,
    /// The string's terminator is not null.
    BadTerminator(u8),
    /// Bytes remain after the string.
    Leftover(nat),
}

/// Decoding a description body: one length-prefixed string and nothing more.
pub open spec fn description_body_parse(s: Seq<u8>) -> DescriptionBodyParse {
    match string_parse(s) {
        StringParse::Parsed(v, n) => if n == s.len() {
            DescriptionBodyParse::Name(v)
        } else {
            DescriptionBodyParse::Leftover((s.len() - n) as nat)
        },
        StringParse::NeedMore(n) => DescriptionBodyParse::RanOut(n),
        StringParse::ZeroLength => DescriptionBodyParse::ZeroLength,
        StringParse::BadTerminator(c) => DescriptionBodyParse::BadTerminator(c),
    }
}

/// Whether `r` is the error that decoding a description body ends in.
pub open spec fn is_description_error(p: DescriptionBodyParse, body_len: nat, r: Error) -> bool {
    match p {
        DescriptionBodyParse::Name(_) => false,
        DescriptionBodyParse::RanOut(n) => r == Error::UnbufferError(
            UnbufferError::ParseError(ParseProblem::RanOutOfData(n)),
        ),
        DescriptionBodyParse::ZeroLength => r == Error::UnbufferError(
            UnbufferError::ParseError(ParseProblem::ZeroLengthString),
        ),
        DescriptionBodyParse::BadTerminator(c) => r matches Error::UnbufferError(
            UnbufferError::UnexpectedAsciiData { actual, expected },
        ) && bytes_view(actual) == seq![c] && bytes_view(expected) == seq![0u8],
        DescriptionBodyParse::Leftover(k) => r == Error::UnbufferError(
            UnbufferError::ParseError(
                ParseProblem::BodyNotConsumed { indicated: body_len as usize, remaining: k as usize },
            ),
        ),
    }
}

/// Decodes a description message of either kind.
fn parse_description<T: BaseTypeSafeId>(msg: GenericMessage) -> (r: Result<Description<T>, Error>)
    ensures
        ({
            let s = bytes_view(msg.body.inner);
            let p = description_body_parse(s);
            match p {
                DescriptionBodyParse::Name(v) => (r matches Ok(d) && d.which.id_value()
                    == msg.header.sender.0 && bytes_view(d.name) == v),
                _ => (r matches Err(e) && is_description_error(p, s.len(), e)),
            }
        }),
{
    let mut buf = msg.body.inner.clone();
    let indicated = bytes_len(&buf);
    let body = match InnerDescription::<T>::unbuffer_ref(&mut buf).map_need_more_err_to_generic_parse_err() {
        Ok(b) => b,
        Err(e) => return Err(Error::UnbufferError(e)),
    };
    match check_body_consumed(indicated, bytes_len(&buf)) {
        Ok(()) => {},
        Err(e) => return Err(Error::UnbufferError(e)),
    }
    Ok(Description::from_message(Message::from_header_and_body(msg.header, body)))
}

/// Whether a UDP description body is well formed: the address text and its
/// null terminator, with nothing after them.
pub open spec fn udp_body_ok(s: Seq<u8>) -> bool {
    s.len() > 0 && is_first_null(s, s.len() - 1)
}

/// Decodes a UDP description message.
fn parse_udp_description(msg: GenericMessage) -> (r: Result<UdpDescription, Error>)
    ensures
        ({
            let s = bytes_view(msg.body.inner);
            &&& (udp_body_ok(s) ==> (r matches Ok(d) && bytes_view(d.address) == s.drop_last()
                && d.port == msg.header.sender.0 as u16))
            &&& (!udp_body_ok(s) ==> (r matches Err(Error::UnbufferError(UnbufferError::ParseError(_)))))
        }),
{
    let ghost s = bytes_view(msg.body.inner);
    let mut buf = msg.body.inner.clone();
    let indicated = bytes_len(&buf);
    let body = match UdpInnerDescription::unbuffer_ref(&mut buf).map_need_more_err_to_generic_parse_err() {
        Ok(b) => b,
        Err(e) => {
            proof {
                if udp_body_ok(s) {
                    assert(is_first_null(s, s.len() - 1));
                }
            }
            return Err(Error::UnbufferError(e));
        },
    };
    proof {
        let k = choose|k: int|
            is_first_null(s, k) && bytes_view(body.address) == s.take(k) && bytes_view(buf) == s.skip(
                k + 1,
            );
        if udp_body_ok(s) {
            if k < s.len() - 1 {
                assert(s[k] == 0u8);
            }
            if k > s.len() - 1 {
                assert(s[s.len() - 1] == 0u8);
            }
            assert(s.take(k) =~= s.drop_last());
        }
        if bytes_view(buf).len() == 0 {
            assert(k + 1 == s.len());
        }
    }
    match check_body_consumed(indicated, bytes_len(&buf)) {
        Ok(()) => {},
        Err(e) => return Err(Error::UnbufferError(e)),
    }
    Ok(UdpDescription::from_message(Message::from_header_and_body(msg.header, body)))
}

/// Decodes a system message.  Descriptions of senders, types and UDP
/// addresses are decoded; log descriptions and disconnect messages are
/// recognized but not decoded (`None`); anything else is an error.
pub fn parse_system_message(msg: GenericMessage) -> (r: Result<Option<SystemMessage>, Error>)
    ensures
        ({
            let t = msg.header.message_type.0;
            let s = bytes_view(msg.body.inner);
            let p = description_body_parse(s);
            &&& (t >= 0 ==> (r matches Err(Error::NotSystemMessage)))
            &&& (t == TYPE_DESCRIPTION ==> match p {
                DescriptionBodyParse::Name(v) => (r matches Ok(
                    Some(SystemMessage::TypeDescription(d)),
                ) && d.which.0 == msg.header.sender.0 && bytes_view(d.name) == v),
                _ => (r matches Err(e) && is_description_error(p, s.len(), e)),
            })
            &&& (t == SENDER_DESCRIPTION ==> match p {
                DescriptionBodyParse::Name(v) => (r matches Ok(
                    Some(SystemMessage::SenderDescription(d)),
                ) && d.which.0 == msg.header.sender.0 && bytes_view(d.name) == v),
                _ => (r matches Err(e) && is_description_error(p, s.len(), e)),
            })
            &&& ((t == UDP_DESCRIPTION && udp_body_ok(s)) ==> (r matches Ok(
                Some(SystemMessage::UdpDescription(d)),
            ) && bytes_view(d.address) == s.drop_last() && d.port == msg.header.sender.0 as u16))
            &&& ((t == UDP_DESCRIPTION && !udp_body_ok(s)) ==> (r matches Err(
                Error::UnbufferError(UnbufferError::ParseError(_)),
            )))
            &&& ((t == LOG_DESCRIPTION || t == DISCONNECT_MESSAGE) ==> (r matches Ok(None)))
            &&& ((t < 0 && t != TYPE_DESCRIPTION && t != SENDER_DESCRIPTION && t != UDP_DESCRIPTION
                && t != LOG_DESCRIPTION && t != DISCONNECT_MESSAGE) ==> (r matches Err(
                Error::UnrecognizedSystemMessage(id),
            ) && id == t))
        }),
{
    if !msg.is_system_message() {
        return Err(Error::NotSystemMessage);
    }
    let t = msg.header.message_type.0;
    if t == TYPE_DESCRIPTION {
        match parse_description::<TypeId>(msg) {
            Ok(d) => Ok(Some(SystemMessage::TypeDescription(d))),
            Err(e) => Err(e),
        }
    } else if t == SENDER_DESCRIPTION {
        match parse_description::<SenderId>(msg) {
            Ok(d) => Ok(Some(SystemMessage::SenderDescription(d))),
            Err(e) => Err(e),
        }
    } else if t == UDP_DESCRIPTION {
        match parse_udp_description(msg) {
            Ok(d) => Ok(Some(SystemMessage::UdpDescription(d))),
            Err(e) => Err(e),
        }
    } else if t == LOG_DESCRIPTION || t == DISCONNECT_MESSAGE {
        Ok(None)
    } else {
        Err(Error::UnrecognizedSystemMessage(t))
    }
}

/// An endpoint of a connection, as system message handling sees it.
pub trait Endpoint {
    /// Whether `r` is an answer this endpoint may give when sent `change`.
    /// An endpoint that does not say gives any answer.
    open spec fn answers(&self, change: SystemMessage, r: Result<(), Error>) -> bool {
        true
    }

    /// Sends a system change (a decoded system message) to whatever acts on it.
    fn send_system_change(&self, message: SystemMessage) -> (r: Result<(), Error>)
        ensures
            self.answers(message, r),
    ;
}

/// What handling a message of type `t` with body `s` as a system message
/// gives, as far as the decoding decides it: an error for a non-system type,
/// an unrecognized type or a body that does not decode, and success for the
/// messages that carry no change.  For a decoded change the endpoint's
/// answer is the result.
pub open spec fn system_outcome(t: IdType, s: Seq<u8>, r: Result<(), Error>) -> bool {
    let p = description_body_parse(s);
    &&& (t >= 0 ==> (r matches Err(Error::NotSystemMessage)))
    &&& ((t == TYPE_DESCRIPTION || t == SENDER_DESCRIPTION) && !(p is Name)) ==> (r matches Err(e)
        && is_description_error(p, s.len(), e))
    &&& ((t == UDP_DESCRIPTION && !udp_body_ok(s)) ==> (r matches Err(
        Error::UnbufferError(UnbufferError::ParseError(_)),
    )))
    &&& ((t == LOG_DESCRIPTION || t == DISCONNECT_MESSAGE) ==> r is Ok)
    &&& ((t < 0 && t != TYPE_DESCRIPTION && t != SENDER_DESCRIPTION && t != UDP_DESCRIPTION && t
        != LOG_DESCRIPTION && t != DISCONNECT_MESSAGE) ==> (r matches Err(
        Error::UnrecognizedSystemMessage(id),
    ) && id == t))
}

/// Whether `r` is the endpoint's answer to the change that a system message
/// of type `t`, sender `sender` and body `s` carries, when it carries one: a
/// sender or type description of the sender's ID with the decoded name, or
/// a UDP description of the address text and the port in the sender field.
pub open spec fn system_answer<E: Endpoint>(
    endpoint: E,
    t: IdType,
    sender: IdType,
    s: Seq<u8>,
    r: Result<(), Error>,
) -> bool {
    let p = description_body_parse(s);
    &&& (t == TYPE_DESCRIPTION && p is Name) ==> exists|d: Description<TypeId>|
        d.which.0 == sender && bytes_view(d.name) == p->Name_0 && #[trigger] endpoint.answers(
            SystemMessage::TypeDescription(d),
            r,
        )
    &&& (t == SENDER_DESCRIPTION && p is Name) ==> exists|d: Description<SenderId>|
        d.which.0 == sender && bytes_view(d.name) == p->Name_0 && #[trigger] endpoint.answers(
            SystemMessage::SenderDescription(d),
            r,
        )
    &&& (t == UDP_DESCRIPTION && udp_body_ok(s)) ==> exists|d: UdpDescription|
        bytes_view(d.address) == s.drop_last() && d.port == sender as u16
            && #[trigger] endpoint.answers(SystemMessage::UdpDescription(d), r)
}

/// Handles a system message: decodes it (see `parse_system_message`) and,
/// when it carries a change, sends the change to the endpoint, whose answer
/// is the result.
pub fn handle_system_message<E: Endpoint>(endpoint: &E, msg: GenericMessage) -> (r: Result<
    (),
    Error,
>)
    ensures
        system_outcome(msg.header.message_type.0, bytes_view(msg.body.inner), r),
        system_answer(
            *endpoint,
            msg.header.message_type.0,
            msg.header.sender.0,
            bytes_view(msg.body.inner),
            r,
        ),
{
    match parse_system_message(msg) {
        Ok(Some(change)) => endpoint.send_system_change(change),
        Ok(None) => Ok(()),
        Err(e) => Err(e),
    }
}

/// A description body made for a name that fits decodes back to that name.
pub proof fn lemma_description_roundtrip(name: Seq<u8>)
    requires
        name.len() < u32::MAX,
    ensures
        description_body_parse(crate::descriptions::description_wire(name))
            == DescriptionBodyParse::Name(name),
{
    crate::length_prefixed::lemma_string_roundtrip(name, Seq::empty());
    let w = crate::descriptions::description_wire(name);
    assert(w + Seq::<u8>::empty() =~= w);
}

/// A UDP description body made of an address text without null bytes
/// decodes back to that text.
pub proof fn lemma_udp_roundtrip(address: Seq<u8>)
    requires
        forall|i: int| 0 <= i < address.len() ==> address[i] != 0u8,
    ensures
        udp_body_ok(address + seq![0u8]),
        (address + seq![0u8]).drop_last() == address,
{
    let s = address + seq![0u8];
    assert forall|j: int| 0 <= j < s.len() - 1 implies s[j] != 0u8 by {
        assert(s[j] == address[j]);
    }
    assert(s.drop_last() =~= address);
}

} // verus!
