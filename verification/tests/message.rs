use bytes::Bytes;
use vrpn::codec::{decode_one, FramedMessageCodec};
use vrpn::constants::ALIGN;
use vrpn::message::{
    compute_padding, padded, GenericBody, MessageSize, SequencedGenericMessage, SequencedMessage,
    UNPADDED_HEADER_SIZE,
};
use vrpn::stream::{MessageStream, MessageStreamState, StreamAction, StreamEvent};
use vrpn::time::{Microseconds, Seconds, TimeVal};
use vrpn::types::{SenderId, SequenceNumber, TypeId};
use vrpn::wire::{Buffer, BufferSize, BytesRequired, ConstantBufferSize, ParseProblem, UnbufferError};

#[test]
fn constant() {
    // The size field is a u32.
    let len_size = std::mem::size_of::<u32>();
    let computed_size = len_size
        + TimeVal::constant_buffer_size()
        + SenderId::constant_buffer_size()
        + TypeId::constant_buffer_size();
    assert_eq!(
        UNPADDED_HEADER_SIZE, computed_size,
        "The constant for header size should match the actual size of the fields in the header."
    );
    assert_eq!(
        (UNPADDED_HEADER_SIZE + SequenceNumber::constant_buffer_size()) % ALIGN,
        0,
        "The sequence number should make our header need no additional padding."
    );
}

#[test]
fn sizes() {
    // Based on the initial "VRPN Control" sender ID message
    assert_eq!(
        MessageSize::from_unpadded_body_size(17).unpadded_body_size(),
        17
    );
    assert_eq!(MessageSize::from_unpadded_body_size(17).padded_body_size(), 24);
    assert_eq!(UNPADDED_HEADER_SIZE, 20);
    assert_eq!(
        MessageSize::from_unpadded_body_size(17).padded_message_size(),
        48
    );
    assert_eq!(MessageSize::from_unpadded_body_size(17).length_field(), 41);
    assert_eq!(MessageSize::from_length_field(41).length_field(), 41);
    assert_eq!(MessageSize::from_length_field(41).unpadded_body_size(), 17);
}

#[test]
fn padding_values() {
    assert_eq!(compute_padding(17), 7);
    assert_eq!(compute_padding(3), 5);
    // An aligned length needs no padding.
    assert_eq!(compute_padding(16), 0);
    assert_eq!(compute_padding(0), 0);
    assert_eq!(padded(17), 24);
    assert_eq!(padded(16), 16);
    assert_eq!(padded(0), 0);
    assert_eq!(MessageSize::from_unpadded_body_size(16).body_padding(), 0);
    assert_eq!(MessageSize::from_unpadded_body_size(16).padded_message_size(), 40);
    assert_eq!(MessageSize::from_unpadded_message_size(37).unpadded_body_size(), 17);
}

fn sample_message(body: &'static [u8], seq: u32) -> SequencedGenericMessage {
    SequencedMessage::new(
        Some(TimeVal::new(Seconds(1_500_000_000), Microseconds(250))),
        TypeId(3),
        SenderId(7),
        GenericBody::new(Bytes::from_static(body)),
        SequenceNumber(seq),
    )
}

fn encode(msg: &SequencedGenericMessage) -> Vec<u8> {
    let mut buf = Vec::new();
    msg.buffer_ref(&mut buf).expect("buffering should succeed");
    buf
}

#[test]
fn message_wire_bytes() {
    let msg = sample_message(b"abc", 9);
    assert_eq!(msg.buffer_size(), 32);
    let wire = encode(&msg);
    assert_eq!(
        wire,
        vec![
            0, 0, 0, 27, // length field: 24 + 3
            0x59, 0x68, 0x2f, 0x00, // seconds
            0, 0, 0, 250, // microseconds
            0, 0, 0, 7, // sender
            0, 0, 0, 3, // type
            0, 0, 0, 9, // sequence number
            b'a', b'b', b'c', 0, 0, 0, 0, 0,
        ]
    );
}

#[test]
fn message_roundtrip() {
    let msg = sample_message(b"hello, world", 42);
    let mut wire = encode(&msg);
    wire.extend_from_slice(&[1, 2, 3]);
    let mut buf = Bytes::from(wire);
    let decoded = decode_one(&mut buf).unwrap().expect("a whole message");
    assert_eq!(decoded, msg);
    assert_eq!(&buf[..], &[1, 2, 3]);
}

#[test]
fn decode_needs_more_data() {
    let wire = encode(&sample_message(b"hello", 1));
    let mut buf = Bytes::copy_from_slice(&wire[..wire.len() - 1]);
    assert_eq!(decode_one(&mut buf).unwrap(), None);
    assert_eq!(buf.len(), wire.len() - 1);
    let mut short = Bytes::from_static(&[0, 0]);
    assert_eq!(decode_one(&mut short).unwrap(), None);
    assert_eq!(short.len(), 2);
}

#[test]
fn decode_rejects_small_length_field() {
    let mut buf = Bytes::from(vec![0, 0, 0, 10, 0, 0, 0, 0]);
    assert_eq!(
        decode_one(&mut buf),
        Err(UnbufferError::ParseError(ParseProblem::LengthFieldTooSmall(10)))
    );
    assert_eq!(buf.len(), 8);
}

#[test]
fn codec_decodes_every_whole_message() {
    let a = sample_message(b"first", 1);
    let b = sample_message(b"", 2);
    let c = sample_message(b"third message", 3);
    let mut wire = encode(&a);
    wire.extend(encode(&b));
    let whole = wire.len();
    wire.extend(encode(&c));
    wire.truncate(whole + 10);
    let mut buf = Bytes::from(wire);
    let mut codec = FramedMessageCodec;
    let msgs = codec.decode(&mut buf).unwrap().expect("two messages");
    assert_eq!(msgs, vec![a, b]);
    assert_eq!(buf.len(), 10);
    assert_eq!(codec.decode(&mut buf).unwrap(), None);
    assert_eq!(buf.len(), 10);
}

#[test]
fn codec_encode_matches_buffer() {
    let msg = sample_message(b"xyz", 5);
    let mut out = Vec::new();
    FramedMessageCodec.encode(&msg, &mut out).unwrap();
    assert_eq!(out, encode(&msg));
}

#[test]
fn message_stream_states() {
    let a = sample_message(b"one", 1);
    let b = sample_message(b"two", 2);
    let mut wire = encode(&a);
    wire.extend(encode(&b));
    let mut stream = MessageStream::new();
    assert!(matches!(stream.step(StreamEvent::Poll), StreamAction::Read));
    // Half of the first message: more is needed.
    assert!(matches!(
        stream.step(StreamEvent::ReadData(wire[..10].to_vec())),
        StreamAction::Read
    ));
    assert_eq!(stream.current_state(), MessageStreamState::Reading);
    match stream.step(StreamEvent::ReadData(wire[10..].to_vec())) {
        StreamAction::Yield(m) => assert_eq!(m, a),
        other => panic!("unexpected {:?}", other),
    }
    match stream.step(StreamEvent::Poll) {
        StreamAction::Yield(m) => assert_eq!(m, b),
        other => panic!("unexpected {:?}", other),
    }
    assert!(matches!(stream.step(StreamEvent::Poll), StreamAction::Read));
    // The stream ends: nothing more, ever.
    assert!(matches!(
        stream.step(StreamEvent::ReadData(Vec::new())),
        StreamAction::End
    ));
    assert!(matches!(stream.step(StreamEvent::Poll), StreamAction::End));
}

#[test]
fn message_stream_parse_and_read_failures() {
    let mut stream = MessageStream::new();
    match stream.step(StreamEvent::ReadData(vec![0, 0, 0, 1, 0, 0, 0, 0])) {
        StreamAction::Failed(e) => assert_eq!(
            e,
            UnbufferError::ParseError(ParseProblem::LengthFieldTooSmall(1))
        ),
        other => panic!("unexpected {:?}", other),
    }
    assert_eq!(stream.current_state(), MessageStreamState::Error);
    assert!(matches!(stream.step(StreamEvent::Poll), StreamAction::End));

    let mut stream = MessageStream::new();
    assert!(matches!(stream.step(StreamEvent::ReadFailed), StreamAction::ReadError));
    assert!(matches!(stream.step(StreamEvent::Poll), StreamAction::End));
}

#[test]
fn bytes_required_helpers() {
    assert_eq!(BytesRequired::Exactly(3).satisfied_by(3), Some(true));
    assert_eq!(BytesRequired::AtLeast(4).satisfied_by(3), Some(false));
    assert_eq!(BytesRequired::Unknown.satisfied_by(3), None);
    assert_eq!(
        BytesRequired::Exactly(2).add(BytesRequired::AtLeast(3)),
        BytesRequired::AtLeast(5)
    );
    assert_eq!(
        BytesRequired::Exactly(2).add(BytesRequired::Exactly(3)),
        BytesRequired::Exactly(5)
    );
    assert_eq!(
        BytesRequired::Unknown.add(BytesRequired::Exactly(3)),
        BytesRequired::Unknown
    );
    assert_eq!(BytesRequired::Exactly(2).expand(), BytesRequired::AtLeast(2));
}
