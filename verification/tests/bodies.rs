use bytes::Bytes;
use vrpn::connect::{
    make_lob_datagram, ConnectAction, ConnectEvent, ConnectState, Connector, MILLIS_BETWEEN_ATTEMPTS,
};
use vrpn::connection::{ConnectionIpInfo, ConnectionStatus, InfoPoll};
use vrpn::cookie::CookieData;
use vrpn::descriptions::{into_description_message, Description, InnerDescription, UdpDescription, UdpInnerDescription};
use vrpn::endpoint::{map_remote_message_to_local, retain_pending, EndpointStatus};
use vrpn::error::{append_error, Error};
use vrpn::length_prefixed::{buffer_size, buffer_string, unbuffer_string, LengthBehavior, NullTermination};
use vrpn::log::{make_log_name, LogFileNames, LogMode};
use vrpn::message::{GenericBody, GenericMessage, MessageHeader};
use vrpn::system::{parse_system_message, SystemMessage};
use vrpn::time::TimeVal;
use vrpn::tracker::{PoseReport, Quat, Sensor, Vec3};
use vrpn::translation_table::{TranslationTableError, TranslationTables};
use vrpn::types::{LocalId, RemoteId, SenderId, TypeId};
use vrpn::wire::{Buffer, BytesRequired, ParseProblem, Unbuffer, UnbufferError};

#[test]
fn log_names() {
    assert_eq!(make_log_name(None), None);
    assert_eq!(make_log_name(Some(Bytes::from_static(b""))), None);
    assert_eq!(
        make_log_name(Some(Bytes::from_static(b"asdf"))),
        Some(Bytes::from_static(b"asdf"))
    );
}

#[test]
fn log_file_names_roundtrip() {
    let names = LogFileNames::from_names(Some(Bytes::from_static(b"in.vrpn")), Some(Bytes::new()));
    assert_eq!(names.in_log(), &Some(Bytes::from_static(b"in.vrpn")));
    assert_eq!(names.out_log(), &None);
    let mut buf = Vec::new();
    names.buffer_ref(&mut buf).unwrap();
    assert_eq!(&buf[..], b"\0\0\0\x07\0\0\0\0in.vrpn\0\0");
    buf.push(42);
    let mut bytes = Bytes::from(buf);
    let back = LogFileNames::unbuffer_ref(&mut bytes).unwrap();
    assert_eq!(back.in_log(), names.in_log());
    assert_eq!(back.out_log(), &None);
    assert_eq!(&bytes[..], &[42]);
    let mut short = Bytes::from_static(b"\0\0\0\x07\0\0");
    assert_eq!(
        LogFileNames::unbuffer_ref(&mut short).unwrap_err(),
        UnbufferError::NeedMoreData(BytesRequired::AtLeast(4))
    );
    assert!(LogFileNames::new().in_log().is_none());
}

#[test]
fn log_mode_words() {
    assert_eq!(LogMode::none().to_string(), "no logging");
    assert_eq!(LogMode::incoming_outgoing().to_string(), "incoming and outgoing logging");
    assert_eq!(LogMode::incoming().to_string(), "incoming logging");
    assert_eq!(LogMode::outgoing().to_string(), "outgoing logging");
    assert_eq!(LogMode { bits: 4 }.to_string(), "unrecognized logging");
    assert!(LogMode::incoming_outgoing().contains(LogMode::outgoing()));
}

#[test]
fn length_prefixed_strings() {
    assert_eq!(buffer_size(b"abc", NullTermination::AddTrailingNull), 8);
    assert_eq!(buffer_size(b"abc", NullTermination::NoNull), 7);
    let mut buf = Vec::new();
    buffer_string(b"abc", &mut buf, NullTermination::AddTrailingNull, LengthBehavior::IncludeNull).unwrap();
    assert_eq!(&buf[..], b"\0\0\0\x04abc\0");
    let mut other = Vec::new();
    buffer_string(b"abc", &mut other, NullTermination::AddTrailingNull, LengthBehavior::ExcludeNull).unwrap();
    assert_eq!(&other[..], b"\0\0\0\x03abc\0");
    let mut none = Vec::new();
    buffer_string(b"abc", &mut none, NullTermination::NoNull, LengthBehavior::IncludeNull).unwrap();
    assert_eq!(&none[..], b"\0\0\0\x03abc");

    buf.extend_from_slice(b"rest");
    let mut bytes = Bytes::from(buf);
    assert_eq!(&unbuffer_string(&mut bytes).unwrap()[..], b"abc");
    assert_eq!(&bytes[..], b"rest");

    let mut zero = Bytes::from_static(b"\0\0\0\0");
    assert_eq!(
        unbuffer_string(&mut zero),
        Err(UnbufferError::ParseError(ParseProblem::ZeroLengthString))
    );
    let mut short = Bytes::from_static(b"\0\0\0\x05ab");
    assert_eq!(
        unbuffer_string(&mut short),
        Err(UnbufferError::NeedMoreData(BytesRequired::Exactly(3)))
    );
    assert_eq!(short.len(), 6);
    let mut bad = Bytes::from_static(b"\0\0\0\x02ab");
    assert!(matches!(
        unbuffer_string(&mut bad),
        Err(UnbufferError::UnexpectedAsciiData { .. })
    ));
    assert_eq!(bad.len(), 6);
}

fn header(type_id: i32, sender: i32) -> MessageHeader {
    MessageHeader::new(Some(TimeVal::get_time_of_day()), TypeId(type_id), SenderId(sender))
}

#[test]
fn description_messages() {
    let msg = into_description_message(TypeId(3), &Bytes::from_static(b"Pos")).unwrap();
    assert_eq!(msg.header.message_type, TypeId(-2));
    assert_eq!(msg.header.sender, SenderId(3));
    assert_eq!(&msg.body.inner[..], b"\0\0\0\x04Pos\0");
    match parse_system_message(msg).unwrap() {
        Some(SystemMessage::TypeDescription(d)) => {
            assert_eq!(d.which, TypeId(3));
            assert_eq!(&d.name[..], b"Pos");
        }
        other => panic!("unexpected {:?}", other),
    }
    let desc = Description::new(SenderId(8), Bytes::from_static(b"Tracker0"));
    let m = desc.into_message();
    assert_eq!(m.header.message_type, TypeId(-1));
    assert_eq!(m.which(), SenderId(8));
    let back = Description::from_message(m);
    assert_eq!(&back.name[..], b"Tracker0");
    let inner: InnerDescription<SenderId> = InnerDescription::new(Bytes::from_static(b"x"));
    assert_eq!(&inner.name()[..], b"x");
}

#[test]
fn system_message_errors() {
    let user = GenericMessage::from_header_and_body(header(0, 0), GenericBody::default());
    assert!(matches!(parse_system_message(user), Err(Error::NotSystemMessage)));
    let unknown = GenericMessage::from_header_and_body(header(-9, 0), GenericBody::default());
    assert!(matches!(
        parse_system_message(unknown),
        Err(Error::UnrecognizedSystemMessage(-9))
    ));
    let log = GenericMessage::from_header_and_body(header(-4, 0), GenericBody::default());
    assert!(matches!(parse_system_message(log), Ok(None)));
    let leftover = GenericMessage::from_header_and_body(
        header(-1, 2),
        GenericBody::new(Bytes::from_static(b"\0\0\0\x02a\0zz")),
    );
    assert!(matches!(
        parse_system_message(leftover),
        Err(Error::UnbufferError(UnbufferError::ParseError(
            ParseProblem::BodyNotConsumed { indicated: 8, remaining: 2 }
        )))
    ));
    let truncated = GenericMessage::from_header_and_body(
        header(-1, 2),
        GenericBody::new(Bytes::from_static(b"\0\0\0\x05a")),
    );
    assert!(matches!(
        parse_system_message(truncated),
        Err(Error::UnbufferError(UnbufferError::ParseError(
            ParseProblem::RanOutOfData(BytesRequired::Exactly(4))
        )))
    ));
}

#[test]
fn udp_descriptions() {
    let msg = GenericMessage::from_header_and_body(
        header(-3, 3883),
        GenericBody::new(Bytes::from_static(b"127.0.0.1\0")),
    );
    match parse_system_message(msg).unwrap() {
        Some(SystemMessage::UdpDescription(d)) => {
            assert_eq!(&d.address[..], b"127.0.0.1");
            assert_eq!(d.port, 3883);
        }
        other => panic!("unexpected {:?}", other),
    }
    let no_nul = GenericMessage::from_header_and_body(
        header(-3, 3883),
        GenericBody::new(Bytes::from_static(b"127.0.0.1")),
    );
    assert!(matches!(
        parse_system_message(no_nul),
        Err(Error::UnbufferError(UnbufferError::ParseError(_)))
    ));
    let desc = UdpDescription::new(Bytes::from_static(b"10.0.0.2"), 4000);
    let m = desc.into_message();
    assert_eq!(m.header.sender, SenderId(4000));
    assert_eq!(m.port(), 4000);
    let mut body = Vec::new();
    m.body.buffer_ref(&mut body).unwrap();
    assert_eq!(&body[..], b"10.0.0.2\0");
    let mut bytes = Bytes::from(body);
    let inner = UdpInnerDescription::unbuffer_ref(&mut bytes).unwrap();
    assert_eq!(&inner.address[..], b"10.0.0.2");
    assert_eq!(bytes.len(), 0);
}

#[test]
fn translating_received_ids() {
    let mut tables = TranslationTables::new();
    tables
        .types
        .add_remote_entry(Bytes::from_static(b"t"), RemoteId(TypeId(0)), LocalId(TypeId(6)))
        .unwrap();
    tables
        .senders
        .add_remote_entry(Bytes::from_static(b"s"), RemoteId(SenderId(1)), LocalId(SenderId(2)))
        .unwrap();
    let msg = GenericMessage::from_header_and_body(header(0, 1), GenericBody::default());
    let local = map_remote_message_to_local(&tables, msg).unwrap();
    assert_eq!(local.header.message_type, TypeId(6));
    assert_eq!(local.header.sender, SenderId(2));
    let system = GenericMessage::from_header_and_body(header(-1, 1), GenericBody::default());
    let local = map_remote_message_to_local(&tables, system).unwrap();
    assert_eq!(local.header.message_type, TypeId(-1));
    let unknown = GenericMessage::from_header_and_body(header(0, 0), GenericBody::default());
    assert!(matches!(
        map_remote_message_to_local(&tables, unknown),
        Err(Error::EmptyEntry)
    ));
    let beyond = GenericMessage::from_header_and_body(header(5, 1), GenericBody::default());
    assert!(matches!(
        map_remote_message_to_local(&tables, beyond),
        Err(Error::InvalidRemoteId(5))
    ));
}

#[test]
fn endpoint_status_and_retention() {
    let mut s = EndpointStatus::from_closed(false);
    assert_eq!(s, EndpointStatus::Open);
    s.accumulate_closed(EndpointStatus::Open);
    assert_eq!(s, EndpointStatus::Open);
    s.accumulate_closed(EndpointStatus::Closed);
    assert_eq!(s, EndpointStatus::Closed);
    s.accumulate_closed(EndpointStatus::Open);
    assert_eq!(s, EndpointStatus::Closed);
    let (kept, any) = retain_pending(vec!['a', 'b', 'c'], &vec![true, false, true]);
    assert_eq!(kept, vec!['a', 'c']);
    assert!(any);
    let (kept, any) = retain_pending(vec![1, 2], &vec![false, false]);
    assert!(kept.is_empty());
    assert!(!any);
}

#[test]
fn errors_accumulate() {
    let first = append_error(Ok(()), Error::HandlerNotFound);
    assert!(matches!(first, Err(Error::HandlerNotFound)));
    let second = append_error(first, Error::TooManyHandlers);
    match second {
        Err(Error::ConsErrors(newer, older)) => {
            assert!(matches!(*newer, Error::TooManyHandlers));
            assert!(matches!(*older, Error::HandlerNotFound));
        }
        other => panic!("unexpected {:?}", other),
    }
}

#[test]
fn lob_datagram_text() {
    assert_eq!(make_lob_datagram(b"127.0.0.1", 3883), b"127.0.0.1 3883\0".to_vec());
    assert_eq!(make_lob_datagram(b"::1", 0), b"::1 0\0".to_vec());
}

#[test]
fn tcp_connect_sequence() {
    let mut c = Connector::new(false);
    assert!(matches!(c.start(), ConnectAction::Connect));
    assert!(matches!(
        c.step(ConnectEvent::ConnectFailed),
        ConnectAction::Wait(MILLIS_BETWEEN_ATTEMPTS)
    ));
    assert!(matches!(c.step(ConnectEvent::DelayElapsed), ConnectAction::Connect));
    let cookie = match c.step(ConnectEvent::ConnectSucceeded) {
        ConnectAction::SendCookie(bytes) => bytes,
        other => panic!("unexpected {:?}", other),
    };
    assert_eq!(&cookie[..], b"vrpn: ver. 07.35  0\0\0\0\0\0");
    assert!(matches!(c.step(ConnectEvent::CookieSent), ConnectAction::Receive(24)));
    assert!(matches!(
        c.step(ConnectEvent::Received(cookie[..10].to_vec())),
        ConnectAction::Receive(14)
    ));
    assert!(matches!(
        c.step(ConnectEvent::Received(cookie[10..].to_vec())),
        ConnectAction::Done
    ));
}

#[test]
fn udp_connect_sequence_and_failures() {
    let mut c = Connector::new(true);
    assert!(matches!(c.start(), ConnectAction::SendLob));
    assert!(matches!(c.step(ConnectEvent::LobSent), ConnectAction::AcceptConnection));
    assert!(matches!(c.step(ConnectEvent::Accepted), ConnectAction::SendCookie(_)));
    assert!(matches!(c.step(ConnectEvent::CookieSent), ConnectAction::Receive(24)));
    let file_cookie = vrpn::connect::cookie_to_bytes(&CookieData::make_file_cookie()).unwrap();
    assert!(matches!(
        c.step(ConnectEvent::Received(file_cookie)),
        ConnectAction::Fail(Error::VersionError(_))
    ));
    assert!(matches!(c.step(ConnectEvent::LobSent), ConnectAction::Abort));

    let mut c = Connector::new(true);
    assert!(matches!(c.step(ConnectEvent::IoFailed), ConnectAction::Abort));
}

#[test]
fn connection_info_states() {
    let mut info = ConnectionIpInfo::new_client(7u8);
    assert_eq!(info.status(0), ConnectionStatus::ClientConnecting);
    assert_eq!(info.poll(0, false), InfoPoll::Pending);
    assert_eq!(info.poll(0, true), InfoPoll::SetupFinished);
    assert_eq!(info.status(1), ConnectionStatus::ClientConnected);
    assert_eq!(info.poll(1, false), InfoPoll::Idle);
    assert_eq!(info.poll(0, false), InfoPoll::Restart);
    assert_eq!(info, ConnectionIpInfo::ConnectionSetup(7));
    let server: ConnectionIpInfo<u8> = ConnectionIpInfo::new_server();
    assert_eq!(server.status(3), ConnectionStatus::Server(3));
}

#[test]
fn pose_report_roundtrip() {
    let pose = PoseReport {
        sensor: Sensor(2),
        pos: Vec3 { x: 1.5f64.to_bits(), y: (-2.0f64).to_bits(), z: 0.25f64.to_bits() },
        quat: Quat { x: 0.0f64.to_bits(), y: 0.0f64.to_bits(), z: 0.0f64.to_bits(), w: 1.0f64.to_bits() },
    };
    let mut buf = Vec::new();
    pose.buffer_ref(&mut buf).unwrap();
    assert_eq!(buf.len(), 64);
    assert_eq!(&buf[..8], &[0, 0, 0, 2, 0, 0, 0, 2]);
    assert_eq!(&buf[8..16], &1.5f64.to_be_bytes());
    let mut bytes = Bytes::from(buf);
    let back = PoseReport::unbuffer_ref(&mut bytes).unwrap();
    assert_eq!(back, pose);
    assert_eq!(f64::from_bits(back.pos.y), -2.0);
    let mut short = Bytes::from_static(&[0; 10]);
    assert_eq!(
        PoseReport::unbuffer_ref(&mut short),
        Err(UnbufferError::NeedMoreData(BytesRequired::Exactly(54)))
    );
}

#[test]
fn requirement_and_lookup_words() {
    assert_eq!(BytesRequired::Exactly(24).to_string(), "exactly 24");
    assert_eq!(BytesRequired::AtLeast(1).to_string(), "at least 1");
    assert_eq!(BytesRequired::AtLeast(0).to_string(), "at least 0");
    assert_eq!(BytesRequired::Unknown.to_string(), "unknown");
    assert_eq!(TranslationTableError::InvalidRemoteId(3).to_string(), "invalid remote id 3");
    assert_eq!(TranslationTableError::InvalidRemoteId(-2147483648).to_string(), "invalid remote id -2147483648");
    assert_eq!(TranslationTableError::EmptyEntry.to_string(), "empty entry");
}

#[test]
fn lobbing_without_udp_fails() {
    let mut c = Connector::resume(ConnectState::Lobbing, false);
    match c.start() {
        ConnectAction::Fail(Error::OtherMessage(m)) => assert_eq!(m, "no udp socket found?"),
        other => panic!("unexpected action {:?}", other),
    }
}
