//! Establishing a connection, as a state machine: the caller performs each
//! action (sending, accepting, connecting, waiting, reading) and hands back
//! what came of it.  Also the handshake cookie checks and the datagram that
//! asks a server to connect back.
use crate::byte_buffer::bytes_from_vec;
use crate::constants::{file_magic_data_spec, magic_data_spec, COOKIE_SIZE};
use crate::cookie::{
    check_ver_file_compatible, check_ver_nonfile_compatible, cookie_parse_spec, dec_text,
    dec_value, is_digit, lemma_dec_text_digits, lemma_dec_value_of_text, push_decimal, CookieData,
    Version, VersionError,
};
use crate::error::Error;
use crate::wire::{has_room_spec, Buffer, BufferError, Unbuffer, UnbufferError};
use vstd::prelude::*;

verus! {

/// Milliseconds to wait before trying to connect again.
pub const MILLIS_BETWEEN_ATTEMPTS: u64 = 500u64;

/// Buffers a cookie into a new vector.
pub fn cookie_to_bytes(cookie: &CookieData) -> (r: Result<Vec<u8>, BufferError>)
    ensures
        r is Ok <==> has_room_spec(0, cookie.wire_spec().len()),
        r matches Ok(v) ==> v@ == cookie.wire_spec(),
{
    let mut v: Vec<u8> = Vec::new();
    match cookie.buffer_ref(&mut v) {
        Ok(()) => {
            assert(v@ =~= cookie.wire_spec());
            Ok(v)
        },
        Err(e) => Err(e),
    }
}

/// Whether `r` is what checking the cookie bytes `s` against `expected`
/// gives: an unbuffering error when they are not a cookie, a version error
/// when the major versions differ, and success otherwise.
pub open spec fn cookie_check_result(s: Seq<u8>, expected: Version, r: Result<(), Error>) -> bool {
    match cookie_parse_spec(s) {
        None => r matches Err(Error::UnbufferError(_)),
        Some((c, _)) => if c.version.major == expected.major {
            r is Ok
        } else {
            r matches Err(Error::VersionError(e)) && e == VersionError::VersionMismatch {
                actual: c.version,
                expected,
            }
        },
    }
}

/// Checks the cookie a peer sent on a network connection.
pub fn check_nonfile_cookie(data: Vec<u8>) -> (r: Result<(), Error>)
    ensures
        cookie_check_result(data@, magic_data_spec(), r),
{
    let ghost s = data@;
    let mut buf = bytes_from_vec(data);
    let cookie = match CookieData::unbuffer_ref(&mut buf) {
        Ok(c) => c,
        Err(e) => return Err(Error::UnbufferError(e)),
    };
    match check_ver_nonfile_compatible(cookie.version) {
        Ok(()) => Ok(()),
        Err(e) => Err(Error::VersionError(e)),
    }
}

/// Checks the cookie at the start of a log file.
pub fn check_file_cookie(data: Vec<u8>) -> (r: Result<(), Error>)
    ensures
        cookie_check_result(data@, file_magic_data_spec(), r),
{
    let mut buf = bytes_from_vec(data);
    let cookie = match CookieData::unbuffer_ref(&mut buf) {
        Ok(c) => c,
        Err(e) => return Err(Error::UnbufferError(e)),
    };
    match check_ver_file_compatible(cookie.version) {
        Ok(()) => Ok(()),
        Err(e) => Err(Error::VersionError(e)),
    }
}

/// The datagram that asks a server to connect back over TCP: the address
/// text, a space, the port in decimal, and a null byte.
pub open spec fn lob_datagram(address: Seq<u8>, port: u16) -> Seq<u8> {
    address + seq![32u8] + dec_text(port as nat) + seq![0u8]
}

/// Builds the datagram that asks a server to connect back.
pub fn make_lob_datagram(address: &[u8], port: u16) -> (r: Vec<u8>)
    ensures
        r@ == lob_datagram(address@, port),
{
    let mut out: Vec<u8> = Vec::new();
    let mut i: usize = 0;
    while i < address.len()
        invariant
            i <= address@.len(),
            out@ == address@.take(i as int),
        decreases address@.len() - i,
    {
        out.push(address[i]);
        i = i + 1;
        assert(out@ =~= address@.take(i as int));
    }
    assert(address@.take(i as int) =~= address@);
    out.push(32u8);
    push_decimal(&mut out, port as u64);
    out.push(0u8);
    assert(out@ =~= lob_datagram(address@, port));
    out
}

/// The steps of establishing a connection.
#[derive(Debug)]
pub enum ConnectState {
    /// Sending the datagram with the address and port to connect back to.
    Lobbing,
    /// Waiting for the server to connect back (after lobbing).
    WaitingForConnection,
    /// Connecting over TCP (TCP-only setups).
    Connecting,
    /// Waiting before connecting again, after a failure.
    DelayBeforeConnectionRetry,
    /// Sending the handshake cookie.
    SendingHandshake,
    /// Receiving the peer's cookie; holds what has arrived so far.
    ReceivingHandshake(Vec<u8>),
    /// Connected.
    Connected,
    /// Failed for good.
    Failed,
}

/// What the caller should do next.
#[derive(Debug)]
pub enum ConnectAction {
    /// Send the datagram to the server.
    SendLob,
    /// Wait for the server to connect back.
    AcceptConnection,
    /// Connect to the server.
    Connect,
    /// Wait this many milliseconds.
    Wait(u64),
    /// Send these bytes (the handshake cookie).
    SendCookie(Vec<u8>),
    /// Read up to this many more bytes of the peer's cookie.
    Receive(usize),
    /// The connection is established.
    Done,
    /// An I/O operation failed: give up with that failure.
    Abort,
    /// Give up with this error.
    Fail(Error),
}

/// What came of the last action.
#[derive(Debug)]
pub enum ConnectEvent {
    /// The datagram was sent.
    LobSent,
    /// The server connected back.
    Accepted,
    /// The connection attempt succeeded.
    ConnectSucceeded,
    /// The connection attempt failed.
    ConnectFailed,
    /// The wait is over.
    DelayElapsed,
    /// The cookie was sent.
    CookieSent,
    /// These bytes of the peer's cookie arrived.
    Received(Vec<u8>),
    /// An I/O operation failed.
    IoFailed,
}

/// Establishes a connection, one step at a time.
#[derive(Debug)]
pub struct Connector {
    state: ConnectState,
    has_udp: bool,
}

/// Whether `r` is the action that begins state `s`.
pub open spec fn begins(s: ConnectState, has_udp: bool, r: ConnectAction) -> bool {
    match s {
        ConnectState::Lobbing => if has_udp {
            r matches ConnectAction::SendLob
        } else {
            r matches ConnectAction::Fail(Error::OtherMessage(m)) && m@ == "no udp socket found?"@
        },
        ConnectState::WaitingForConnection => r matches ConnectAction::AcceptConnection,
        ConnectState::Connecting => r matches ConnectAction::Connect,
        ConnectState::DelayBeforeConnectionRetry => r matches ConnectAction::Wait(ms) && ms
            == MILLIS_BETWEEN_ATTEMPTS,
        ConnectState::SendingHandshake => r matches ConnectAction::SendCookie(c) && c@
            == CookieData { version: magic_data_spec(), log_mode: None }.wire_spec(),
        ConnectState::ReceivingHandshake(b) => r matches ConnectAction::Receive(n) && b@.len()
            < COOKIE_SIZE && n == COOKIE_SIZE - b@.len(),
        ConnectState::Connected => r matches ConnectAction::Done,
        ConnectState::Failed => r matches ConnectAction::Abort,
    }
}

impl Connector {
    /// The state.
    pub closed spec fn state(self) -> ConnectState {
        self.state
    }

    /// Whether a UDP socket is available to lob from.
    pub closed spec fn udp(self) -> bool {
        self.has_udp
    }

    /// A connector for a UDP-and-TCP setup (starts by lobbing) or a
    /// TCP-only one (starts by connecting).
    pub fn new(use_udp: bool) -> (r: Connector)
        ensures
            r.udp() == use_udp,
            use_udp ==> r.state() matches ConnectState::Lobbing,
            !use_udp ==> r.state() matches ConnectState::Connecting,
    {
        if use_udp {
            Connector { state: ConnectState::Lobbing, has_udp: true }
        } else {
            Connector { state: ConnectState::Connecting, has_udp: false }
        }
    }

    /// A connector that goes on from the given state, with or without a UDP
    /// socket to lob from.
    pub fn resume(state: ConnectState, use_udp: bool) -> (r: Connector)
        ensures
            r.state() == state,
            r.udp() == use_udp,
    {
        Connector { state, has_udp: use_udp }
    }

    /// The action that begins the current state.
    pub fn start(&mut self) -> (r: ConnectAction)
        requires
            old(self).state() matches ConnectState::ReceivingHandshake(b) ==> b@.len() < COOKIE_SIZE,
        ensures
            final(self).udp() == old(self).udp(),
            (old(self).state() matches ConnectState::Lobbing && !old(self).udp()) ==> (final(self).state() matches ConnectState::Failed),
            !(old(self).state() matches ConnectState::Lobbing && !old(self).udp()) ==> final(self).state() == old(self).state(),
            begins(old(self).state(), old(self).udp(), r),
    {
        match &self.state {
            ConnectState::Lobbing => {
                if self.has_udp {
                    ConnectAction::SendLob
                } else {
                    self.state = ConnectState::Failed;
                    ConnectAction::Fail(Error::OtherMessage(String::from_str("no udp socket found?")))
                }
            },
            ConnectState::WaitingForConnection => ConnectAction::AcceptConnection,
            ConnectState::Connecting => ConnectAction::Connect,
            ConnectState::DelayBeforeConnectionRetry => ConnectAction::Wait(MILLIS_BETWEEN_ATTEMPTS),
            ConnectState::SendingHandshake => {
                let cookie = CookieData::make_cookie();
                proof {
                    crate::cookie::lemma_cookie_wire_size(cookie);
                }
                match cookie_to_bytes(&cookie) {
                    Ok(c) => ConnectAction::SendCookie(c),
                    Err(_) => {
                        self.state = ConnectState::Failed;
                        ConnectAction::Abort
                    },
                }
            },
            ConnectState::ReceivingHandshake(b) => ConnectAction::Receive(COOKIE_SIZE - b.len()),
            ConnectState::Connected => ConnectAction::Done,
            ConnectState::Failed => ConnectAction::Abort,
        }
    }

    /// Takes one step: what came of the last action goes in, the next
    /// action comes out (see `step_result`).
    pub fn step(&mut self, event: ConnectEvent) -> (r: ConnectAction)
        requires
            old(self).state() matches ConnectState::ReceivingHandshake(b) ==> b@.len() < COOKIE_SIZE,
        ensures
            final(self).udp() == old(self).udp(),
            step_result(old(self).state(), old(self).udp(), event, final(self).state(), r),
            final(self).state() matches ConnectState::ReceivingHandshake(b) ==> b@.len() < COOKIE_SIZE,
    {
        let mut st = ConnectState::Failed;
        std::mem::swap(&mut st, &mut self.state);
        match st {
            ConnectState::Connected => {
                self.state = ConnectState::Connected;
                return ConnectAction::Done;
            },
            ConnectState::Failed => {
                return ConnectAction::Abort;
            },
            _ => {},
        }
        if let ConnectEvent::IoFailed = event {
            return ConnectAction::Abort;
        }
        match (st, event) {
            (ConnectState::Lobbing, ConnectEvent::LobSent) => {
                self.state = ConnectState::WaitingForConnection;
            },
            (ConnectState::WaitingForConnection, ConnectEvent::Accepted) => {
                self.state = ConnectState::SendingHandshake;
            },
            (ConnectState::Connecting, ConnectEvent::ConnectSucceeded) => {
                self.state = ConnectState::SendingHandshake;
            },
            (ConnectState::Connecting, ConnectEvent::ConnectFailed) => {
                self.state = ConnectState::DelayBeforeConnectionRetry;
            },
            (ConnectState::DelayBeforeConnectionRetry, ConnectEvent::DelayElapsed) => {
                self.state = ConnectState::Connecting;
            },
            (ConnectState::SendingHandshake, ConnectEvent::CookieSent) => {
                self.state = ConnectState::ReceivingHandshake(Vec::new());
            },
            (ConnectState::ReceivingHandshake(b), ConnectEvent::Received(d)) => {
                let mut all = b;
                let ghost start = all@;
                let mut i: usize = 0;
                while i < d.len()
                    invariant
                        i <= d@.len(),
                        all@ == start + d@.take(i as int),
                    decreases d@.len() - i,
                {
                    all.push(d[i]);
                    i = i + 1;
                    assert(all@ =~= start + d@.take(i as int));
                }
                assert(d@.take(i as int) =~= d@);
                if all.len() < COOKIE_SIZE {
                    self.state = ConnectState::ReceivingHandshake(all);
                } else {
                    match check_nonfile_cookie(all) {
                        Ok(()) => {
                            self.state = ConnectState::Connected;
                            return ConnectAction::Done;
                        },
                        Err(e) => {
                            return ConnectAction::Fail(e);
                        },
                    }
                }
            },
            (other, _) => {
                self.state = other;
            },
        }
        self.start()
    }
}

/// Whether taking a step from state `s` with event `e` leads to state `s2`
/// and action `r`: each action's success moves on to the next state, a
/// failed connection attempt waits and tries again, an I/O failure gives up,
/// and the handshake ends once a whole cookie has arrived, with the cookie
/// check deciding.  Events that do not fit the state change nothing.
pub open spec fn step_result(
    s: ConnectState,
    has_udp: bool,
    e: ConnectEvent,
    s2: ConnectState,
    r: ConnectAction,
) -> bool {
    match s {
        ConnectState::Connected => (s2 matches ConnectState::Connected) && (r matches ConnectAction::Done),
        ConnectState::Failed => (s2 matches ConnectState::Failed) && (r matches ConnectAction::Abort),
        _ => match e {
            ConnectEvent::IoFailed => (s2 matches ConnectState::Failed) && (r matches ConnectAction::Abort),
            _ => match (s, e) {
                (ConnectState::Lobbing, ConnectEvent::LobSent) => (s2
                    matches ConnectState::WaitingForConnection) && begins(s2, has_udp, r),
                (ConnectState::WaitingForConnection, ConnectEvent::Accepted) => (s2
                    matches ConnectState::SendingHandshake) && begins(s2, has_udp, r),
                (ConnectState::Connecting, ConnectEvent::ConnectSucceeded) => (s2
                    matches ConnectState::SendingHandshake) && begins(s2, has_udp, r),
                (ConnectState::Connecting, ConnectEvent::ConnectFailed) => (s2
                    matches ConnectState::DelayBeforeConnectionRetry) && begins(s2, has_udp, r),
                (ConnectState::DelayBeforeConnectionRetry, ConnectEvent::DelayElapsed) => (s2
                    matches ConnectState::Connecting) && begins(s2, has_udp, r),
                (ConnectState::SendingHandshake, ConnectEvent::CookieSent) => (s2
                    matches ConnectState::ReceivingHandshake(b) && b@.len() == 0) && begins(
                    s2,
                    has_udp,
                    r,
                ),
                (ConnectState::ReceivingHandshake(b), ConnectEvent::Received(d)) => {
                    let all = b@ + d@;
                    if all.len() < COOKIE_SIZE {
                        (s2 matches ConnectState::ReceivingHandshake(b2) && b2@ == all) && begins(
                            s2,
                            has_udp,
                            r,
                        )
                    } else {
                        match cookie_parse_spec(all) {
                            Some((c, _)) => if c.version.major == magic_data_spec().major {
                                (s2 matches ConnectState::Connected) && (r matches ConnectAction::Done)
                            } else {
                                (s2 matches ConnectState::Failed) && (r matches ConnectAction::Fail(
                                    err,
                                ) && cookie_check_result(all, magic_data_spec(), Err(err)))
                            },
                            None => (s2 matches ConnectState::Failed) && (r matches ConnectAction::Fail(
                                err,
                            ) && cookie_check_result(all, magic_data_spec(), Err(err))),
                        }
                    }
                },
                (ConnectState::Lobbing, _) => if has_udp {
                    s2 == s && begins(s, has_udp, r)
                } else {
                    (s2 matches ConnectState::Failed) && begins(s, has_udp, r)
                },
                _ => s2 == s && begins(s, has_udp, r),
            },
        },
    }
}


/// The lob datagram is the address, one space, the decimal digits of the
/// port (digits only, reading back as the port) and a null byte.
pub proof fn lemma_lob_datagram_layout(address: Seq<u8>, port: u16)
    ensures
        ({
            let d = lob_datagram(address, port);
            let n = address.len();
            let digits = d.subrange(n as int + 1, d.len() - 1);
            &&& d.len() >= n + 3
            &&& d.take(n as int) == address
            &&& d[n as int] == 32u8
            &&& d.last() == 0u8
            &&& forall|i: int| 0 <= i < digits.len() ==> is_digit(#[trigger] digits[i])
            &&& dec_value(digits) == port
        }),
{
    let d = lob_datagram(address, port);
    let n = address.len();
    let t = dec_text(port as nat);
    lemma_dec_text_digits(port as nat);
    lemma_dec_value_of_text(port as nat);
    assert(d.take(n as int) =~= address);
    assert(d.subrange(n as int + 1, d.len() - 1) =~= t);
}

} // verus!
