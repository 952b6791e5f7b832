//! The client side of a connection: whether it is still being set up,
//! connected, or a server, and when to set it up again.
use vstd::prelude::*;

verus! {

/// The status of a connection.
#[derive(Debug, Clone, Copy, PartialEq, Eq, Structural)]
pub enum ConnectionStatus {
    /// A client still connecting.
    ClientConnecting,
    /// A connected client.
    ClientConnected,
    /// A server with this many endpoints.
    Server(usize),
}

/// What a connection knows of its setup, with the server information `S`
/// it connects with.
#[derive(Debug, Clone, Copy, PartialEq, Eq, Structural)]
pub enum ConnectionIpInfo<S> {
    /// Connecting to the server.
    ConnectionSetup(S),
    /// Connected to the server.
    Info(S),
    /// A server.
    Server,
}

/// What polling the connection setup asks of the caller.
#[derive(Debug, Clone, Copy, PartialEq, Eq, Structural)]
pub enum InfoPoll {
    /// The setup is not finished: keep polling it.
    Pending,
    /// The setup just finished: add the new endpoint.
    SetupFinished,
    /// The client lost every endpoint: start a new setup and poll it.
    Restart,
    /// Nothing to do.
    Idle,
}

impl<S: Copy> ConnectionIpInfo<S> {
    /// A client connecting to `server`.
    pub fn new_client(server: S) -> (r: ConnectionIpInfo<S>)
        ensures
            r == ConnectionIpInfo::ConnectionSetup(server),
    {
        ConnectionIpInfo::ConnectionSetup(server)
    }

    /// A server.
    pub fn new_server() -> (r: ConnectionIpInfo<S>)
        ensures
            r == ConnectionIpInfo::<S>::Server,
    {
        ConnectionIpInfo::Server
    }

    /// Moves on after polling: a finished setup makes the client connected;
    /// a connected client with no endpoints left starts connecting again.
    pub fn poll(&mut self, num_endpoints: usize, setup_done: bool) -> (r: InfoPoll)
        ensures
            match *old(self) {
                ConnectionIpInfo::ConnectionSetup(s) => if setup_done {
                    r == InfoPoll::SetupFinished && *final(self) == ConnectionIpInfo::Info(s)
                } else {
                    r == InfoPoll::Pending && *final(self) == *old(self)
                },
                ConnectionIpInfo::Info(s) => if num_endpoints == 0 {
                    r == InfoPoll::Restart && *final(self) == ConnectionIpInfo::ConnectionSetup(s)
                } else {
                    r == InfoPoll::Idle && *final(self) == *old(self)
                },
                ConnectionIpInfo::Server => r == InfoPoll::Idle && *final(self) == *old(self),
            },
    {
        match *self {
            ConnectionIpInfo::ConnectionSetup(s) => {
                if setup_done {
                    *self = ConnectionIpInfo::Info(s);
                    InfoPoll::SetupFinished
                } else {
                    InfoPoll::Pending
                }
            },
            ConnectionIpInfo::Info(s) => {
                if num_endpoints == 0 {
                    *self = ConnectionIpInfo::ConnectionSetup(s);
                    InfoPoll::Restart
                } else {
                    InfoPoll::Idle
                }
            },
            ConnectionIpInfo::Server => InfoPoll::Idle,
        }
    }

    /// The status of the connection.
    pub fn status(&self, num_endpoints: usize) -> (r: ConnectionStatus)
        ensures
            r == match *self {
                ConnectionIpInfo::ConnectionSetup(_) => ConnectionStatus::ClientConnecting,
                ConnectionIpInfo::Info(_) => ConnectionStatus::ClientConnected,
                ConnectionIpInfo::Server => ConnectionStatus::Server(num_endpoints),
            },
    {
        match *self {
            ConnectionIpInfo::ConnectionSetup(_) => ConnectionStatus::ClientConnecting,
            ConnectionIpInfo::Info(_) => ConnectionStatus::ClientConnected,
            ConnectionIpInfo::Server => ConnectionStatus::Server(num_endpoints),
        }
    }
}

} // verus!
