//! The simple IPC clients: a Unix-socket client and a Windows named-pipe
//! client that each send one request per connection, and the traffic sample
//! that monitoring streams carry.

use vstd::prelude::*;
use vstd::string::StringSliceAdditionalSpecFns;
use crate::wire::{build_ipc_request, ipc_request};

verus! {

/// A client for an HTTP server on a Unix domain socket.
pub struct UnixIpcHttpClient {
    socket_path: String,
}

impl UnixIpcHttpClient {
    /// The socket path.
    pub closed spec fn spec_path(&self) -> Seq<char> {
        self.socket_path@
    }

    /// A client for the socket at `socket_path`.
    pub fn new(socket_path: &str) -> (r: UnixIpcHttpClient)
        ensures
            r.spec_path() == socket_path@,
    {
        UnixIpcHttpClient { socket_path: socket_path.to_owned() }
    }

    /// Points the client at another socket.
    pub fn set_path(&mut self, path: &str)
        ensures
            final(self).spec_path() == path@,
    {
        self.socket_path = path.to_owned();
    }

    /// The socket path.
    pub fn socket_path(&self) -> (r: &str)
        ensures
            r@ == self.spec_path(),
    {
        self.socket_path.as_str()
    }

    /// The bytes of a request to send on a fresh connection (which the
    /// server closes after its response).
    pub fn request_bytes(&self, method: &str, path: &str, body: Option<&[u8]>) -> (r: Vec<u8>)
        ensures
            r@ == ipc_request(
                method.spec_bytes(),
                path.spec_bytes(),
                match body {
                    Some(b) => Some(b@),
                    None => None,
                },
                false,
            ),
    {
        build_ipc_request(method, path, body, false)
    }
}

/// A client for an HTTP server on a Windows named pipe.
pub struct WindowsIpcHttpClient {
    named_path: String,
}

impl WindowsIpcHttpClient {
    /// The pipe path.
    pub closed spec fn spec_path(&self) -> Seq<char> {
        self.named_path@
    }

    /// A client for the pipe at `named_path`.
    pub fn new(named_path: &str) -> (r: WindowsIpcHttpClient)
        ensures
            r.spec_path() == named_path@,
    {
        WindowsIpcHttpClient { named_path: named_path.to_owned() }
    }

    /// The pipe path.
    pub fn named_path(&self) -> (r: &str)
        ensures
            r@ == self.spec_path(),
    {
        self.named_path.as_str()
    }

    /// The bytes of a request to send on a fresh connection.
    pub fn request_bytes(&self, method: &str, path: &str, body: Option<&[u8]>) -> (r: Vec<u8>)
        ensures
            r@ == ipc_request(
                method.spec_bytes(),
                path.spec_bytes(),
                match body {
                    Some(b) => Some(b@),
                    None => None,
                },
                false,
            ),
    {
        build_ipc_request(method, path, body, false)
    }
}

/// What the direct-connection loop of the pooled client does next.
#[derive(Debug, Clone, Copy, PartialEq, Eq, Structural)]
pub enum ConnectStep {
    /// Try to connect now.
    Connect,
    /// Wait the retry delay, then try to connect.
    WaitThenConnect,
    /// Stop: every attempt failed.
    GiveUp,
}

/// The step before attempt number `attempt` (counting from 0) of at most
/// `max_retries`: the first attempt connects at once, later ones wait first,
/// and after the last one the loop gives up.
pub fn connect_step(attempt: usize, max_retries: usize) -> (r: ConnectStep)
    ensures
        r == (if attempt >= max_retries {
            ConnectStep::GiveUp
        } else if attempt == 0 {
            ConnectStep::Connect
        } else {
            ConnectStep::WaitThenConnect
        }),
{
    if attempt >= max_retries {
        ConnectStep::GiveUp
    } else if attempt == 0 {
        ConnectStep::Connect
    } else {
        ConnectStep::WaitThenConnect
    }
}

/// One traffic sample: bytes sent and received.
#[derive(Debug, Clone, Copy, PartialEq, Eq, Structural)]
pub struct TrafficData {
    pub up: u64,
    pub down: u64,
}

impl TrafficData {
    /// A sample.
    pub fn new(up: u64, down: u64) -> (r: TrafficData)
        ensures
            r.up == up,
            r.down == down,
    {
        TrafficData { up, down }
    }
}

} // verus!
