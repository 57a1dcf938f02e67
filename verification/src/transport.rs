//! IPC endpoints and listener policy: endpoint validation, listener options,
//! and the decisions taken while binding a Unix socket path (when a stale
//! socket may be replaced, when a listener's path may be removed).

pub mod unix;
pub mod windows;

use vstd::prelude::*;
use crate::errors::{ErrorKind, KodeBridgeError};
use crate::request::slice_range;
use self::unix::valid_unix_endpoint;
use self::windows::valid_pipe_endpoint;

verus! {

/// A validated IPC endpoint path.
#[derive(Debug, Clone)]
pub struct Endpoint {
    path: Vec<u8>,
}

impl View for Endpoint {
    type V = Seq<u8>;

    closed spec fn view(&self) -> Seq<u8> {
        self.path@
    }
}

impl Endpoint {
    /// Validates and owns a Unix endpoint path (no interior NUL); a
    /// configuration error otherwise.
    pub fn new(path: &[u8]) -> (r: Result<Endpoint, KodeBridgeError>)
        ensures
            match r {
                Ok(e) => valid_unix_endpoint(path@) && e@ == path@,
                Err(err) => !valid_unix_endpoint(path@) && err.kind == ErrorKind::Configuration
                    && err.message@ == "Invalid IPC endpoint: filesystem paths cannot contain interior nuls"@,
            },
    {
        if unix::validate_endpoint(path) {
            Ok(Endpoint { path: slice_range(path, 0, path.len()) })
        } else {
            Err(
                KodeBridgeError::new(
                    ErrorKind::Configuration,
                    "Invalid IPC endpoint: filesystem paths cannot contain interior nuls",
                ),
            )
        }
    }

    /// Validates and owns a Windows named-pipe path (`\\HOST\pipe\NAME`); a
    /// configuration error otherwise.
    pub fn new_named_pipe(path: &[u8]) -> (r: Result<Endpoint, KodeBridgeError>)
        ensures
            match r {
                Ok(e) => valid_pipe_endpoint(path@) && e@ == path@,
                Err(err) => !valid_pipe_endpoint(path@) && err.kind == ErrorKind::Configuration
                    && err.message@ == "Invalid IPC endpoint: not a named pipe path"@,
            },
    {
        if windows::validate_endpoint(path) {
            Ok(Endpoint { path: slice_range(path, 0, path.len()) })
        } else {
            Err(KodeBridgeError::new(ErrorKind::Configuration, "Invalid IPC endpoint: not a named pipe path"))
        }
    }

    /// The endpoint path.
    pub fn as_path(&self) -> (r: &[u8])
        ensures
            r@ == self@,
    {
        self.path.as_slice()
    }
}

/// Listener configuration.
#[derive(Debug, Clone, Copy)]
pub struct ListenerOptions {
    reclaim_name: bool,
    try_overwrite: bool,
    max_spin_time: Option<std::time::Duration>,
    mode: Option<u32>,
}

impl ListenerOptions {
    /// Whether the listener removes its own socket path when dropped.
    pub closed spec fn spec_reclaim_name(&self) -> bool {
        self.reclaim_name
    }

    /// Whether a proven-stale socket may be replaced while binding.
    pub closed spec fn spec_try_overwrite(&self) -> bool {
        self.try_overwrite
    }

    /// The Unix permission mode to apply, if any.
    pub closed spec fn spec_mode(&self) -> Option<u32> {
        self.mode
    }

    /// The retry limit for stale-socket replacement.
    pub closed spec fn spec_max_spin_time(&self) -> Option<std::time::Duration> {
        self.max_spin_time
    }

    /// The defaults: reclaim the name, do not overwrite, no spin limit, no
    /// mode.
    pub fn new() -> (r: ListenerOptions)
        ensures
            r.spec_reclaim_name(),
            !r.spec_try_overwrite(),
            r.spec_max_spin_time() is None,
            r.spec_mode() is None,
    {
        ListenerOptions { reclaim_name: true, try_overwrite: false, max_spin_time: None, mode: None }
    }

    /// Sets whether the name is removed when the listener drops.
    pub fn reclaim_name(self, reclaim_name: bool) -> (r: ListenerOptions)
        ensures
            r.spec_reclaim_name() == reclaim_name,
            r.spec_try_overwrite() == self.spec_try_overwrite(),
            r.spec_max_spin_time() == self.spec_max_spin_time(),
            r.spec_mode() == self.spec_mode(),
    {
        ListenerOptions { reclaim_name, ..self }
    }

    /// Sets whether a stale Unix socket may be replaced while binding.
    pub fn try_overwrite(self, try_overwrite: bool) -> (r: ListenerOptions)
        ensures
            r.spec_try_overwrite() == try_overwrite,
            r.spec_reclaim_name() == self.spec_reclaim_name(),
            r.spec_max_spin_time() == self.spec_max_spin_time(),
            r.spec_mode() == self.spec_mode(),
    {
        ListenerOptions { try_overwrite, ..self }
    }

    /// Bounds the retry time for stale-socket replacement.
    pub fn max_spin_time(self, max_spin_time: std::time::Duration) -> (r: ListenerOptions)
        ensures
            r.spec_max_spin_time() == Some(max_spin_time),
            r.spec_reclaim_name() == self.spec_reclaim_name(),
            r.spec_try_overwrite() == self.spec_try_overwrite(),
            r.spec_mode() == self.spec_mode(),
    {
        ListenerOptions { max_spin_time: Some(max_spin_time), ..self }
    }

    /// Sets the Unix socket permission mode.
    pub fn mode(self, mode: u32) -> (r: ListenerOptions)
        ensures
            r.spec_mode() == Some(mode),
            r.spec_reclaim_name() == self.spec_reclaim_name(),
            r.spec_try_overwrite() == self.spec_try_overwrite(),
            r.spec_max_spin_time() == self.spec_max_spin_time(),
    {
        ListenerOptions { mode: Some(mode), ..self }
    }

    /// Whether the name is reclaimed on drop.
    pub fn get_reclaim_name(&self) -> (r: bool)
        ensures
            r == self.spec_reclaim_name(),
    {
        self.reclaim_name
    }

    /// Whether stale sockets may be replaced.
    pub fn get_try_overwrite(&self) -> (r: bool)
        ensures
            r == self.spec_try_overwrite(),
    {
        self.try_overwrite
    }

    /// The retry limit for stale-socket replacement.
    pub fn get_max_spin_time(&self) -> (r: Option<std::time::Duration>)
        ensures
            r == self.spec_max_spin_time(),
    {
        self.max_spin_time
    }

    /// The permission mode.
    pub fn get_mode(&self) -> (r: Option<u32>)
        ensures
            r == self.spec_mode(),
    {
        self.mode
    }
}

/// What to do when binding a socket path fails.
#[derive(Debug, Clone, Copy, PartialEq, Eq, Structural)]
pub enum BindFailure {
    /// Give up with the error.
    Fail,
    /// Try to replace a stale socket at the path, then bind again.
    ReclaimAndRetry,
}

/// The decision after a failed bind: only an address-in-use error with
/// overwriting enabled leads to reclaiming, and not once a reclaim was already
/// attempted and the spin limit has passed.
pub fn on_bind_failure(
    addr_in_use: bool,
    try_overwrite: bool,
    attempted_reclaim: bool,
    spin_limit_reached: bool,
) -> (r: BindFailure)
    ensures
        r == (if addr_in_use && try_overwrite && !(attempted_reclaim && spin_limit_reached) {
            BindFailure::ReclaimAndRetry
        } else {
            BindFailure::Fail
        }),
{
    if addr_in_use && try_overwrite {
        if attempted_reclaim && spin_limit_reached {
            BindFailure::Fail
        } else {
            BindFailure::ReclaimAndRetry
        }
    } else {
        BindFailure::Fail
    }
}

/// How a probing connection to an existing socket path went.
#[derive(Debug, Clone, Copy, PartialEq, Eq, Structural)]
pub enum ProbeResult {
    /// A listener accepted the connection: the socket is live.
    Connected,
    /// The connection was refused: the socket is stale.
    Refused,
    /// Some other error.
    OtherError,
}

/// The verdict on replacing the entry at a socket path.
#[derive(Debug, Clone, Copy, PartialEq, Eq, Structural)]
pub enum ReclaimVerdict {
    /// Remove the stale socket.
    Remove,
    /// Refuse: the path is not a socket.
    NotASocket,
    /// Refuse: a listener is live there.
    Live,
    /// Propagate the probe error.
    ProbeFailed,
    /// Refuse: the path changed while it was checked.
    Changed,
}

/// Only a socket that refuses connections, and is the same socket before and
/// after the probe, is removed.
pub fn reclaim_verdict(was_socket: bool, probe: ProbeResult, unchanged_socket: bool) -> (r:
    ReclaimVerdict)
    ensures
        r == ReclaimVerdict::Remove <==> (was_socket && probe == ProbeResult::Refused
            && unchanged_socket),
        !was_socket ==> r == ReclaimVerdict::NotASocket,
        was_socket && probe == ProbeResult::Connected ==> r == ReclaimVerdict::Live,
        was_socket && probe == ProbeResult::OtherError ==> r == ReclaimVerdict::ProbeFailed,
        was_socket && probe == ProbeResult::Refused && !unchanged_socket ==> r
            == ReclaimVerdict::Changed,
{
    if !was_socket {
        return ReclaimVerdict::NotASocket;
    }
    match probe {
        ProbeResult::Connected => ReclaimVerdict::Live,
        ProbeResult::OtherError => ReclaimVerdict::ProbeFailed,
        ProbeResult::Refused => if unchanged_socket {
            ReclaimVerdict::Remove
        } else {
            ReclaimVerdict::Changed
        },
    }
}

/// A listener removes its socket path on drop only when the path is still a
/// socket with the device and inode the listener created.
pub fn guard_should_remove(is_socket: bool, device: u64, inode: u64, bound_device: u64, bound_inode: u64) -> (r: bool)
    ensures
        r == (is_socket && device == bound_device && inode == bound_inode),
{
    is_socket && device == bound_device && inode == bound_inode
}

} // verus!
