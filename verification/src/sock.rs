//! Rendezvous path and the fail-fast checks around it.
//!
//! A single well-known filesystem path is the rendezvous between the daemon
//! and control invocations: the daemon binds it, and its existence is the sole
//! signal that a daemon is already running.  The existence test and the socket
//! operations themselves are I/O and live outside the library; callers hand
//! the observed existence bit to the decision functions here.

use vstd::prelude::*;
use vstd::string::StringExecFns;

verus! {

/// Errors of the control channel and control client.
#[derive(Clone, Copy, Debug, PartialEq, Eq, Structural)]
pub enum SockError {
    /// The rendezvous path already exists; a daemon is (or appears to be)
    /// already running, so binding must fail closed.
    AlreadyExists,
    /// An I/O failure outside the library's control.
    Io,
    /// No daemon is running: the rendezvous path does not exist, so no
    /// connection is attempted at all.
    NoValidConnection,
}

/// The rendezvous path, fixed per host.
pub open spec fn sock_path() -> Seq<char> {
    "/tmp/openconnect-rs.sock"@
}

/// Returns the rendezvous path used by both the daemon and control clients.
pub fn get_sock() -> (r: String)
    ensures
        r@ == sock_path(),
{
    String::from_str("/tmp/openconnect-rs.sock")
}

/// The control client's fail-fast connection check: when the rendezvous path
/// does not exist, no daemon is running and no I/O is attempted; the caller
/// may open a connection only on an `Ok` result.
pub fn connect_precheck(path_exists: bool) -> (r: Result<(), SockError>)
    ensures
        r == if path_exists {
            Result::<(), SockError>::Ok(())
        } else {
            Result::<(), SockError>::Err(SockError::NoValidConnection)
        },
{
    if path_exists {
        Ok(())
    } else {
        Err(SockError::NoValidConnection)
    }
}

/// The start command's pre-check, made before detachment even begins so a
/// failure is visible to the operator: when the rendezvous path already
/// exists, a daemon (or a stale rendezvous) is in the way and starting must
/// fail; a late bind failure would be awkward to surface once detached.
pub fn start_precheck(path_exists: bool) -> (r: Result<(), SockError>)
    ensures
        r == if path_exists {
            Result::<(), SockError>::Err(SockError::AlreadyExists)
        } else {
            Result::<(), SockError>::Ok(())
        },
{
    if path_exists {
        Err(SockError::AlreadyExists)
    } else {
        Ok(())
    }
}

} // verus!
