//! Entering a running instance: the admin console is attached to the
//! instance's control socket, once the instance's directory and socket are
//! known to exist.

use vstd::prelude::*;
use crate::lifecycle::admin_socket_rel_path;

verus! {

/// Why an instance cannot be entered.
#[derive(Clone, Copy, Debug, PartialEq, Eq, Structural)]
pub enum EnterError {
    /// No data directory exists under this instance name.
    MissingInstanceDir,
    /// The instance directory holds no admin console socket.
    MissingSocket,
}

/// Decides the enter command: given whether the named instance's directory
/// and its socket exist, yields the socket path to attach the console to,
/// relative to the cluster data directory, or the reason there is none.
pub fn cmd(instance_name: &str, dir_exists: bool, socket_exists: bool) -> (r: Result<
    String,
    EnterError,
>)
    ensures
        !dir_exists ==> r == Err::<String, EnterError>(EnterError::MissingInstanceDir),
        dir_exists && !socket_exists ==> r == Err::<String, EnterError>(EnterError::MissingSocket),
        dir_exists && socket_exists ==> (r matches Ok(p) && p@ == "cluster/"@ + instance_name@
            + "/admin.sock"@),
{
    if !dir_exists {
        return Err(EnterError::MissingInstanceDir);
    }
    if !socket_exists {
        return Err(EnterError::MissingSocket);
    }
    Ok(admin_socket_rel_path(instance_name))
}

} // verus!
