//! Port selection: the range of usable ports, checks on a requested port and
//! the search for a free one. Whether a port is free is asked of a probe
//! that the caller supplies (binding a socket is the caller's I/O).

use vstd::prelude::*;
use crate::error::CubedError;

verus! {

/// The first unprivileged port.
pub const MIN_PORT: u16 = 1024;

/// The last port.
pub const MAX_PORT: u16 = 65535;

/// The first port suggested for a new server.
pub const FIRST_SUGGESTED_PORT: u16 = 25565;

/// The last port suggested for a new server.
pub const LAST_SUGGESTED_PORT: u16 = 65534;

/// The port a search from `start` begins at.
pub open spec fn scan_origin(start: u16) -> u16 {
    if start < MIN_PORT { MIN_PORT } else { start }
}

/// Chooses and checks TCP ports.
#[derive(Debug)]
pub struct TcpPortManager;

impl Default for TcpPortManager {
    /// The same as `new`.
    fn default() -> (r: TcpPortManager)
        ensures
            r == TcpPortManager,
    {
        TcpPortManager
    }
}

impl TcpPortManager {
    pub fn new() -> (r: TcpPortManager) {
        TcpPortManager
    }

    /// The first port from `start` (at least `MIN_PORT`) that the probe
    /// reports free; every port before it was probed and reported taken.
    pub fn find_free_from<F: Fn(u16) -> bool>(&self, start: u16, is_free: F) -> (r: Result<u16, CubedError>)
        requires
            forall|p: u16| #[trigger] is_free.requires((p,)),
        ensures
            r matches Ok(p) ==> scan_origin(start) <= p && is_free.ensures((p,), true)
                && forall|q: u16| scan_origin(start) <= q < p ==> #[trigger] is_free.ensures((q,), false),
            r is Err ==> r == Err::<u16, CubedError>(CubedError::NoFreePort { start: scan_origin(start) })
                && forall|q: u16| scan_origin(start) <= q ==> #[trigger] is_free.ensures((q,), false),
    {
        let origin = if start < MIN_PORT { MIN_PORT } else { start };
        let mut port: u16 = origin;
        loop
            invariant
                origin == scan_origin(start),
                origin <= port,
                forall|p: u16| #[trigger] is_free.requires((p,)),
                forall|q: u16| origin <= q < port ==> #[trigger] is_free.ensures((q,), false),
            decreases MAX_PORT - port,
        {
            let free = is_free(port);
            if free {
                return Ok(port);
            }
            if port == MAX_PORT {
                assert forall|q: u16| origin <= q implies #[trigger] is_free.ensures((q,), false) by {
                    if q == port {
                    } else {
                        assert(q < port);
                    }
                }
                return Err(CubedError::NoFreePort { start: origin });
            }
            port = port + 1;
        }
    }

    /// Checks a port requested for a server: below `MIN_PORT` it is refused
    /// without probing; otherwise the probe decides.
    pub fn validate<F: Fn(u16) -> bool>(&self, port: u16, is_free: F) -> (r: Result<(), CubedError>)
        requires
            is_free.requires((port,)),
        ensures
            port < MIN_PORT ==> r == Err::<(), CubedError>(CubedError::PortReserved { port }),
            port >= MIN_PORT ==> (r is Ok ==> is_free.ensures((port,), true)),
            port >= MIN_PORT ==> (r is Err ==> r == Err::<(), CubedError>(CubedError::PortBusy { port })
                && is_free.ensures((port,), false)),
    {
        if port < MIN_PORT {
            return Err(CubedError::PortReserved { port });
        }
        if !is_free(port) {
            return Err(CubedError::PortBusy { port });
        }
        Ok(())
    }
}

/// Whether `port` is in `used`.
pub fn port_listed(used: &Vec<u16>, port: u16) -> (r: bool)
    ensures
        r == used@.contains(port),
{
    let mut i: usize = 0;
    while i < used.len()
        invariant
            i <= used@.len(),
            forall|k: int| 0 <= k < i ==> used@[k] != port,
        decreases used.len() - i,
    {
        if used[i] == port {
            assert(used@[i as int] == port);
            return true;
        }
        i = i + 1;
    }
    false
}

/// The port suggested for a new server: the first from
/// `FIRST_SUGGESTED_PORT` to `LAST_SUGGESTED_PORT` that no registered server
/// uses and the probe reports free. Ports that a server uses are not probed.
pub fn suggest_free_port<F: Fn(u16) -> bool>(used: &Vec<u16>, is_free: F) -> (r: Result<u16, CubedError>)
    requires
        forall|p: u16| #[trigger] is_free.requires((p,)),
    ensures
        r matches Ok(p) ==> FIRST_SUGGESTED_PORT <= p <= LAST_SUGGESTED_PORT && !used@.contains(p)
            && is_free.ensures((p,), true) && forall|q: u16|
            FIRST_SUGGESTED_PORT <= q < p ==> (used@.contains(q) || #[trigger] is_free.ensures((q,), false)),
        r is Err ==> r == Err::<u16, CubedError>(CubedError::NoFreePort { start: FIRST_SUGGESTED_PORT })
            && forall|q: u16|
            FIRST_SUGGESTED_PORT <= q <= LAST_SUGGESTED_PORT ==> (used@.contains(q)
                || #[trigger] is_free.ensures((q,), false)),
{
    let mut port: u16 = FIRST_SUGGESTED_PORT;
    while port <= LAST_SUGGESTED_PORT
        invariant
            FIRST_SUGGESTED_PORT <= port <= LAST_SUGGESTED_PORT + 1,
            forall|p: u16| #[trigger] is_free.requires((p,)),
            forall|q: u16|
                FIRST_SUGGESTED_PORT <= q < port ==> (used@.contains(q) || #[trigger] is_free.ensures((q,), false)),
        decreases LAST_SUGGESTED_PORT + 1 - port,
    {
        if !port_listed(used, port) {
            if is_free(port) {
                return Ok(port);
            }
        }
        port = port + 1;
    }
    Err(CubedError::NoFreePort { start: FIRST_SUGGESTED_PORT })
}

} // verus!
