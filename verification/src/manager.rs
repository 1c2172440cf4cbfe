//! Tunnel-manager decisions: which port to bind for a registration and
//! what to do when a bind fails.
//!
//! A registration naming a port greater than zero is tried on exactly
//! that port, and a bind failure is surfaced as the mapped status.  A
//! registration naming port zero draws ports from the manager one by
//! one: a port whose bind fails stays out of the free set and the next
//! free port is tried, until a bind succeeds or the free set empties,
//! which surfaces `ResourceExhausted`.
use vstd::prelude::*;

use crate::port::PortManager;
use crate::status::bind_status;
use crate::status::BindFailure;
use crate::status::map_bind_error;
use crate::status::TunnelStatus;

verus! {

/// The manager of TCP tunnel listeners.
pub struct TcpManager {}

impl TcpManager {
    pub fn new() -> (m: TcpManager) {
        TcpManager {  }
    }
}

/// The first step of a registration's port choice.
pub enum PortChoice {
    /// Bind this port next; the flag says whether it came from the port
    /// manager (and so is dynamic and must be released on teardown).
    Bind(u16, bool),
    /// No free port is left: the registration fails.
    Exhausted,
}

/// What to do after a failed bind.
pub enum BindRetry {
    /// Bind this freshly drawn port next.
    Bind(u16),
    /// Give up and reply with this status.
    GiveUp(TunnelStatus),
}

/// Chooses the first port to bind for a registration: the requested
/// port itself when one was named, else a port drawn from the manager,
/// else exhaustion.
pub fn choose_port(pm: &mut PortManager, preferred: u16) -> (r: PortChoice)
    requires
        old(pm).wf(),
    ensures
        final(pm).wf(),
        preferred > 0 ==> r == PortChoice::Bind(preferred, false) && forall|q: u16|
            final(pm).is_free(q) == old(pm).is_free(q),
        preferred == 0 && old(pm).free_count() == 0 ==> r == PortChoice::Exhausted && forall|
            q: u16,
        |
            final(pm).is_free(q) == old(pm).is_free(q),
        preferred == 0 && old(pm).free_count() > 0 ==> (r matches PortChoice::Bind(p, dynamic)
            && dynamic && PortManager::allocates(*old(pm), p, *final(pm))),
{
    if preferred > 0 {
        PortChoice::Bind(preferred, false)
    } else {
        match pm.allocate() {
            None => PortChoice::Exhausted,
            Some(p) => PortChoice::Bind(p, true),
        }
    }
}

/// Decides the retry after a failed bind.  A fixed-port registration
/// gives up with the mapped bind status.  A dynamic registration leaves
/// the failed port out of the free set and draws the next one, giving
/// up with `ResourceExhausted` only once no free port is left.
pub fn retry_after_bind_failure(pm: &mut PortManager, dynamic: bool, err: BindFailure) -> (r:
    BindRetry)
    requires
        old(pm).wf(),
    ensures
        final(pm).wf(),
        !dynamic ==> r == BindRetry::GiveUp(bind_status(err)) && forall|q: u16|
            final(pm).is_free(q) == old(pm).is_free(q),
        dynamic && old(pm).free_count() == 0 ==> r == BindRetry::GiveUp(
            TunnelStatus::ResourceExhausted,
        ) && forall|q: u16| final(pm).is_free(q) == old(pm).is_free(q),
        dynamic && old(pm).free_count() > 0 ==> (r matches BindRetry::Bind(p)
            && PortManager::allocates(*old(pm), p, *final(pm))),
{
    if !dynamic {
        BindRetry::GiveUp(map_bind_error(err))
    } else {
        match pm.allocate() {
            None => BindRetry::GiveUp(TunnelStatus::ResourceExhausted),
            Some(p) => BindRetry::Bind(p),
        }
    }
}

} // verus!
