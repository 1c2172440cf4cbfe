//! Status taxonomy for registration replies and the mapping from socket
//! bind failures onto it.
use vstd::prelude::*;

verus! {

/// Reply status for a tunnel registration or a failed server operation.
#[derive(Clone, Copy, Debug, PartialEq, Eq, Structural)]
pub enum TunnelStatus {
    AlreadyExists,
    ResourceExhausted,
    PermissionDenied,
    InvalidArgument,
    Internal,
}

/// The ways a socket bind can fail, as the I/O layer reports them.
#[derive(Clone, Copy, Debug, PartialEq, Eq, Structural)]
pub enum BindFailure {
    AddrInUse,
    PermissionDenied,
    Other,
}

impl TunnelStatus {
    /// Human-readable label, for logging at the unverified edge.
    pub fn describe(&self) -> (r: &'static str) {
        match self {
            TunnelStatus::AlreadyExists => "already exists",
            TunnelStatus::ResourceExhausted => "resource exhausted",
            TunnelStatus::PermissionDenied => "permission denied",
            TunnelStatus::InvalidArgument => "invalid argument",
            TunnelStatus::Internal => "internal error",
        }
    }
}

/// The status a bind failure surfaces as: a port already in use is
/// `AlreadyExists`, a privileged port is `PermissionDenied`, and
/// anything else is `Internal`.
pub open spec fn bind_status(err: BindFailure) -> TunnelStatus {
    match err {
        BindFailure::AddrInUse => TunnelStatus::AlreadyExists,
        BindFailure::PermissionDenied => TunnelStatus::PermissionDenied,
        BindFailure::Other => TunnelStatus::Internal,
    }
}

/// Translates a bind failure into the status returned on the
/// registration reply.
pub fn map_bind_error(err: BindFailure) -> (s: TunnelStatus)
    ensures
        s == bind_status(err),
{
    match err {
        BindFailure::AddrInUse => TunnelStatus::AlreadyExists,
        BindFailure::PermissionDenied => TunnelStatus::PermissionDenied,
        BindFailure::Other => TunnelStatus::Internal,
    }
}

} // verus!
