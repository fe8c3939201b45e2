use vstd::prelude::*;

verus! {

/// The lifecycle step whose per-step deadline ran out.
#[derive(Clone, Copy, PartialEq, Eq, Structural, Debug)]
pub enum TimeoutStep {
    Fetch,
    FirecrackerCall,
    NetlinkOp,
}

/// Failures of the host network fabric.
#[derive(Clone, Copy, PartialEq, Eq, Structural, Debug)]
pub enum NetworkError {
    /// Every subnet of the agent's pool is currently leased.
    PoolExhausted,
    /// A tap device could not be created or removed.
    Tap,
    /// A forwarding or masquerade rule could not be installed or removed.
    Rule,
}

/// The flat error taxonomy of the runtime core.
#[derive(Clone, PartialEq, Eq, Debug)]
pub enum RuntimeError {
    /// Malformed workload definition or scheduling message.
    Parsing,
    /// HTTP transport failure while fetching a rootfs image.
    Fetching,
    /// Non-200 response from the image registry.
    Http(u16),
    /// Filesystem failure.
    Io,
    /// Netlink, firewall or allocator failure.
    Network(NetworkError),
    /// Failure reported by the microVM driver.
    FirecrackerApi,
    /// A configuration assembled from a valid definition was invalid.
    FirepilotConfiguration,
    /// `down()` was called on an instance that is not running.
    NotRunning,
    /// A step's deadline ran out.
    Timeout(TimeoutStep),
    /// Anything else, with a human-readable reason.
    Other(Vec<u8>),
}

} // verus!
