//! A lightweight host telemetry agent: several long-running workers share a
//! process lifetime and are torn down exactly once when a termination signal
//! arrives. This library holds the verified core: the shutdown protocol, the
//! workers' decision logic, the metric wire format, and the kernel-counter
//! parsers. The unverified shell around it performs the actual thread, socket
//! and file operations and feeds their results to the functions here.

use vstd::prelude::*;

pub mod codec;
pub mod composer;
pub mod proc_fs;
pub mod publisher;
pub mod server;
pub mod signals;

verus! {

/// The terminal error of a runner, collected by the composer.
#[derive(Debug)]
pub enum MetricError {
    /// The datagram transport failed; the payload describes the failure.
    UDPError(String),
}

impl MetricError {
    /// The failure's description, as the transport reported it.
    pub fn message(&self) -> (s: &str)
        ensures
            s@ == (match self {
                MetricError::UDPError(m) => m@,
            }),
    {
        match self {
            MetricError::UDPError(m) => m.as_str(),
        }
    }
}

} // verus!
