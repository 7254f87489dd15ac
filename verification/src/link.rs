//! The WiFi task's decisions: keep watching a connected station, and keep
//! trying to connect a disconnected one, with a pause after each loss of
//! the link and after each failed attempt; and waiting for an address.

use vstd::prelude::*;

verus! {

/// What to do after asking the station whether it is connected.
#[derive(Debug, Clone, Copy, PartialEq, Eq, Structural)]
pub enum LinkPlan {
    /// Wait until the station disconnects, then pause before reconnecting.
    AwaitDisconnect { pause_ms: u64 },
    /// Start connecting.
    Connect,
}

/// What to do after starting to connect.
#[derive(Debug, Clone, Copy, PartialEq, Eq, Structural)]
pub enum ConnectPlan {
    /// Wait until the station reports that it is connected.
    AwaitConnected,
    /// Pause, then ask again.
    Retry { pause_ms: u64 },
}

/// The plan for the answer to "is the station connected?": `Some(true)`
/// when it is, `Some(false)` when it is not, `None` when the question
/// failed. Only a connected station is watched; otherwise it connects.
pub fn plan_for_link(connected: Option<bool>) -> (plan: LinkPlan)
    ensures
        plan == (if connected == Some(true) {
            LinkPlan::AwaitDisconnect { pause_ms: 1000 }
        } else {
            LinkPlan::Connect
        }),
{
    match connected {
        Some(true) => LinkPlan::AwaitDisconnect { pause_ms: 1000 },
        _ => LinkPlan::Connect,
    }
}

/// The plan after a connection attempt that started (`true`) or failed
/// at once (`false`).
pub fn plan_after_connect(started: bool) -> (plan: ConnectPlan)
    ensures
        plan == (if started {
            ConnectPlan::AwaitConnected
        } else {
            ConnectPlan::Retry { pause_ms: 5000 }
        }),
{
    if started {
        ConnectPlan::AwaitConnected
    } else {
        ConnectPlan::Retry { pause_ms: 5000 }
    }
}


/// What to do after looking for an IPv4 address.
#[derive(Debug, Clone, Copy, PartialEq, Eq, Structural)]
pub enum AddressPlan {
    /// An address is configured: go on.
    Ready,
    /// No address yet: pause, then look again.
    Retry { pause_ms: u64 },
}

/// The plan after looking for an address: go on once there is one, look
/// again after half a second otherwise.
pub fn plan_for_address(has_address: bool) -> (plan: AddressPlan)
    ensures
        plan == (if has_address {
            AddressPlan::Ready
        } else {
            AddressPlan::Retry { pause_ms: 500 }
        }),
{
    if has_address {
        AddressPlan::Ready
    } else {
        AddressPlan::Retry { pause_ms: 500 }
    }
}

} // verus!
