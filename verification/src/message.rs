//! The events that a validator or a relayer sends.

use crate::addr::{IpAddr, SocketAddr};
use crate::signature::Signature;
use vstd::prelude::*;

verus! {

/// One event.  Timestamps are in milliseconds since the Unix epoch.
#[derive(Clone, Copy, PartialEq, Eq, Debug)]
pub enum TxIngestMsg {
    /// An attempt to connect failed.
    Failed { timestamp: u64, peer_addr: SocketAddr },
    /// An attempt to connect exceeded the connection limits.
    Exceeded { timestamp: u64, peer_addr: SocketAddr, stake: u64 },
    /// A connection was made.
    Stake { timestamp: u64, peer_addr: SocketAddr, stake: u64 },
    /// The validator ended a connection.
    Pruned { timestamp: u64, peer_addr: SocketAddr },
    /// The remote peer ended a connection.
    Closed { timestamp: u64, peer_addr: SocketAddr },
    /// A vote transaction arrived.
    VoteTx { timestamp: u64, peer_addr: IpAddr, peer_port: u16 },
    /// A user transaction arrived.
    UserTx { timestamp: u64, peer_addr: IpAddr, peer_port: u16, signature: Signature },
    /// A transaction was forwarded.
    Forwarded { timestamp: u64, signature: Signature },
    /// A transaction could not pay its fee.
    BadFee { timestamp: u64, signature: Signature },
    /// A transaction paid its fee.
    Fee { timestamp: u64, signature: Signature, fee: u64 },
    /// The validator will be leader in `slots` slots.
    WillBeLeader { timestamp: u64, slots: u8 },
    /// The validator is leader from now on.
    BeginLeader { timestamp: u64 },
    /// The validator is no longer leader.
    EndLeader { timestamp: u64 },
}

} // verus!
