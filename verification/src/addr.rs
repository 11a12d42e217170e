//! Addresses of remote peers.

use crate::table::{Key, RawKey};
use vstd::prelude::*;

verus! {

/// An IP address: its 32 or 128 bits, the first octet being the most significant.
#[derive(Clone, Copy, PartialEq, Eq, Structural, Debug)]
pub enum IpAddr {
    V4(u32),
    V6(u128),
}

/// The remote end of a QUIC connection.
#[derive(Clone, Copy, PartialEq, Eq, Structural, Debug)]
pub struct SocketAddr {
    pub ip: IpAddr,
    pub port: u16,
}

impl SocketAddr {
    /// The end at `port` of the host at `ip`.
    pub fn new(ip: IpAddr, port: u16) -> (addr: SocketAddr)
        ensures
            addr == (SocketAddr { ip, port }),
    {
        SocketAddr { ip, port }
    }
}

impl Key for IpAddr {
    /// IP version 4 comes before IP version 6; within a version the bits decide.
    open spec fn raw(self) -> RawKey {
        match self {
            IpAddr::V4(bits) => (4, bits as u128, 0, 0),
            IpAddr::V6(bits) => (6, bits, 0, 0),
        }
    }

    open spec fn of_raw(raw: RawKey) -> IpAddr {
        if raw.0 == 4 {
            IpAddr::V4(raw.1 as u32)
        } else {
            IpAddr::V6(raw.1)
        }
    }

    proof fn lemma_raw_round_trip(self) {
    }

    fn to_raw(&self) -> (raw: RawKey) {
        match *self {
            IpAddr::V4(bits) => (4, bits as u128, 0, 0),
            IpAddr::V6(bits) => (6, bits, 0, 0),
        }
    }

    fn from_raw(raw: &RawKey) -> (key: IpAddr) {
        if raw.0 == 4 {
            IpAddr::V4(raw.1 as u32)
        } else {
            IpAddr::V6(raw.1)
        }
    }
}

impl Key for SocketAddr {
    /// The IP address decides, then the port.
    open spec fn raw(self) -> RawKey {
        (self.ip.raw().0, self.ip.raw().1, self.port as u128, 0)
    }

    open spec fn of_raw(raw: RawKey) -> SocketAddr {
        SocketAddr { ip: IpAddr::of_raw(raw), port: raw.2 as u16 }
    }

    proof fn lemma_raw_round_trip(self) {
    }

    fn to_raw(&self) -> (raw: RawKey) {
        let ip = self.ip.to_raw();
        (ip.0, ip.1, self.port as u128, 0)
    }

    fn from_raw(raw: &RawKey) -> (key: SocketAddr) {
        let ip = if raw.0 == 4 {
            IpAddr::V4(raw.1 as u32)
        } else {
            IpAddr::V6(raw.1)
        };
        SocketAddr { ip, port: raw.2 as u16 }
    }
}

} // verus!
