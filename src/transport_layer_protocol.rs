use vstd::prelude::*;

verus! {

/// The protocol an IPv4 datagram carries, as named by its protocol code.
#[derive(Debug, Clone, Copy, PartialEq, Eq, Structural)]
pub enum TransportLayerProtocol {
    ICMP,
    TCP,
    UDP,
    Unknown(u8),
}

pub const PROTOCOL_ICMP: u8 = 0x01;

pub const PROTOCOL_TCP: u8 = 0x06;

pub const PROTOCOL_UDP: u8 = 0x11;

/// The protocol table: codes it does not list stay as they are, under `Unknown`.
pub open spec fn protocol_of(code: u8) -> TransportLayerProtocol {
    if code == PROTOCOL_ICMP {
        TransportLayerProtocol::ICMP
    } else if code == PROTOCOL_TCP {
        TransportLayerProtocol::TCP
    } else if code == PROTOCOL_UDP {
        TransportLayerProtocol::UDP
    } else {
        TransportLayerProtocol::Unknown(code)
    }
}

impl TransportLayerProtocol {
    pub open spec fn code_spec(self) -> u8 {
        match self {
            TransportLayerProtocol::ICMP => PROTOCOL_ICMP,
            TransportLayerProtocol::TCP => PROTOCOL_TCP,
            TransportLayerProtocol::UDP => PROTOCOL_UDP,
            TransportLayerProtocol::Unknown(c) => c,
        }
    }

    /// Resolves a protocol code; never fails.
    pub fn from_code(code: u8) -> (r: TransportLayerProtocol)
        ensures
            r == protocol_of(code),
            r.code_spec() == code,
    {
        if code == PROTOCOL_ICMP {
            TransportLayerProtocol::ICMP
        } else if code == PROTOCOL_TCP {
            TransportLayerProtocol::TCP
        } else if code == PROTOCOL_UDP {
            TransportLayerProtocol::UDP
        } else {
            TransportLayerProtocol::Unknown(code)
        }
    }

    /// The protocol code, widened to 16 bits for the header checksum.
    pub fn to_u16(&self) -> (r: u16)
        ensures
            r == self.code_spec() as u16,
    {
        match self {
            TransportLayerProtocol::ICMP => PROTOCOL_ICMP as u16,
            TransportLayerProtocol::TCP => PROTOCOL_TCP as u16,
            TransportLayerProtocol::UDP => PROTOCOL_UDP as u16,
            TransportLayerProtocol::Unknown(c) => *c as u16,
        }
    }
}

} // verus!
