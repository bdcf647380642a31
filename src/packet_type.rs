use vstd::prelude::*;

verus! {

/// What an Ethernet frame carries, as named by its ethertype.
#[derive(Debug, Clone, Copy, PartialEq, Eq, Structural)]
pub enum PacketType {
    IPV4,
    IPV6,
    Unknown(u16),
}

pub const ETHERTYPE_IPV4: u16 = 0x0800;

pub const ETHERTYPE_IPV6: u16 = 0x86dd;

/// The ethertype table: codes it does not list stay as they are, under `Unknown`.
pub open spec fn packet_type_of(code: u16) -> PacketType {
    if code == ETHERTYPE_IPV4 {
        PacketType::IPV4
    } else if code == ETHERTYPE_IPV6 {
        PacketType::IPV6
    } else {
        PacketType::Unknown(code)
    }
}

impl PacketType {
    pub open spec fn code_spec(self) -> u16 {
        match self {
            PacketType::IPV4 => ETHERTYPE_IPV4,
            PacketType::IPV6 => ETHERTYPE_IPV6,
            PacketType::Unknown(c) => c,
        }
    }

    pub open spec fn name_spec(self) -> Seq<char> {
        match self {
            PacketType::IPV4 => "IPV4"@,
            PacketType::IPV6 => "IPV6"@,
            PacketType::Unknown(_) => "Unknown"@,
        }
    }

    /// Resolves an ethertype; never fails.
    pub fn from_code(code: u16) -> (r: PacketType)
        ensures
            r == packet_type_of(code),
            r.code_spec() == code,
    {
        if code == ETHERTYPE_IPV4 {
            PacketType::IPV4
        } else if code == ETHERTYPE_IPV6 {
            PacketType::IPV6
        } else {
            PacketType::Unknown(code)
        }
    }

    /// The ethertype that names this kind.
    pub fn code(&self) -> (r: u16)
        ensures
            r == self.code_spec(),
    {
        match self {
            PacketType::IPV4 => ETHERTYPE_IPV4,
            PacketType::IPV6 => ETHERTYPE_IPV6,
            PacketType::Unknown(c) => *c,
        }
    }

    /// The kind's printable name.
    pub fn name(&self) -> (r: &'static str)
        ensures
            r@ == self.name_spec(),
    {
        match self {
            PacketType::IPV4 => "IPV4",
            PacketType::IPV6 => "IPV6",
            PacketType::Unknown(_) => "Unknown",
        }
    }
}

} // verus!
