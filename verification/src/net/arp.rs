//! ARP messages for Ethernet and IPv4 (28 bytes).
use vstd::prelude::*;
use crate::utils::addrs::ip_addr::Ipv4Addr;
use crate::utils::addrs::mac_addr::MacAddr;
use crate::net::ethernet::EtherType;
use crate::net::bytes::{be16, be16_value, lemma_be16, push_be16, read_be16};

#[allow(non_snake_case)]
pub mod ArpHardwareTypes;

#[allow(non_snake_case)]
pub mod ArpOperations;

verus! {

broadcast use {
    crate::utils::addrs::mac_addr::lemma_mac_view,
    crate::utils::addrs::ip_addr::lemma_ipv4_view,
};

pub const ARP_MESSAGE_LEN: usize = 28;

/// The hardware type of an ARP message.
#[derive(Debug, PartialEq, Eq, Clone, Copy, Structural, Hash)]
pub struct ArpHardwareType(pub u16);

/// The operation of an ARP message.
#[derive(Debug, PartialEq, Eq, Clone, Copy, Structural, Hash)]
pub struct ArpOperation(pub u16);

/// The fields of an ARP message: hardware type, protocol type, hardware address length,
/// protocol address length, operation, sender hardware and protocol addresses, target
/// hardware and protocol addresses.
pub type ArpFields = (u16, u16, u8, u8, u16, Seq<u8>, Seq<u8>, Seq<u8>, Seq<u8>);

/// An ARP message.
#[derive(Debug, Clone, Copy)]
pub struct Arp {
    pub hardware_type: ArpHardwareType,
    pub protocol_type: EtherType,
    pub hw_addr_len: u8,
    pub proto_addr_len: u8,
    pub operation: ArpOperation,
    pub sender_hw_addr: MacAddr,
    pub sender_proto_addr: Ipv4Addr,
    pub target_hw_addr: MacAddr,
    pub target_proto_addr: Ipv4Addr,
}

impl View for Arp {
    type V = ArpFields;

    open spec fn view(&self) -> ArpFields {
        (
            self.hardware_type.0,
            self.protocol_type.0,
            self.hw_addr_len,
            self.proto_addr_len,
            self.operation.0,
            self.sender_hw_addr@,
            self.sender_proto_addr@,
            self.target_hw_addr@,
            self.target_proto_addr@,
        )
    }
}

/// The wire form of an ARP message (28 bytes when the addresses have their usual sizes).
pub open spec fn arp_bytes(a: ArpFields) -> Seq<u8> {
    be16(a.0) + be16(a.1) + seq![a.2, a.3] + be16(a.4) + a.5 + a.6 + a.7 + a.8
}

/// The fields read from the first 28 bytes of `b`.
pub open spec fn arp_fields_of(b: Seq<u8>) -> ArpFields {
    (
        be16_value(b[0], b[1]),
        be16_value(b[2], b[3]),
        b[4],
        b[5],
        be16_value(b[6], b[7]),
        b.subrange(8, 14),
        b.subrange(14, 18),
        b.subrange(18, 24),
        b.subrange(24, 28),
    )
}

/// Why a byte string is not an ARP message, if it is not: too short, or address
/// lengths other than Ethernet's 6 and IPv4's 4.
pub open spec fn arp_error(b: Seq<u8>) -> Option<Seq<char>> {
    if b.len() < 28 {
        Some("paquet ARP trop court"@)
    } else if b[4] != 6 {
        Some("longueur d'adresse matérielle invalide"@)
    } else if b[5] != 4 {
        Some("longueur d'adresse protocole invalide"@)
    } else {
        None
    }
}

/// Reading the wire form of a message with the usual address sizes gives back its fields.
pub proof fn law_arp_read_written(a: ArpFields)
    requires
        a.2 == 6,
        a.3 == 4,
        a.5.len() == 6,
        a.6.len() == 4,
        a.7.len() == 6,
        a.8.len() == 4,
    ensures
        arp_bytes(a).len() == ARP_MESSAGE_LEN,
        arp_error(arp_bytes(a)) is None,
        arp_fields_of(arp_bytes(a)) == a,
{
    let b = arp_bytes(a);
    lemma_be16(a.0, 0, 0);
    lemma_be16(a.1, 0, 0);
    lemma_be16(a.4, 0, 0);
    assert(b.subrange(8, 14) =~= a.5);
    assert(b.subrange(14, 18) =~= a.6);
    assert(b.subrange(18, 24) =~= a.7);
    assert(b.subrange(24, 28) =~= a.8);
    assert(b[0] == be16(a.0)[0] && b[1] == be16(a.0)[1]);
    assert(b[2] == be16(a.1)[0] && b[3] == be16(a.1)[1]);
    assert(b[6] == be16(a.4)[0] && b[7] == be16(a.4)[1]);
}

/// Writing the fields read from a message gives back its first 28 bytes.
pub proof fn law_arp_written_read(b: Seq<u8>)
    requires
        b.len() >= ARP_MESSAGE_LEN,
    ensures
        arp_bytes(arp_fields_of(b)) == b.take(28),
{
    lemma_be16(0, b[0], b[1]);
    lemma_be16(0, b[2], b[3]);
    lemma_be16(0, b[6], b[7]);
    assert(arp_bytes(arp_fields_of(b)) =~= b.take(28));
}

impl Arp {
    pub const ETHERNET_HW_ADDR_LEN: u8 = 6;

    pub const IPV4_PROTO_ADDR_LEN: u8 = 4;

    /// An ARP message over Ethernet for IPv4.
    pub fn new(
        operation: ArpOperation,
        sender_hw_addr: MacAddr,
        sender_proto_addr: Ipv4Addr,
        target_hw_addr: MacAddr,
        target_proto_addr: Ipv4Addr,
    ) -> (r: Self)
        ensures
            r@ == (1u16, 0x0800u16, 6u8, 4u8, operation.0, sender_hw_addr@, sender_proto_addr@,
                target_hw_addr@, target_proto_addr@),
            r.operation == operation,
            r.sender_hw_addr == sender_hw_addr,
            r.sender_proto_addr == sender_proto_addr,
            r.target_hw_addr == target_hw_addr,
            r.target_proto_addr == target_proto_addr,
    {
        Arp {
            hardware_type: ArpHardwareType(ArpHardwareTypes::ETHERNET),
            protocol_type: EtherType(crate::net::ethernet::EtherTypes::Ipv4),
            hw_addr_len: 6,
            proto_addr_len: 4,
            operation,
            sender_hw_addr,
            sender_proto_addr,
            target_hw_addr,
            target_proto_addr,
        }
    }

    /// The wire form of the message.
    pub fn to_bytes(&self) -> (r: Vec<u8>)
        ensures
            r@ == arp_bytes(self@),
    {
        let mut b: Vec<u8> = Vec::new();
        push_be16(&mut b, self.hardware_type.0);
        push_be16(&mut b, self.protocol_type.0);
        b.push(self.hw_addr_len);
        b.push(self.proto_addr_len);
        push_be16(&mut b, self.operation.0);
        self.sender_hw_addr.write_to(&mut b);
        self.sender_proto_addr.write_to(&mut b);
        self.target_hw_addr.write_to(&mut b);
        self.target_proto_addr.write_to(&mut b);
        assert(b@ =~= arp_bytes(self@));
        b
    }

    /// Reads a message from the first 28 bytes of `bytes`; fails when there are fewer,
    /// or when the address lengths are not Ethernet's and IPv4's.
    pub fn from_bytes(bytes: &[u8]) -> (r: Result<Self, String>)
        ensures
            match arp_error(bytes@) {
                Some(msg) => r matches Err(e) && e@ == msg,
                None => r matches Ok(a) && a@ == arp_fields_of(bytes@),
            },
    {
        if bytes.len() < ARP_MESSAGE_LEN {
            return Err(String::from_str("paquet ARP trop court"));
        }
        let hardware_type = read_be16(bytes, 0);
        let protocol_type = read_be16(bytes, 2);
        let hw_addr_len = bytes[4];
        let proto_addr_len = bytes[5];
        if hw_addr_len != Self::ETHERNET_HW_ADDR_LEN {
            return Err(String::from_str("longueur d'adresse matérielle invalide"));
        }
        if proto_addr_len != Self::IPV4_PROTO_ADDR_LEN {
            return Err(String::from_str("longueur d'adresse protocole invalide"));
        }
        let operation = read_be16(bytes, 6);
        let sender_hw_addr = MacAddr::read_at(bytes, 8);
        let sender_proto_addr = Ipv4Addr::read_at(bytes, 14);
        let target_hw_addr = MacAddr::read_at(bytes, 18);
        let target_proto_addr = Ipv4Addr::read_at(bytes, 24);
        let a = Arp {
            hardware_type: ArpHardwareType(hardware_type),
            protocol_type: EtherType(protocol_type),
            hw_addr_len,
            proto_addr_len,
            operation: ArpOperation(operation),
            sender_hw_addr,
            sender_proto_addr,
            target_hw_addr,
            target_proto_addr,
        };
        Ok(a)
    }
}

} // verus!
