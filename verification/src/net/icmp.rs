//! ICMP messages: type, code, checksum, and the rest as payload.
use vstd::prelude::*;
use crate::net::bytes::{append_bytes, be16, be16_value, copy_range, lemma_be16, push_be16, read_be16};
use crate::net::checksum::{checksum, internet_checksum};
use crate::utils::text::string_of;

verus! {

pub const ICMP_HEADER_LEN: usize = 4;

/// The length of the type, code and checksum fields.
pub const MESSAGE_HEADER_LEN: usize = 4;

// Types
pub const ECHO_REPLY: u8 = 0;

pub const DESTINATION_UNREACHABLE: u8 = 3;

pub const ECHO_REQUEST: u8 = 8;

pub const TIME_EXCEEDED: u8 = 11;

// Destination Unreachable codes
pub const NETWORK_UNREACHABLE: u8 = 0;

pub const HOST_UNREACHABLE: u8 = 1;

pub const FRAGMENTATION_NEEDED: u8 = 4;

// Time Exceeded codes
pub const TTL_EXCEEDED: u8 = 0;

/// The fields of an ICMP message: type, code, checksum, payload.
pub type MessageFields = (u8, u8, u16, Seq<u8>);

/// An ICMP message.
#[derive(Debug, Clone, PartialEq, Eq)]
pub struct Icmp {
    pub icmp_type: u8,
    pub code: u8,
    pub checksum: u16,
    pub payload: Vec<u8>,
}

impl View for Icmp {
    type V = MessageFields;

    open spec fn view(&self) -> MessageFields {
        (self.icmp_type, self.code, self.checksum, self.payload@)
    }
}

/// The wire form of a message.
pub open spec fn message_bytes(m: MessageFields) -> Seq<u8> {
    seq![m.0, m.1] + be16(m.2) + m.3
}

/// The fields read from at least four bytes.
pub open spec fn message_fields_of(b: Seq<u8>) -> MessageFields {
    (b[0], b[1], be16_value(b[2], b[3]), b.subrange(4, b.len() as int))
}

/// The checksum that a message calls for: that of its bytes with a zero checksum field.
pub open spec fn message_checksum(m: MessageFields) -> u16 {
    internet_checksum(message_bytes((m.0, m.1, 0u16, m.3)))
}

/// The message that `Icmp::new` builds: the given type, code and payload, and the
/// checksum they call for.
pub open spec fn new_message(icmp_type: u8, code: u8, payload: Seq<u8>) -> MessageFields {
    (icmp_type, code, message_checksum((icmp_type, code, 0u16, payload)), payload)
}

/// Reading the wire form of a message gives back its fields.
pub proof fn law_message_read_written(m: MessageFields)
    ensures
        message_bytes(m).len() >= MESSAGE_HEADER_LEN,
        message_fields_of(message_bytes(m)) == m,
{
    let b = message_bytes(m);
    lemma_be16(m.2, 0, 0);
    assert(b[2] == be16(m.2)[0] && b[3] == be16(m.2)[1]);
    assert(b.subrange(4, b.len() as int) =~= m.3);
}

/// Writing the fields read from at least four bytes gives back those bytes.
pub proof fn law_message_written_read(b: Seq<u8>)
    requires
        b.len() >= MESSAGE_HEADER_LEN,
    ensures
        message_bytes(message_fields_of(b)) == b,
{
    lemma_be16(0, b[2], b[3]);
    assert(message_bytes(message_fields_of(b)) =~= b);
}

/// An ICMP message could not be read.
#[derive(Debug, Clone, Copy, PartialEq, Eq, Structural)]
pub struct ParseIcmpError;

impl ParseIcmpError {
    /// The message for this error.
    pub fn to_string(&self) -> (r: String)
        ensures
            r@ == "paquet ICMP invalide"@,
    {
        string_of("paquet ICMP invalide")
    }
}

impl Icmp {
    /// A message with a correct checksum.
    pub fn new(icmp_type: u8, code: u8, payload: Vec<u8>) -> (r: Self)
        ensures
            r.icmp_type == icmp_type,
            r.code == code,
            r.payload@ == payload@,
            r.checksum == message_checksum(r@),
            r@ == new_message(icmp_type, code, payload@),
    {
        let mut packet = Icmp { icmp_type, code, checksum: 0, payload };
        packet.recompute_checksum();
        packet
    }

    /// The wire form: type, code, checksum, payload.
    pub fn to_bytes(&self) -> (r: Vec<u8>)
        ensures
            r@ == message_bytes(self@),
    {
        let mut bytes: Vec<u8> = Vec::new();
        bytes.push(self.icmp_type);
        bytes.push(self.code);
        push_be16(&mut bytes, self.checksum);
        append_bytes(&mut bytes, self.payload.as_slice());
        assert(bytes@ =~= message_bytes(self@));
        bytes
    }

    /// Reads a message; fails exactly when there are fewer than four bytes.
    pub fn from_bytes(bytes: &[u8]) -> (r: Result<Self, ParseIcmpError>)
        ensures
            r is Ok <==> bytes@.len() >= MESSAGE_HEADER_LEN,
            r matches Ok(m) ==> m@ == message_fields_of(bytes@),
    {
        if bytes.len() < MESSAGE_HEADER_LEN {
            return Err(ParseIcmpError);
        }
        let icmp_type = bytes[0];
        let code = bytes[1];
        let checksum = read_be16(bytes, 2);
        let payload = copy_range(bytes, MESSAGE_HEADER_LEN, bytes.len());
        Ok(Icmp { icmp_type, code, checksum, payload })
    }

    /// The checksum that the message calls for.
    pub fn compute_checksum(&self) -> (r: u16)
        ensures
            r == message_checksum(self@),
    {
        let mut bytes: Vec<u8> = Vec::new();
        bytes.push(self.icmp_type);
        bytes.push(self.code);
        bytes.push(0);
        bytes.push(0);
        append_bytes(&mut bytes, self.payload.as_slice());
        assert(bytes@ =~= message_bytes((self.icmp_type, self.code, 0u16, self.payload@)));
        checksum(bytes.as_slice())
    }

    /// Sets the checksum field to the checksum that the message calls for.
    pub fn recompute_checksum(&mut self)
        ensures
            final(self)@ == (old(self)@.0, old(self)@.1, message_checksum(old(self)@), old(self)@.3),
            final(self).checksum == message_checksum(final(self)@),
    {
        self.checksum = self.compute_checksum();
    }

    /// Whether the checksum field matches the message.
    pub fn verify_checksum(&self) -> (r: bool)
        ensures
            r == (self.checksum == message_checksum(self@)),
    {
        self.compute_checksum() == self.checksum
    }

    // ========================================================
    // Echo
    // ========================================================
    pub fn is_echo_request(&self) -> (r: bool)
        ensures
            r == (self.icmp_type == ECHO_REQUEST && self.code == 0),
    {
        self.icmp_type == ECHO_REQUEST && self.code == 0
    }

    pub fn is_echo_reply(&self) -> (r: bool)
        ensures
            r == (self.icmp_type == ECHO_REPLY && self.code == 0),
    {
        self.icmp_type == ECHO_REPLY && self.code == 0
    }

    // ========================================================
    // Destination Unreachable
    // ========================================================
    pub fn is_destination_unreachable(&self) -> (r: bool)
        ensures
            r == (self.icmp_type == DESTINATION_UNREACHABLE),
    {
        self.icmp_type == DESTINATION_UNREACHABLE
    }

    pub fn is_network_unreachable(&self) -> (r: bool)
        ensures
            r == (self.icmp_type == DESTINATION_UNREACHABLE && self.code == NETWORK_UNREACHABLE),
    {
        self.icmp_type == DESTINATION_UNREACHABLE && self.code == NETWORK_UNREACHABLE
    }

    pub fn is_host_unreachable(&self) -> (r: bool)
        ensures
            r == (self.icmp_type == DESTINATION_UNREACHABLE && self.code == HOST_UNREACHABLE),
    {
        self.icmp_type == DESTINATION_UNREACHABLE && self.code == HOST_UNREACHABLE
    }

    pub fn is_fragmentation_needed(&self) -> (r: bool)
        ensures
            r == (self.icmp_type == DESTINATION_UNREACHABLE && self.code == FRAGMENTATION_NEEDED),
    {
        self.icmp_type == DESTINATION_UNREACHABLE && self.code == FRAGMENTATION_NEEDED
    }

    // ========================================================
    // Time Exceeded
    // ========================================================
    pub fn is_time_exceeded(&self) -> (r: bool)
        ensures
            r == (self.icmp_type == TIME_EXCEEDED),
    {
        self.icmp_type == TIME_EXCEEDED
    }

    pub fn is_ttl_exceeded(&self) -> (r: bool)
        ensures
            r == (self.icmp_type == TIME_EXCEEDED && self.code == TTL_EXCEEDED),
    {
        self.icmp_type == TIME_EXCEEDED && self.code == TTL_EXCEEDED
    }
}

} // verus!
