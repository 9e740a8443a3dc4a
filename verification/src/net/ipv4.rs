//! IPv4 packets with a 20-byte header (no options).
use vstd::prelude::*;
use pnet_macros_support::types::{u13be, u16be, u2, u3, u4, u6};
use crate::utils::addrs::ip_addr::Ipv4Addr;
use crate::net::bytes::{append_bytes, be16, be16_value, copy_range, lemma_be16, push_be16, read_be16};
use crate::net::checksum::{checksum, internet_checksum};

#[allow(non_snake_case)]
pub mod Ipv4Flags;

#[allow(non_snake_case)]
pub mod IpNextHeaderProtocols;

verus! {

broadcast use crate::utils::addrs::ip_addr::lemma_ipv4_view;

pub const IPV4_HEADER_LEN: usize = 20;

/// The protocol carried by an IPv4 packet.
#[derive(Debug, PartialEq, Eq, Clone, Copy, Structural, Hash)]
pub struct IpNextHeaderProtocol(pub u8);

impl IpNextHeaderProtocol {
    pub fn new(value: u8) -> (r: Self)
        ensures
            r.0 == value,
    {
        IpNextHeaderProtocol(value)
    }
}

/// The fields of an IPv4 packet, addresses and payload as bytes.
#[verifier::ext_equal]
pub struct Ipv4Fields {
    pub version: u8,
    pub header_length: u8,
    pub dscp: u8,
    pub ecn: u8,
    pub total_length: u16,
    pub identification: u16,
    pub flags: u8,
    pub fragment_offset: u16,
    pub ttl: u8,
    pub protocol: u8,
    pub checksum: u16,
    pub source: Seq<u8>,
    pub destination: Seq<u8>,
    pub payload: Seq<u8>,
}

/// An IPv4 packet.
#[derive(Debug, Clone, PartialEq, Eq)]
pub struct Ipv4 {
    pub version: u4,
    pub header_length: u4,
    pub dscp: u6,
    pub ecn: u2,
    pub total_length: u16be,
    pub identification: u16be,
    pub flags: u3,
    pub fragment_offset: u13be,
    pub ttl: u8,
    pub next_level_protocol: IpNextHeaderProtocol,
    pub checksum: u16be,
    pub source: Ipv4Addr,
    pub destination: Ipv4Addr,
    pub payload: Vec<u8>,
}

impl View for Ipv4 {
    type V = Ipv4Fields;

    open spec fn view(&self) -> Ipv4Fields {
        Ipv4Fields {
            version: self.version,
            header_length: self.header_length,
            dscp: self.dscp,
            ecn: self.ecn,
            total_length: self.total_length,
            identification: self.identification,
            flags: self.flags,
            fragment_offset: self.fragment_offset,
            ttl: self.ttl,
            protocol: self.next_level_protocol.0,
            checksum: self.checksum,
            source: self.source@,
            destination: self.destination@,
            payload: self.payload@,
        }
    }
}

/// The 20 header bytes of a packet.
pub open spec fn ipv4_header(p: Ipv4Fields) -> Seq<u8> {
    seq![(p.version << 4u8) | p.header_length, (p.dscp << 2u8) | p.ecn] + be16(p.total_length)
        + be16(p.identification) + be16((((p.flags as u16) << 13u16) | p.fragment_offset) as u16)
        + seq![p.ttl, p.protocol] + be16(p.checksum) + p.source + p.destination
}

/// The wire form of a packet: its header, then its payload.
pub open spec fn ipv4_bytes(p: Ipv4Fields) -> Seq<u8> {
    ipv4_header(p) + p.payload
}

/// The checksum that a packet's header calls for: that of the header with a zero
/// checksum field.
pub open spec fn ipv4_checksum(p: Ipv4Fields) -> u16 {
    internet_checksum(ipv4_header(Ipv4Fields { checksum: 0, ..p }))
}

/// Why a byte string is not a supported IPv4 packet, if it is not.
pub open spec fn ipv4_error(b: Seq<u8>) -> Option<Seq<char>> {
    if b.len() < 20 {
        Some("paquet IPv4 trop court"@)
    } else if b[0] >> 4u8 != 4 {
        Some("version IPv4 invalide"@)
    } else if (b[0] & 0x0fu8) * 4 < 20 {
        Some("en-tête IPv4 invalide"@)
    } else if b.len() < (b[0] & 0x0fu8) * 4 {
        Some("en-tête IPv4 incomplet"@)
    } else if be16_value(b[2], b[3]) < (b[0] & 0x0fu8) * 4 {
        Some("longueur totale IPv4 invalide"@)
    } else if b.len() < be16_value(b[2], b[3]) {
        Some("paquet IPv4 incomplet"@)
    } else if (b[0] & 0x0fu8) * 4 != 20 {
        Some("options IPv4 non supportées"@)
    } else {
        None
    }
}

/// The fields of a packet read from `b`; the payload runs from the end of the
/// header to the total length.
pub open spec fn ipv4_fields_of(b: Seq<u8>) -> Ipv4Fields {
    let fo = be16_value(b[6], b[7]);
    Ipv4Fields {
        version: b[0] >> 4u8,
        header_length: b[0] & 0x0fu8,
        dscp: b[1] >> 2u8,
        ecn: b[1] & 0x03u8,
        total_length: be16_value(b[2], b[3]),
        identification: be16_value(b[4], b[5]),
        flags: ((fo >> 13u16) & 0x07u16) as u8,
        fragment_offset: fo & 0x1fffu16,
        ttl: b[8],
        protocol: b[9],
        checksum: be16_value(b[10], b[11]),
        source: b.subrange(12, 16),
        destination: b.subrange(16, 20),
        payload: b.subrange(20, be16_value(b[2], b[3]) as int),
    }
}

/// Whether the fields fit their wire widths and agree with each other: version 4,
/// a five-word header, and a total length that counts the header and the payload.
pub open spec fn ipv4_well_formed(p: Ipv4Fields) -> bool {
    &&& p.version == 4
    &&& p.header_length == 5
    &&& p.dscp < 64
    &&& p.ecn < 4
    &&& p.flags < 8
    &&& p.fragment_offset < 8192
    &&& p.source.len() == 4
    &&& p.destination.len() == 4
    &&& p.total_length == 20 + p.payload.len()
}

proof fn lemma_nibbles(v: u8, h: u8)
    requires
        v < 16,
        h < 16,
    ensures
        ((v << 4u8) | h) >> 4u8 == v,
        ((v << 4u8) | h) & 0x0fu8 == h,
{
    assert(((v << 4u8) | h) >> 4u8 == v) by (bit_vector)
        requires v < 16u8, h < 16u8;
    assert(((v << 4u8) | h) & 0x0fu8 == h) by (bit_vector)
        requires v < 16u8, h < 16u8;
}

proof fn lemma_dscp_ecn(d: u8, e: u8)
    requires
        d < 64,
        e < 4,
    ensures
        ((d << 2u8) | e) >> 2u8 == d,
        ((d << 2u8) | e) & 0x03u8 == e,
{
    assert(((d << 2u8) | e) >> 2u8 == d) by (bit_vector)
        requires d < 64u8, e < 4u8;
    assert(((d << 2u8) | e) & 0x03u8 == e) by (bit_vector)
        requires d < 64u8, e < 4u8;
}

proof fn lemma_flags_offset(f: u16, o: u16)
    requires
        f < 8,
        o < 8192,
    ensures
        (((f << 13u16) | o) >> 13u16) & 0x07u16 == f,
        ((f << 13u16) | o) & 0x1fffu16 == o,
{
    assert((((f << 13u16) | o) >> 13u16) & 0x07u16 == f) by (bit_vector)
        requires f < 8u16, o < 8192u16;
    assert(((f << 13u16) | o) & 0x1fffu16 == o) by (bit_vector)
        requires f < 8u16, o < 8192u16;
}

proof fn lemma_split_bytes(b0: u8, b1: u8, fo: u16)
    ensures
        ((b0 >> 4u8) << 4u8) | (b0 & 0x0fu8) == b0,
        ((b1 >> 2u8) << 2u8) | (b1 & 0x03u8) == b1,
        ((((fo >> 13u16) & 0x07u16) as u16) << 13u16) | (fo & 0x1fffu16) == fo,
        (b0 >> 4u8) < 16,
        (b0 & 0x0fu8) < 16,
        (b1 >> 2u8) < 64,
        (b1 & 0x03u8) < 4,
        ((fo >> 13u16) & 0x07u16) < 8,
        (fo & 0x1fffu16) < 8192,
{
    assert(((b0 >> 4u8) << 4u8) | (b0 & 0x0fu8) == b0) by (bit_vector);
    assert(((b1 >> 2u8) << 2u8) | (b1 & 0x03u8) == b1) by (bit_vector);
    assert(((((fo >> 13u16) & 0x07u16) as u16) << 13u16) | (fo & 0x1fffu16) == fo) by (bit_vector);
    assert((b0 >> 4u8) < 16u8) by (bit_vector);
    assert((b0 & 0x0fu8) < 16u8) by (bit_vector);
    assert((b1 >> 2u8) < 64u8) by (bit_vector);
    assert((b1 & 0x03u8) < 4u8) by (bit_vector);
    assert(((fo >> 13u16) & 0x07u16) < 8u16) by (bit_vector);
    assert((fo & 0x1fffu16) < 8192u16) by (bit_vector);
}

/// Reading the wire form of a well-formed packet gives back its fields.
pub proof fn law_ipv4_read_written(p: Ipv4Fields)
    requires
        ipv4_well_formed(p),
    ensures
        ipv4_error(ipv4_bytes(p)) is None,
        ipv4_fields_of(ipv4_bytes(p)) == p,
{
    let b = ipv4_bytes(p);
    let fo = (((p.flags as u16) << 13u16) | p.fragment_offset) as u16;
    lemma_nibbles(p.version, p.header_length);
    lemma_dscp_ecn(p.dscp, p.ecn);
    lemma_flags_offset(p.flags as u16, p.fragment_offset);
    lemma_be16(p.total_length, 0, 0);
    lemma_be16(p.identification, 0, 0);
    lemma_be16(fo, 0, 0);
    lemma_be16(p.checksum, 0, 0);
    assert(b[0] == (p.version << 4u8) | p.header_length);
    assert(b[1] == (p.dscp << 2u8) | p.ecn);
    assert(b[2] == be16(p.total_length)[0] && b[3] == be16(p.total_length)[1]);
    assert(b[4] == be16(p.identification)[0] && b[5] == be16(p.identification)[1]);
    assert(b[6] == be16(fo)[0] && b[7] == be16(fo)[1]);
    assert(b[10] == be16(p.checksum)[0] && b[11] == be16(p.checksum)[1]);
    assert(b.subrange(12, 16) =~= p.source);
    assert(b.subrange(16, 20) =~= p.destination);
    assert(b.subrange(20, 20 + p.payload.len() as int) =~= p.payload);
    assert((((p.flags as u16) << 13u16) | p.fragment_offset) >> 13u16 & 0x07u16 == p.flags as u16);
    assert(ipv4_fields_of(b) =~= p);
}

/// Writing the fields read from a supported packet gives back its bytes up to the
/// total length.
pub proof fn law_ipv4_written_read(b: Seq<u8>)
    requires
        ipv4_error(b) is None,
    ensures
        ipv4_bytes(ipv4_fields_of(b)) == b.take(be16_value(b[2], b[3]) as int),
        ipv4_well_formed(ipv4_fields_of(b)),
{
    let p = ipv4_fields_of(b);
    let fo = be16_value(b[6], b[7]);
    lemma_split_bytes(b[0], b[1], fo);
    lemma_be16(0, b[2], b[3]);
    lemma_be16(0, b[4], b[5]);
    lemma_be16(0, b[6], b[7]);
    lemma_be16(0, b[10], b[11]);
    lemma_nibbles(p.version, p.header_length);
    assert(p.version == 4);
    assert(p.header_length == 5);
    assert(((p.flags as u16) << 13u16) | p.fragment_offset == fo);
    assert(ipv4_bytes(p) =~= b.take(be16_value(b[2], b[3]) as int));
}

/// The packet that `Ipv4::new` builds: a 20-byte header, time to live 64, nothing
/// else set, the total length wrapping at 65536, and a correct checksum.
pub open spec fn new_packet(source: Seq<u8>, destination: Seq<u8>, protocol: u8, payload: Seq<u8>) -> Ipv4Fields {
    let p = Ipv4Fields {
        version: 4,
        header_length: 5,
        dscp: 0,
        ecn: 0,
        total_length: ((20 + payload.len()) % 65536) as u16,
        identification: 0,
        flags: 0,
        fragment_offset: 0,
        ttl: 64,
        protocol,
        checksum: 0,
        source,
        destination,
        payload,
    };
    Ipv4Fields { checksum: ipv4_checksum(p), ..p }
}

impl Ipv4 {
    /// A packet with a 20-byte header, time to live 64, and a correct checksum.
    pub fn new(source: Ipv4Addr, destination: Ipv4Addr, protocol: IpNextHeaderProtocol, payload: Vec<u8>) -> (r: Self)
        ensures
            r.version == 4,
            r.header_length == 5,
            r.dscp == 0,
            r.ecn == 0,
            r.total_length == ((20 + payload@.len()) % 65536) as u16,
            r.identification == 0,
            r.flags == 0,
            r.fragment_offset == 0,
            r.ttl == 64,
            r.next_level_protocol == protocol,
            r.source == source,
            r.destination == destination,
            r.payload@ == payload@,
            r.checksum == ipv4_checksum(r@),
            r@ == new_packet(source@, destination@, protocol.0, payload@),
    {
        let total_length: u16 = (payload.len() % 65536) as u16;
        let total_length = if total_length <= 65515 {
            total_length + 20
        } else {
            total_length - 65516
        };
        let mut packet = Ipv4 {
            version: 4,
            header_length: 5,
            dscp: 0,
            ecn: 0,
            total_length,
            identification: 0,
            flags: 0,
            fragment_offset: 0,
            ttl: 64,
            next_level_protocol: protocol,
            checksum: 0,
            source,
            destination,
            payload,
        };
        packet.recompute_checksum();
        assert(packet@ =~= new_packet(source@, destination@, protocol.0, payload@));
        packet
    }

    /// The 20 header bytes.
    fn header_bytes(&self) -> (r: Vec<u8>)
        ensures
            r@ == ipv4_header(self@),
    {
        let mut bytes: Vec<u8> = Vec::new();
        bytes.push((self.version << 4u8) | self.header_length);
        bytes.push((self.dscp << 2u8) | self.ecn);
        push_be16(&mut bytes, self.total_length);
        push_be16(&mut bytes, self.identification);
        let flags_offset: u16 = ((self.flags as u16) << 13u16) | (self.fragment_offset as u16);
        push_be16(&mut bytes, flags_offset);
        bytes.push(self.ttl);
        bytes.push(self.next_level_protocol.0);
        push_be16(&mut bytes, self.checksum);
        self.source.write_to(&mut bytes);
        self.destination.write_to(&mut bytes);
        assert(bytes@ =~= ipv4_header(self@));
        bytes
    }

    /// The wire form: the header, then the payload.
    pub fn to_bytes(&self) -> (r: Vec<u8>)
        ensures
            r@ == ipv4_bytes(self@),
    {
        let mut bytes = self.header_bytes();
        append_bytes(&mut bytes, self.payload.as_slice());
        bytes
    }

    /// Reads a packet; fails, with the message of the first check that fails, unless the
    /// bytes hold a version-4 header of 20 bytes and at least the total length it gives.
    pub fn from_bytes(bytes: &[u8]) -> (r: Result<Self, String>)
        ensures
            match ipv4_error(bytes@) {
                Some(msg) => r matches Err(e) && e@ == msg,
                None => r matches Ok(p) && p@ == ipv4_fields_of(bytes@),
            },
    {
        if bytes.len() < IPV4_HEADER_LEN {
            return Err(String::from_str("paquet IPv4 trop court"));
        }
        let version = bytes[0] >> 4u8;
        let header_length = bytes[0] & 0x0fu8;
        if version != 4 {
            return Err(String::from_str("version IPv4 invalide"));
        }
        let header_len: usize = header_length as usize * 4;
        if header_len < IPV4_HEADER_LEN {
            return Err(String::from_str("en-tête IPv4 invalide"));
        }
        if bytes.len() < header_len {
            return Err(String::from_str("en-tête IPv4 incomplet"));
        }
        let total_length: usize = read_be16(bytes, 2) as usize;
        if total_length < header_len {
            return Err(String::from_str("longueur totale IPv4 invalide"));
        }
        if bytes.len() < total_length {
            return Err(String::from_str("paquet IPv4 incomplet"));
        }
        if header_len != IPV4_HEADER_LEN {
            return Err(String::from_str("options IPv4 non supportées"));
        }
        let flags_offset = read_be16(bytes, 6);
        let flags = ((flags_offset >> 13u16) & 0x07u16) as u8;
        let fragment_offset = flags_offset & 0x1fffu16;
        let source = Ipv4Addr::read_at(bytes, 12);
        let destination = Ipv4Addr::read_at(bytes, 16);
        let payload = copy_range(bytes, header_len, total_length);
        let p = Ipv4 {
            version,
            header_length,
            dscp: bytes[1] >> 2u8,
            ecn: bytes[1] & 0x03u8,
            total_length: total_length as u16,
            identification: read_be16(bytes, 4),
            flags,
            fragment_offset,
            ttl: bytes[8],
            next_level_protocol: IpNextHeaderProtocol(bytes[9]),
            checksum: read_be16(bytes, 10),
            source,
            destination,
            payload,
        };
        assert(p@ =~= ipv4_fields_of(bytes@));
        Ok(p)
    }

    /// The checksum that the header calls for.
    pub fn compute_checksum(&self) -> (r: u16)
        ensures
            r == ipv4_checksum(self@),
    {
        let mut bytes = self.header_bytes();
        bytes.set(10, 0);
        bytes.set(11, 0);
        assert(bytes@ =~= ipv4_header(Ipv4Fields { checksum: 0, ..self@ }));
        checksum(bytes.as_slice())
    }

    /// Sets the checksum field to the checksum that the header calls for.
    pub fn recompute_checksum(&mut self)
        ensures
            final(self)@ == (Ipv4Fields { checksum: ipv4_checksum(old(self)@), ..old(self)@ }),
            final(self).checksum == ipv4_checksum(final(self)@),
    {
        let c = self.compute_checksum();
        self.checksum = c;
        assert(Ipv4Fields { checksum: 0, ..self@ } == Ipv4Fields { checksum: 0, ..old(self)@ });
    }

    /// Whether the checksum field matches the header.
    pub fn verify_checksum(&self) -> (r: bool)
        ensures
            r == (self.checksum == ipv4_checksum(self@)),
    {
        self.compute_checksum() == self.checksum
    }
}

} // verus!
