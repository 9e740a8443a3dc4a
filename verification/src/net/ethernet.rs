//! Ethernet II frames: destination, source, EtherType, payload and a CRC-32 frame
//! check sequence.
use vstd::prelude::*;
use crate::utils::addrs::mac_addr::MacAddr;
use crate::utils::text::{hex4, push_hex4, push_str};
use crate::net::bytes::{
    append_bytes, be16, be16_value, copy_range, le32, le32_value, lemma_be16, lemma_le32,
    push_be16, push_le32, read_be16,
};

#[allow(non_snake_case)]
pub mod EtherTypes;

verus! {

broadcast use crate::utils::addrs::mac_addr::lemma_mac_view;

pub const MIN_PAYLOAD_LEN: usize = 46;

pub const MAX_PAYLOAD_LEN: usize = 1500;

pub const ETH_HEADER_LEN: usize = 14;

pub const ETH_FCS_LEN: usize = 4;

// --------------------------------------------------
// CRC-32 (IEEE 802.3, reflected, polynomial 0xEDB88320)
// --------------------------------------------------
/// One bit step of the reflected CRC-32 register.
pub open spec fn crc_bit(c: u32) -> u32 {
    if c & 1 != 0 {
        (c >> 1) ^ 0xEDB8_8320
    } else {
        c >> 1
    }
}

/// `n` bit steps of the register.
pub open spec fn crc_bits(c: u32, n: nat) -> u32
    decreases n,
{
    if n == 0 {
        c
    } else {
        crc_bits(crc_bit(c), (n - 1) as nat)
    }
}

/// The register after `data`, started at all ones.
pub open spec fn crc_register(data: Seq<u8>) -> u32
    decreases data.len(),
{
    if data.len() == 0 {
        0xFFFF_FFFF
    } else {
        crc_bits(crc_register(data.drop_last()) ^ (data.last() as u32), 8)
    }
}

/// The CRC-32 of `data`: the complemented final register.
pub open spec fn crc32_spec(data: Seq<u8>) -> u32 {
    !crc_register(data)
}

/// One bit step of the register is linear: it commutes with `^`.
proof fn lemma_crc_bit_linear(a: u32, b: u32)
    ensures
        crc_bit(a ^ b) == crc_bit(a) ^ crc_bit(b),
{
    assert((if (a ^ b) & 1 != 0 { ((a ^ b) >> 1) ^ 0xEDB8_8320u32 } else { (a ^ b) >> 1 }) == (if a & 1 != 0 {
        (a >> 1) ^ 0xEDB8_8320u32
    } else {
        a >> 1
    }) ^ (if b & 1 != 0 { (b >> 1) ^ 0xEDB8_8320u32 } else { b >> 1 })) by (bit_vector);
}

/// One bit step of the register maps only zero to zero.
proof fn lemma_crc_bit_nonzero(c: u32)
    requires
        c != 0,
    ensures
        crc_bit(c) != 0,
{
    assert(c != 0 ==> (if c & 1 != 0 { (c >> 1) ^ 0xEDB8_8320u32 } else { c >> 1 }) != 0) by (bit_vector);
}

/// Any number of bit steps commutes with `^`.
proof fn lemma_crc_bits_linear(a: u32, b: u32, n: nat)
    ensures
        crc_bits(a ^ b, n) == crc_bits(a, n) ^ crc_bits(b, n),
    decreases n,
{
    if n > 0 {
        lemma_crc_bit_linear(a, b);
        lemma_crc_bits_linear(crc_bit(a), crc_bit(b), (n - 1) as nat);
    }
}

/// Any number of bit steps maps only zero to zero.
proof fn lemma_crc_bits_nonzero(c: u32, n: nat)
    requires
        c != 0,
    ensures
        crc_bits(c, n) != 0,
    decreases n,
{
    if n > 0 {
        lemma_crc_bit_nonzero(c);
        lemma_crc_bits_nonzero(crc_bit(c), (n - 1) as nat);
    }
}

/// Two equal registers taking different bytes, or two different registers taking the
/// same byte, differ after the byte.
proof fn lemma_crc_byte_step_differs(ra: u32, rb: u32, x: u8, y: u8)
    requires
        (ra == rb && x != y) || (ra != rb && x == y),
    ensures
        crc_bits(ra ^ (x as u32), 8) != crc_bits(rb ^ (y as u32), 8),
{
    let u = ra ^ (x as u32);
    let v = rb ^ (y as u32);
    assert(u != v) by (bit_vector)
        requires
            u == ra ^ (x as u32),
            v == rb ^ (y as u32),
            (ra == rb && x != y) || (ra != rb && x == y),
    ;
    assert(u ^ v != 0) by (bit_vector)
        requires
            u != v,
    ;
    lemma_crc_bits_linear(u, v, 8);
    lemma_crc_bits_nonzero(u ^ v, 8);
    let cu = crc_bits(u, 8);
    let cv = crc_bits(v, 8);
    assert(cu != cv) by (bit_vector)
        requires
            cu ^ cv != 0,
    ;
}

/// Two byte strings of the same length that differ in exactly one byte end with
/// different CRC registers.
proof fn lemma_crc_register_one_byte(a: Seq<u8>, b: Seq<u8>, k: int)
    requires
        a.len() == b.len(),
        0 <= k < a.len(),
        a[k] != b[k],
        forall|j: int| 0 <= j < a.len() && j != k ==> a[j] == b[j],
    ensures
        crc_register(a) != crc_register(b),
    decreases a.len(),
{
    let n = a.len() - 1;
    if k == n {
        assert(a.drop_last() =~= b.drop_last());
        lemma_crc_byte_step_differs(crc_register(a.drop_last()), crc_register(b.drop_last()), a.last(), b.last());
    } else {
        lemma_crc_register_one_byte(a.drop_last(), b.drop_last(), k);
        assert(a.last() == b.last());
        lemma_crc_byte_step_differs(crc_register(a.drop_last()), crc_register(b.drop_last()), a.last(), b.last());
    }
}

/// The CRC-32 catches every change of a single byte: two byte strings of the same
/// length that differ in exactly one byte have different CRC-32s.
pub proof fn law_crc32_detects_one_changed_byte(a: Seq<u8>, b: Seq<u8>, k: int)
    requires
        a.len() == b.len(),
        0 <= k < a.len(),
        a[k] != b[k],
        forall|j: int| 0 <= j < a.len() && j != k ==> a[j] == b[j],
    ensures
        crc32_spec(a) != crc32_spec(b),
{
    lemma_crc_register_one_byte(a, b, k);
    let ra = crc_register(a);
    let rb = crc_register(b);
    assert(!ra != !rb) by (bit_vector)
        requires
            ra != rb,
    ;
}

/// The CRC-32 of `data`, as Ethernet uses it for the frame check sequence.
fn crc32(data: &[u8]) -> (r: u32)
    ensures
        r == crc32_spec(data@),
{
    let mut crc: u32 = 0xFFFF_FFFF;
    let mut i: usize = 0;
    while i < data.len()
        invariant
            i <= data.len(),
            crc == crc_register(data@.take(i as int)),
        decreases data.len() - i,
    {
        let byte = data[i];
        let ghost start = crc ^ (byte as u32);
        crc ^= byte as u32;
        let mut k: u32 = 0;
        while k < 8
            invariant
                k <= 8,
                crc_bits(start, 8) == crc_bits(crc, (8 - k) as nat),
            decreases 8 - k,
        {
            crc = if crc & 1 != 0 {
                (crc >> 1) ^ 0xEDB8_8320
            } else {
                crc >> 1
            };
            k = k + 1;
        }
        assert(data@.take(i + 1).drop_last() == data@.take(i as int));
        i = i + 1;
    }
    assert(data@.take(data.len() as int) == data@);
    !crc
}

// --------------------------------------------------
// EtherType
// --------------------------------------------------
/// The type of the payload of an Ethernet frame.
#[derive(Debug, Clone, Copy, PartialEq, Eq, Structural, Hash)]
pub struct EtherType(pub u16);

impl EtherType {
    pub fn new(value: u16) -> (r: Self)
        ensures
            r.0 == value,
    {
        EtherType(value)
    }

    pub fn to_bytes(self) -> (r: [u8; 2])
        ensures
            r@ == be16(self.0),
    {
        let r = [(self.0 / 256) as u8, (self.0 % 256) as u8];
        assert(r@ =~= be16(self.0));
        r
    }

    /// The EtherType of the first two bytes of `bytes`, which must hold at least two.
    pub fn from_bytes(bytes: &[u8]) -> (r: Self)
        requires
            bytes@.len() >= 2,
        ensures
            r.0 == be16_value(bytes@[0], bytes@[1]),
    {
        EtherType(read_be16(bytes, 0))
    }

    /// The text form: `0x` and four lower-case hexadecimal digits.
    pub fn to_string(&self) -> (r: String)
        ensures
            r@ == "0x"@ + hex4(self.0),
    {
        let mut s = String::new();
        push_str(&mut s, "0x");
        push_hex4(&mut s, self.0);
        s
    }
}

// --------------------------------------------------
// Frames
// --------------------------------------------------
/// The fields of a frame: destination bytes, source bytes, EtherType, payload, FCS.
pub type EthernetFields = (Seq<u8>, Seq<u8>, u16, Seq<u8>, u32);

/// The bytes that the frame check sequence covers: the header and the payload.
pub open spec fn eth_covered(f: EthernetFields) -> Seq<u8> {
    f.0 + f.1 + be16(f.2) + f.3
}

/// The frame check sequence that the fields call for.
pub open spec fn eth_fcs(f: EthernetFields) -> u32 {
    crc32_spec(eth_covered(f))
}

/// The wire form of a frame: header, payload, then the FCS least significant byte first.
pub open spec fn eth_bytes(f: EthernetFields) -> Seq<u8> {
    eth_covered(f) + le32(f.4)
}

/// The fields read from at least 18 bytes: the last four are the FCS and what lies
/// between the 14-byte header and them is the payload.
pub open spec fn eth_fields_of(b: Seq<u8>) -> EthernetFields {
    (
        b.subrange(0, 6),
        b.subrange(6, 12),
        be16_value(b[12], b[13]),
        b.subrange(14, b.len() - 4),
        le32_value(b.subrange(b.len() - 4, b.len() as int)),
    )
}

/// An Ethernet II frame.
#[derive(Debug, Clone, PartialEq, Eq)]
pub struct Ethernet {
    pub destination: MacAddr,
    pub source: MacAddr,
    pub ethertype: EtherType,
    pub payload: Vec<u8>,
    pub fcs: u32,
}

impl View for Ethernet {
    type V = EthernetFields;

    open spec fn view(&self) -> EthernetFields {
        (self.destination@, self.source@, self.ethertype.0, self.payload@, self.fcs)
    }
}

/// Reading the wire form of a frame gives back its fields.
pub proof fn law_ethernet_read_written(f: EthernetFields)
    requires
        f.0.len() == 6,
        f.1.len() == 6,
    ensures
        eth_bytes(f).len() >= ETH_HEADER_LEN + ETH_FCS_LEN,
        eth_fields_of(eth_bytes(f)) == f,
{
    let b = eth_bytes(f);
    lemma_be16(f.2, 0, 0);
    lemma_le32(f.4, seq![0u8, 0, 0, 0]);
    assert(b.subrange(0, 6) =~= f.0);
    assert(b.subrange(6, 12) =~= f.1);
    assert(b[12] == be16(f.2)[0] && b[13] == be16(f.2)[1]);
    assert(b.subrange(14, b.len() - 4) =~= f.3);
    assert(b.subrange(b.len() - 4, b.len() as int) =~= le32(f.4));
}

/// A frame whose payload differs from that of another in exactly one byte, the
/// header and the FCS being the same, calls for a different FCS; so if the FCS was
/// right for the first frame, the second fails the check.
pub proof fn law_fcs_detects_one_changed_payload_byte(f: EthernetFields, g: EthernetFields, k: int)
    requires
        f.0 == g.0,
        f.1 == g.1,
        f.2 == g.2,
        f.4 == g.4,
        f.3.len() == g.3.len(),
        0 <= k < f.3.len(),
        f.3[k] != g.3[k],
        forall|j: int| 0 <= j < f.3.len() && j != k ==> f.3[j] == g.3[j],
    ensures
        eth_fcs(f) != eth_fcs(g),
        f.4 == eth_fcs(f) ==> g.4 != eth_fcs(g),
{
    let a = eth_covered(f);
    let b = eth_covered(g);
    let h = f.0.len() + f.1.len() + 2;
    assert forall|j: int| 0 <= j < a.len() && j != h + k implies a[j] == b[j] by {
        if j >= h {
            assert(a[j] == f.3[j - h] && b[j] == g.3[j - h]);
        }
    }
    assert(a[h + k] == f.3[k] && b[h + k] == g.3[k]);
    law_crc32_detects_one_changed_byte(a, b, h + k);
}

/// Writing the fields read from at least 18 bytes gives back those bytes.
pub proof fn law_ethernet_written_read(b: Seq<u8>)
    requires
        b.len() >= ETH_HEADER_LEN + ETH_FCS_LEN,
    ensures
        eth_bytes(eth_fields_of(b)) == b,
{
    let f = eth_fields_of(b);
    lemma_be16(0, b[12], b[13]);
    lemma_le32(0, b.subrange(b.len() - 4, b.len() as int));
    assert(eth_bytes(f) =~= b);
}

impl Ethernet {
    /// A frame whose FCS is computed over its header and payload.
    pub fn new(destination: MacAddr, source: MacAddr, ethertype: EtherType, payload: Vec<u8>) -> (r: Self)
        ensures
            r.destination == destination,
            r.source == source,
            r.ethertype == ethertype,
            r.payload@ == payload@,
            r.fcs == eth_fcs(r@),
    {
        let mut frame = Ethernet { destination, source, ethertype, payload, fcs: 0 };
        frame.fcs = frame.compute_fcs();
        frame
    }

    /// The wire form: header, payload, then the FCS least significant byte first.
    pub fn to_bytes(&self) -> (r: Vec<u8>)
        ensures
            r@ == eth_bytes(self@),
    {
        let mut bytes = self.covered_bytes();
        push_le32(&mut bytes, self.fcs);
        bytes
    }

    /// The header and payload bytes.
    fn covered_bytes(&self) -> (r: Vec<u8>)
        ensures
            r@ == eth_covered(self@),
    {
        let mut bytes: Vec<u8> = Vec::new();
        self.destination.write_to(&mut bytes);
        self.source.write_to(&mut bytes);
        push_be16(&mut bytes, self.ethertype.0);
        append_bytes(&mut bytes, self.payload.as_slice());
        bytes
    }

    /// Reads a frame; fails exactly when there are fewer than 18 bytes.
    pub fn from_bytes(bytes: &[u8]) -> (r: Result<Self, String>)
        ensures
            r is Ok <==> bytes@.len() >= ETH_HEADER_LEN + ETH_FCS_LEN,
            r matches Ok(f) ==> f@ == eth_fields_of(bytes@),
            r matches Err(e) ==> e@ == "trame Ethernet trop courte"@,
    {
        if bytes.len() < ETH_HEADER_LEN + ETH_FCS_LEN {
            return Err(String::from_str("trame Ethernet trop courte"));
        }
        let fcs_start = bytes.len() - ETH_FCS_LEN;
        let destination = MacAddr::read_at(bytes, 0);
        let source = MacAddr::read_at(bytes, 6);
        let ethertype = EtherType(read_be16(bytes, 12));
        let payload = copy_range(bytes, 14, fcs_start);
        let fcs: u32 = (bytes[fcs_start] as u32) + (bytes[fcs_start + 1] as u32) * 256 + (
        bytes[fcs_start + 2] as u32) * 65536 + (bytes[fcs_start + 3] as u32) * 16777216;
        let f = Ethernet { destination, source, ethertype, payload, fcs };
        assert(f@ =~= eth_fields_of(bytes@));
        Ok(f)
    }

    /// The FCS that the header and payload call for.
    pub fn compute_fcs(&self) -> (r: u32)
        ensures
            r == eth_fcs(self@),
    {
        let bytes = self.covered_bytes();
        crc32(bytes.as_slice())
    }

    /// Whether the FCS matches the header and payload.
    pub fn verify_fcs(&self) -> (r: bool)
        ensures
            r == (self.fcs == eth_fcs(self@)),
    {
        self.compute_fcs() == self.fcs
    }
}

} // verus!
