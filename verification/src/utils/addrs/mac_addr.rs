//! 48-bit Ethernet (MAC) addresses.
use vstd::prelude::*;
use crate::utils::text::{
    hex2, lemma_hex2_parses, lemma_split_piece, lemma_split_then_piece, parse_bounded, parse_uint,
    push_char, push_hex2, split, split_chars, str_chars, string_of, views,
};

verus! {

pub const ETHER_ADDR_LEN: usize = 6;

/// A MAC address, held as its six bytes in transmission order.
#[derive(Debug, Clone, Copy, PartialEq, Eq, Structural, Hash, PartialOrd, Ord, Default)]
pub struct MacAddr(u8, u8, u8, u8, u8, u8);

impl View for MacAddr {
    type V = Seq<u8>;

    closed spec fn view(&self) -> Seq<u8> {
        seq![self.0, self.1, self.2, self.3, self.4, self.5]
    }
}

/// A MAC address is its six bytes: two addresses are equal exactly when their bytes are.
pub broadcast proof fn lemma_mac_view(a: MacAddr, b: MacAddr)
    ensures
        #[trigger] a@.len() == 6,
        (a@ == #[trigger] b@) <==> a == b,
{
    assert(a@ == b@ ==> a@[0] == b@[0] && a@[1] == b@[1] && a@[2] == b@[2] && a@[3] == b@[3]
        && a@[4] == b@[4] && a@[5] == b@[5]);
}

/// The address whose bytes are the first six of `b`.
pub closed spec fn mac_from_seq(b: Seq<u8>) -> MacAddr {
    MacAddr(b[0], b[1], b[2], b[3], b[4], b[5])
}

/// The address made of six bytes has those bytes.
pub broadcast proof fn lemma_mac_from_seq(b: Seq<u8>)
    requires
        b.len() == 6,
    ensures
        #[trigger] mac_from_seq(b)@ == b,
{
    assert(mac_from_seq(b)@ =~= b);
}

/// An address is the address made of its own bytes.
pub broadcast proof fn lemma_mac_of_view(a: MacAddr)
    ensures
        #[trigger] mac_from_seq(a@) == a,
{
}

/// The all-zero address.
pub open spec fn zero_mac() -> Seq<u8> {
    seq![0u8, 0, 0, 0, 0, 0]
}

/// The broadcast address `ff:ff:ff:ff:ff:ff`.
pub open spec fn broadcast_mac() -> Seq<u8> {
    seq![255u8, 255, 255, 255, 255, 255]
}

/// Why a MAC address could not be read.
#[derive(Debug, Clone, Copy, PartialEq, Eq, Structural)]
pub enum ParseMacAddrErr {
    InvalidLength,
    InvalidComponent,
}

/// The text form of a MAC address: six two-digit lower-case hexadecimal bytes
/// separated by `:`.
pub open spec fn mac_text(b: Seq<u8>) -> Seq<char> {
    hex2(b[0]) + seq![':'] + hex2(b[1]) + seq![':'] + hex2(b[2]) + seq![':'] + hex2(b[3]) + seq![
        ':',
    ] + hex2(b[4]) + seq![':'] + hex2(b[5])
}

/// The byte that a text component stands for (only meaningful when it parses).
pub open spec fn hex_byte(part: Seq<char>) -> u8 {
    parse_bounded(part, 16, 255).unwrap() as u8
}

/// What reading `s` as a MAC address gives: exactly six `:`-separated parts,
/// each a hexadecimal number of at most `ff` (by the rules of `from_str_radix`).
pub open spec fn parse_mac(s: Seq<char>) -> Result<Seq<u8>, ParseMacAddrErr> {
    let parts = split(s, ':');
    if parts.len() != 6 {
        Err(ParseMacAddrErr::InvalidLength)
    } else if forall|i: int| 0 <= i < 6 ==> (#[trigger] parse_bounded(parts[i], 16, 255)) is Some {
        Ok(seq![
            hex_byte(parts[0]),
            hex_byte(parts[1]),
            hex_byte(parts[2]),
            hex_byte(parts[3]),
            hex_byte(parts[4]),
            hex_byte(parts[5]),
        ])
    } else {
        Err(ParseMacAddrErr::InvalidComponent)
    }
}

/// The text form splits at `:` into the six two-digit bytes.
proof fn lemma_mac_text_split(b: Seq<u8>)
    requires
        b.len() == 6,
    ensures
        split(mac_text(b), ':') == seq![hex2(b[0]), hex2(b[1]), hex2(b[2]), hex2(b[3]), hex2(b[4]), hex2(b[5])],
{
    let h = seq![hex2(b[0]), hex2(b[1]), hex2(b[2]), hex2(b[3]), hex2(b[4]), hex2(b[5])];
    let t1 = hex2(b[0]);
    let t2 = t1 + seq![':'] + hex2(b[1]);
    let t3 = t2 + seq![':'] + hex2(b[2]);
    let t4 = t3 + seq![':'] + hex2(b[3]);
    let t5 = t4 + seq![':'] + hex2(b[4]);
    let t6 = t5 + seq![':'] + hex2(b[5]);
    assert(split(t1, ':') == h.take(1)) by {
        lemma_hex2_parses(b[0]);
        lemma_split_piece(t1, ':');
        assert(seq![t1] =~= h.take(1));
    }
    assert(split(t2, ':') == h.take(2)) by {
        lemma_hex2_parses(b[1]);
        lemma_split_then_piece(t1, hex2(b[1]), ':');
        assert(h.take(1).push(hex2(b[1])) =~= h.take(2));
    }
    assert(split(t3, ':') == h.take(3)) by {
        lemma_hex2_parses(b[2]);
        lemma_split_then_piece(t2, hex2(b[2]), ':');
        assert(h.take(2).push(hex2(b[2])) =~= h.take(3));
    }
    assert(split(t4, ':') == h.take(4)) by {
        lemma_hex2_parses(b[3]);
        lemma_split_then_piece(t3, hex2(b[3]), ':');
        assert(h.take(3).push(hex2(b[3])) =~= h.take(4));
    }
    assert(split(t5, ':') == h.take(5)) by {
        lemma_hex2_parses(b[4]);
        lemma_split_then_piece(t4, hex2(b[4]), ':');
        assert(h.take(4).push(hex2(b[4])) =~= h.take(5));
    }
    assert(split(t6, ':') == h) by {
        lemma_hex2_parses(b[5]);
        lemma_split_then_piece(t5, hex2(b[5]), ':');
        assert(h.take(5).push(hex2(b[5])) =~= h);
    }
}

/// Reading the text form of an address gives the address back.
pub proof fn law_mac_text_reads_back(b: Seq<u8>)
    requires
        b.len() == 6,
    ensures
        parse_mac(mac_text(b)) == Ok::<Seq<u8>, ParseMacAddrErr>(b),
{
    let h = seq![hex2(b[0]), hex2(b[1]), hex2(b[2]), hex2(b[3]), hex2(b[4]), hex2(b[5])];
    lemma_mac_text_split(b);
    lemma_hex2_parses(b[0]);
    lemma_hex2_parses(b[1]);
    lemma_hex2_parses(b[2]);
    lemma_hex2_parses(b[3]);
    lemma_hex2_parses(b[4]);
    lemma_hex2_parses(b[5]);
    assert forall|i: int| 0 <= i < 6 implies (#[trigger] parse_bounded(h[i], 16, 255)) is Some by {}
    assert(seq![hex_byte(h[0]), hex_byte(h[1]), hex_byte(h[2]), hex_byte(h[3]), hex_byte(h[4]), hex_byte(h[5])] =~= b);
}

impl MacAddr {
    pub fn new(a: u8, b: u8, c: u8, d: u8, e: u8, f: u8) -> (r: Self)
        ensures
            r@ == seq![a, b, c, d, e, f],
    {
        MacAddr(a, b, c, d, e, f)
    }

    pub fn zero() -> (r: Self)
        ensures
            r@ == zero_mac(),
    {
        MacAddr(0, 0, 0, 0, 0, 0)
    }

    pub fn broadcast() -> (r: Self)
        ensures
            r@ == broadcast_mac(),
    {
        MacAddr(0xff, 0xff, 0xff, 0xff, 0xff, 0xff)
    }

    pub fn is_zero(&self) -> (r: bool)
        ensures
            r == (self@ == zero_mac()),
    {
        proof {
            lemma_mac_view(*self, MacAddr(0, 0, 0, 0, 0, 0));
        }
        *self == MacAddr(0, 0, 0, 0, 0, 0)
    }

    pub fn is_broadcast(&self) -> (r: bool)
        ensures
            r == (self@ == broadcast_mac()),
    {
        proof {
            lemma_mac_view(*self, MacAddr(0xff, 0xff, 0xff, 0xff, 0xff, 0xff));
        }
        *self == MacAddr(0xff, 0xff, 0xff, 0xff, 0xff, 0xff)
    }

    pub fn to_bytes(self) -> (r: [u8; ETHER_ADDR_LEN])
        ensures
            r@ == self@,
    {
        let r = [self.0, self.1, self.2, self.3, self.4, self.5];
        assert(r@ =~= self@);
        r
    }

    /// The address whose bytes are `bytes`, which must be exactly six.
    pub fn from_bytes(bytes: &[u8]) -> (r: Result<Self, ParseMacAddrErr>)
        ensures
            bytes@.len() == 6 <==> r is Ok,
            r matches Ok(m) ==> m@ == bytes@,
            r matches Err(e) ==> e == ParseMacAddrErr::InvalidLength,
    {
        if bytes.len() != ETHER_ADDR_LEN {
            return Err(ParseMacAddrErr::InvalidLength);
        }
        let m = MacAddr(bytes[0], bytes[1], bytes[2], bytes[3], bytes[4], bytes[5]);
        assert(m@ =~= bytes@);
        Ok(m)
    }

    /// The address whose bytes are `b[at..at + 6]`.
    pub fn read_at(b: &[u8], at: usize) -> (r: Self)
        requires
            at + 6 <= b@.len(),
        ensures
            r@ == b@.subrange(at as int, at + 6),
    {
        let r = MacAddr(b[at], b[at + 1], b[at + 2], b[at + 3], b[at + 4], b[at + 5]);
        assert(r@ =~= b@.subrange(at as int, at + 6));
        r
    }

    /// Appends the six bytes of the address.
    pub fn write_to(self, out: &mut Vec<u8>)
        ensures
            final(out)@ == old(out)@ + self@,
    {
        out.push(self.0);
        out.push(self.1);
        out.push(self.2);
        out.push(self.3);
        out.push(self.4);
        out.push(self.5);
        assert(final(out)@ =~= old(out)@ + self@);
    }

    /// Reads a MAC address written as six `:`-separated hexadecimal bytes.
    pub fn parse_chars(s: &[char]) -> (r: Result<Self, ParseMacAddrErr>)
        ensures
            match parse_mac(s@) {
                Ok(b) => r matches Ok(m) && m@ == b,
                Err(e) => r == Err::<MacAddr, ParseMacAddrErr>(e),
            },
    {
        let parts = split_chars(s, ':');
        assert(views(parts@).len() == parts@.len());
        if parts.len() != ETHER_ADDR_LEN {
            return Err(ParseMacAddrErr::InvalidLength);
        }
        let ghost ps = split(s@, ':');
        let mut bytes: Vec<u8> = Vec::new();
        let mut i: usize = 0;
        while i < 6
            invariant
                i <= 6,
                parts@.len() == 6,
                views(parts@) == ps,
                ps == split(s@, ':'),
                bytes@.len() == i,
                forall|j: int| 0 <= j < i ==> (#[trigger] parse_bounded(ps[j], 16, 255)) is Some,
                forall|j: int| 0 <= j < i ==> bytes@[j] == hex_byte(#[trigger] ps[j]),
            decreases 6 - i,
        {
            assert(parts@[i as int]@ == ps[i as int]);
            match parse_uint(parts[i].as_slice(), 16, 255) {
                None => {
                    return Err(ParseMacAddrErr::InvalidComponent);
                },
                Some(v) => {
                    bytes.push(v as u8);
                },
            }
            i = i + 1;
        }
        let m = MacAddr(bytes[0], bytes[1], bytes[2], bytes[3], bytes[4], bytes[5]);
        assert(m@ =~= seq![
            hex_byte(ps[0]),
            hex_byte(ps[1]),
            hex_byte(ps[2]),
            hex_byte(ps[3]),
            hex_byte(ps[4]),
            hex_byte(ps[5]),
        ]);
        Ok(m)
    }

    /// Reads a MAC address written as six `:`-separated hexadecimal bytes.
    pub fn parse_str(s: &str) -> (r: Result<Self, ParseMacAddrErr>)
        ensures
            match parse_mac(s@) {
                Ok(b) => r matches Ok(m) && m@ == b,
                Err(e) => r == Err::<MacAddr, ParseMacAddrErr>(e),
            },
    {
        let cs = str_chars(s);
        Self::parse_chars(cs.as_slice())
    }

    /// The text form: six two-digit lower-case hexadecimal bytes separated by `:`.
    pub fn to_string(&self) -> (r: String)
        ensures
            r@ == mac_text(self@),
    {
        let mut s = String::new();
        push_hex2(&mut s, self.0);
        push_char(&mut s, ':');
        push_hex2(&mut s, self.1);
        push_char(&mut s, ':');
        push_hex2(&mut s, self.2);
        push_char(&mut s, ':');
        push_hex2(&mut s, self.3);
        push_char(&mut s, ':');
        push_hex2(&mut s, self.4);
        push_char(&mut s, ':');
        push_hex2(&mut s, self.5);
        assert(s@ =~= mac_text(self@));
        s
    }
}

impl ParseMacAddrErr {
    /// The message for this error.
    pub fn to_string(&self) -> (r: String)
        ensures
            *self == ParseMacAddrErr::InvalidLength ==> r@ == "invalid MAC address length"@,
            *self == ParseMacAddrErr::InvalidComponent ==> r@ == "invalid MAC address component"@,
    {
        match self {
            ParseMacAddrErr::InvalidLength => string_of("invalid MAC address length"),
            ParseMacAddrErr::InvalidComponent => string_of("invalid MAC address component"),
        }
    }
}

impl core::str::FromStr for MacAddr {
    type Err = ParseMacAddrErr;

    fn from_str(s: &str) -> (r: Result<Self, Self::Err>)
        ensures
            match parse_mac(s@) {
                Ok(b) => r matches Ok(m) && m@ == b,
                Err(e) => r == Err::<MacAddr, ParseMacAddrErr>(e),
            },
    {
        MacAddr::parse_str(s)
    }
}

} // verus!
