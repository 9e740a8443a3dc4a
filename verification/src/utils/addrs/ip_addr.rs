//! IPv4 and IPv6 addresses.
use vstd::prelude::*;
use crate::utils::text::{
    dec, hex, lemma_dec_byte_parses, lemma_dec_reads_back, lemma_hex_reads_back, lemma_split_piece, lemma_split_then_piece,
    parse_bounded, parse_uint, push_char, push_dec, push_hex, split, split_chars, str_chars, views,
};

verus! {

#[derive(Debug, Clone, Copy, PartialEq, Eq, Hash)]
pub enum IpAddr {
    V4(Ipv4Addr),
    V6(Ipv6Addr),
}

impl IpAddr {
    pub fn is_ipv4(&self) -> (r: bool)
        ensures
            r == (*self is V4),
    {
        matches!(self, IpAddr::V4(_))
    }

    pub fn is_ipv6(&self) -> (r: bool)
        ensures
            r == (*self is V6),
    {
        matches!(self, IpAddr::V6(_))
    }
}

// --------------------------------------------------
// IPv4
// --------------------------------------------------
/// An IPv4 address, held as its four bytes in network order.
#[derive(Debug, Clone, Copy, PartialEq, Eq, Structural, Hash)]
pub struct Ipv4Addr(u8, u8, u8, u8);

/// An IPv4 address could not be read.
#[derive(Debug, Clone, Copy, PartialEq, Eq, Structural)]
pub struct ParseIpv4Error;

impl View for Ipv4Addr {
    type V = Seq<u8>;

    closed spec fn view(&self) -> Seq<u8> {
        seq![self.0, self.1, self.2, self.3]
    }
}

/// An IPv4 address is its four bytes: two addresses are equal exactly when their bytes are.
pub broadcast proof fn lemma_ipv4_view(a: Ipv4Addr, b: Ipv4Addr)
    ensures
        #[trigger] a@.len() == 4,
        (a@ == #[trigger] b@) <==> a == b,
{
    assert(a@ == b@ ==> a@[0] == b@[0] && a@[1] == b@[1] && a@[2] == b@[2] && a@[3] == b@[3]);
}

/// The address whose bytes are the first four of `b`.
pub closed spec fn ipv4_from_seq(b: Seq<u8>) -> Ipv4Addr {
    Ipv4Addr(b[0], b[1], b[2], b[3])
}

/// The address made of four bytes has those bytes.
pub broadcast proof fn lemma_ipv4_from_seq(b: Seq<u8>)
    requires
        b.len() == 4,
    ensures
        #[trigger] ipv4_from_seq(b)@ == b,
{
    assert(ipv4_from_seq(b)@ =~= b);
}

/// An address is the address made of its own bytes.
pub broadcast proof fn lemma_ipv4_of_view(a: Ipv4Addr)
    ensures
        #[trigger] ipv4_from_seq(a@) == a,
{
}

/// The 32-bit number of four bytes read in network (big-endian) order.
pub open spec fn be_u32(b: Seq<u8>) -> int {
    b[0] * 16777216 + b[1] * 65536 + b[2] * 256 + b[3]
}

/// The address as a 32-bit number, first byte most significant.
pub open spec fn ipv4_u32(a: Ipv4Addr) -> u32 {
    be_u32(a@) as u32
}

/// The four bytes of a 32-bit number in network (big-endian) order.
pub open spec fn u32_be(x: u32) -> Seq<u8> {
    seq![
        (x / 16777216) as u8,
        ((x / 65536) % 256) as u8,
        ((x / 256) % 256) as u8,
        (x % 256) as u8,
    ]
}

/// Reading the bytes of a number back gives the number.
pub proof fn lemma_u32_be_roundtrip(x: u32)
    ensures
        be_u32(u32_be(x)) == x,
        u32_be(x).len() == 4,
{
    let a = x / 16777216;
    let b = (x / 65536) % 256;
    let c = (x / 256) % 256;
    let d = x % 256;
    assert(a * 16777216 + b * 65536 + c * 256 + d == x) by (nonlinear_arith)
        requires
            a == x / 16777216,
            b == (x / 65536) % 256,
            c == (x / 256) % 256,
            d == x % 256,
    ;
}

/// The text form of an IPv4 address: four decimal bytes separated by `.`.
pub open spec fn ipv4_text(b: Seq<u8>) -> Seq<char> {
    dec(b[0] as nat) + seq!['.'] + dec(b[1] as nat) + seq!['.'] + dec(b[2] as nat) + seq!['.']
        + dec(b[3] as nat)
}

/// The byte that a decimal text component stands for (only meaningful when it parses).
pub open spec fn dec_byte(part: Seq<char>) -> u8 {
    parse_bounded(part, 10, 255).unwrap() as u8
}

/// What reading `s` as an IPv4 address gives: exactly four `.`-separated parts,
/// each a decimal number of at most 255 (by the rules of `u8::from_str`).
pub open spec fn parse_ipv4(s: Seq<char>) -> Option<Seq<u8>> {
    let parts = split(s, '.');
    if parts.len() == 4 && forall|i: int| 0 <= i < 4 ==> (#[trigger] parse_bounded(parts[i], 10, 255)) is Some {
        Some(seq![dec_byte(parts[0]), dec_byte(parts[1]), dec_byte(parts[2]), dec_byte(parts[3])])
    } else {
        None
    }
}

/// The text form splits at `.` into the four decimal bytes.
proof fn lemma_ipv4_text_split(b: Seq<u8>)
    requires
        b.len() == 4,
    ensures
        split(ipv4_text(b), '.') == seq![dec(b[0] as nat), dec(b[1] as nat), dec(b[2] as nat), dec(b[3] as nat)],
{
    let h = seq![dec(b[0] as nat), dec(b[1] as nat), dec(b[2] as nat), dec(b[3] as nat)];
    let t1 = dec(b[0] as nat);
    let t2 = t1 + seq!['.'] + dec(b[1] as nat);
    let t3 = t2 + seq!['.'] + dec(b[2] as nat);
    let t4 = t3 + seq!['.'] + dec(b[3] as nat);
    assert(split(t1, '.') == h.take(1)) by {
        lemma_dec_reads_back(b[0] as nat);
        lemma_split_piece(t1, '.');
        assert(seq![t1] =~= h.take(1));
    }
    assert(split(t2, '.') == h.take(2)) by {
        lemma_dec_reads_back(b[1] as nat);
        lemma_split_then_piece(t1, dec(b[1] as nat), '.');
        assert(h.take(1).push(dec(b[1] as nat)) =~= h.take(2));
    }
    assert(split(t3, '.') == h.take(3)) by {
        lemma_dec_reads_back(b[2] as nat);
        lemma_split_then_piece(t2, dec(b[2] as nat), '.');
        assert(h.take(2).push(dec(b[2] as nat)) =~= h.take(3));
    }
    assert(split(t4, '.') == h) by {
        lemma_dec_reads_back(b[3] as nat);
        lemma_split_then_piece(t3, dec(b[3] as nat), '.');
        assert(h.take(3).push(dec(b[3] as nat)) =~= h);
    }
}

/// Reading the text form of an address gives the address back.
pub proof fn law_ipv4_text_reads_back(b: Seq<u8>)
    requires
        b.len() == 4,
    ensures
        parse_ipv4(ipv4_text(b)) == Some(b),
{
    let h = seq![dec(b[0] as nat), dec(b[1] as nat), dec(b[2] as nat), dec(b[3] as nat)];
    lemma_ipv4_text_split(b);
    lemma_dec_byte_parses(b[0]);
    lemma_dec_byte_parses(b[1]);
    lemma_dec_byte_parses(b[2]);
    lemma_dec_byte_parses(b[3]);
    assert forall|i: int| 0 <= i < 4 implies (#[trigger] parse_bounded(h[i], 10, 255)) is Some by {}
    assert(seq![dec_byte(h[0]), dec_byte(h[1]), dec_byte(h[2]), dec_byte(h[3])] =~= b);
}

impl Ipv4Addr {
    pub fn new(a: u8, b: u8, c: u8, d: u8) -> (r: Self)
        ensures
            r@ == seq![a, b, c, d],
    {
        Ipv4Addr(a, b, c, d)
    }

    pub fn to_bytes(self) -> (r: [u8; 4])
        ensures
            r@ == self@,
    {
        let r = [self.0, self.1, self.2, self.3];
        assert(r@ =~= self@);
        r
    }

    /// The address whose bytes are `bytes`, which must be exactly four.
    pub fn from_bytes(bytes: &[u8]) -> (r: Result<Self, ParseIpv4Error>)
        ensures
            bytes@.len() == 4 <==> r is Ok,
            r matches Ok(a) ==> a@ == bytes@,
    {
        if bytes.len() != 4 {
            return Err(ParseIpv4Error);
        }
        let a = Ipv4Addr(bytes[0], bytes[1], bytes[2], bytes[3]);
        assert(a@ =~= bytes@);
        Ok(a)
    }

    /// The address whose bytes are `b[at..at + 4]`.
    pub fn read_at(b: &[u8], at: usize) -> (r: Self)
        requires
            at + 4 <= b@.len(),
        ensures
            r@ == b@.subrange(at as int, at + 4),
    {
        let r = Ipv4Addr(b[at], b[at + 1], b[at + 2], b[at + 3]);
        assert(r@ =~= b@.subrange(at as int, at + 4));
        r
    }

    /// Appends the four bytes of the address.
    pub fn write_to(self, out: &mut Vec<u8>)
        ensures
            final(out)@ == old(out)@ + self@,
    {
        out.push(self.0);
        out.push(self.1);
        out.push(self.2);
        out.push(self.3);
        assert(final(out)@ =~= old(out)@ + self@);
    }

    /// The address as a 32-bit number, first byte most significant.
    pub fn to_u32(self) -> (r: u32)
        ensures
            r == be_u32(self@),
            r == ipv4_u32(self),
    {
        (self.0 as u32) * 16777216 + (self.1 as u32) * 65536 + (self.2 as u32) * 256 + (
        self.3 as u32)
    }

    /// The address of a 32-bit number, most significant byte first.
    pub fn from_u32(x: u32) -> (r: Self)
        ensures
            r@ == u32_be(x),
            be_u32(r@) == x,
    {
        proof {
            lemma_u32_be_roundtrip(x);
        }
        Ipv4Addr((x / 16777216) as u8, ((x / 65536) % 256) as u8, ((x / 256) % 256) as u8, (x
            % 256) as u8)
    }

    /// Reads an IPv4 address written as four `.`-separated decimal bytes.
    pub fn parse_chars(s: &[char]) -> (r: Result<Self, ParseIpv4Error>)
        ensures
            match parse_ipv4(s@) {
                Some(b) => r matches Ok(a) && a@ == b,
                None => r is Err,
            },
    {
        let parts = split_chars(s, '.');
        assert(views(parts@).len() == parts@.len());
        let ghost ps = split(s@, '.');
        let mut bytes: Vec<u8> = Vec::new();
        let mut i: usize = 0;
        while i < parts.len()
            invariant
                i <= parts@.len(),
                views(parts@) == ps,
                ps == split(s@, '.'),
                bytes@.len() == i,
                forall|j: int| 0 <= j < i ==> (#[trigger] parse_bounded(ps[j], 10, 255)) is Some,
                forall|j: int| 0 <= j < i ==> bytes@[j] == dec_byte(#[trigger] ps[j]),
            decreases parts.len() - i,
        {
            assert(parts@[i as int]@ == ps[i as int]);
            match parse_uint(parts[i].as_slice(), 10, 255) {
                None => {
                    return Err(ParseIpv4Error);
                },
                Some(v) => {
                    bytes.push(v as u8);
                },
            }
            i = i + 1;
        }
        if bytes.len() != 4 {
            return Err(ParseIpv4Error);
        }
        let a = Ipv4Addr(bytes[0], bytes[1], bytes[2], bytes[3]);
        assert(a@ =~= seq![dec_byte(ps[0]), dec_byte(ps[1]), dec_byte(ps[2]), dec_byte(ps[3])]);
        Ok(a)
    }

    /// Reads an IPv4 address written as four `.`-separated decimal bytes.
    pub fn parse_str(s: &str) -> (r: Result<Self, ParseIpv4Error>)
        ensures
            match parse_ipv4(s@) {
                Some(b) => r matches Ok(a) && a@ == b,
                None => r is Err,
            },
    {
        let cs = str_chars(s);
        Self::parse_chars(cs.as_slice())
    }

    /// The text form: four decimal bytes separated by `.`.
    pub fn to_string(&self) -> (r: String)
        ensures
            r@ == ipv4_text(self@),
    {
        let mut s = String::new();
        push_dec(&mut s, self.0 as u64);
        push_char(&mut s, '.');
        push_dec(&mut s, self.1 as u64);
        push_char(&mut s, '.');
        push_dec(&mut s, self.2 as u64);
        push_char(&mut s, '.');
        push_dec(&mut s, self.3 as u64);
        assert(s@ =~= ipv4_text(self@));
        s
    }
}

impl From<Ipv4Addr> for u32 {
    fn from(addr: Ipv4Addr) -> (r: u32) {
        addr.to_u32()
    }
}

impl vstd::std_specs::convert::FromSpecImpl<Ipv4Addr> for u32 {
    open spec fn obeys_from_spec() -> bool {
        true
    }

    open spec fn from_spec(addr: Ipv4Addr) -> u32 {
        be_u32(addr@) as u32
    }
}

impl core::str::FromStr for Ipv4Addr {
    type Err = ParseIpv4Error;

    fn from_str(s: &str) -> (r: Result<Self, Self::Err>)
        ensures
            match parse_ipv4(s@) {
                Some(b) => r matches Ok(a) && a@ == b,
                None => r is Err,
            },
    {
        Ipv4Addr::parse_str(s)
    }
}

// --------------------------------------------------
// IPv6
// --------------------------------------------------
/// An IPv6 address, held as its sixteen bytes in network order.
#[derive(Debug, Clone, Copy, PartialEq, Eq, Hash)]
pub struct Ipv6Addr([u8; 16]);

/// An IPv6 address could not be read.
#[derive(Debug, Clone, Copy, PartialEq, Eq, Structural)]
pub struct ParseIpv6Error;

impl View for Ipv6Addr {
    type V = Seq<u8>;

    closed spec fn view(&self) -> Seq<u8> {
        self.0@
    }
}

/// An IPv6 address has sixteen bytes.
pub broadcast proof fn lemma_ipv6_view_len(a: Ipv6Addr)
    ensures
        #[trigger] a@.len() == 16,
{
}

/// The sixteen bytes of eight 16-bit groups, each group most significant byte first.
pub open spec fn groups_bytes(g: Seq<nat>) -> Seq<u8> {
    Seq::new(16, |i: int| if i % 2 == 0 { (g[i / 2] / 256) as u8 } else { (g[i / 2] % 256) as u8 })
}

/// The value that a hexadecimal group stands for (only meaningful when it parses).
pub open spec fn hex_group(part: Seq<char>) -> nat {
    parse_bounded(part, 16, 65535).unwrap()
}

/// The groups of a `:`-separated list of hexadecimal numbers, each at most `ffff`;
/// the empty text has no group.
pub open spec fn parse_groups_spec(s: Seq<char>) -> Option<Seq<nat>> {
    if s.len() == 0 {
        Some(Seq::empty())
    } else {
        let parts = split(s, ':');
        if forall|i: int| 0 <= i < parts.len() ==> (#[trigger] parse_bounded(parts[i], 16, 65535)) is Some {
            Some(parts.map_values(|p: Seq<char>| hex_group(p)))
        } else {
            None
        }
    }
}

/// Whether `::` starts at position `j` of `s`.
pub open spec fn dc_at(s: Seq<char>, j: int) -> bool {
    0 <= j < s.len() - 1 && s[j] == ':' && s[j + 1] == ':'
}

/// Where `::` first occurs in `s`.
pub open spec fn first_double_colon(s: Seq<char>) -> Option<int> {
    if exists|i: int| #[trigger] dc_at(s, i) {
        Some(choose|i: int| dc_at(s, i) && forall|j: int| 0 <= j < i ==> !#[trigger] dc_at(s, j))
    } else {
        None
    }
}

/// What reading `s` as an IPv6 address gives: eight `:`-separated hexadecimal groups,
/// or groups before and after a single `::` (at most eight in all), the groups that
/// `::` leaves out being zero.
pub open spec fn parse_ipv6(s: Seq<char>) -> Option<Seq<u8>> {
    match first_double_colon(s) {
        Some(i) => {
            let head = s.take(i);
            let tail = s.skip(i + 2);
            if first_double_colon(tail) is Some {
                None
            } else {
                match (parse_groups_spec(head), parse_groups_spec(tail)) {
                    (Some(h), Some(t)) => if h.len() + t.len() > 8 {
                        None
                    } else {
                        Some(groups_bytes(spread_groups(h, t)))
                    },
                    _ => None,
                }
            }
        },
        None => match parse_groups_spec(s) {
            Some(g) => if g.len() == 8 {
                Some(groups_bytes(g))
            } else {
                None
            },
            None => None,
        },
    }
}

/// The eight groups of an address written with `::`: the groups before it,
/// zero groups, then the groups after it.
pub open spec fn spread_groups(h: Seq<nat>, t: Seq<nat>) -> Seq<nat> {
    h + Seq::new((8 - h.len() - t.len()) as nat, |k: int| 0nat) + t
}

/// The text form of an IPv6 address: eight lower-case hexadecimal groups without
/// leading zeros, separated by `:`.
pub open spec fn ipv6_text(b: Seq<u8>) -> Seq<char> {
    ipv6_text_groups(b, 8)
}

/// The text of the first `n` groups of `b`.
pub open spec fn ipv6_text_groups(b: Seq<u8>, n: nat) -> Seq<char>
    decreases n,
{
    if n == 0 {
        Seq::empty()
    } else if n == 1 {
        hex((b[0] * 256 + b[1]) as nat)
    } else {
        ipv6_text_groups(b, (n - 1) as nat) + seq![':'] + hex((b[2 * (n - 1)] * 256 + b[2 * (n - 1) + 1]) as nat)
    }
}

/// Group `k` of the sixteen bytes `b`: bytes `2k` and `2k + 1`, most significant first.
pub open spec fn ipv6_group(b: Seq<u8>, k: int) -> nat {
    (b[2 * k] * 256 + b[2 * k + 1]) as nat
}

/// The text of the first `n` groups splits at `:` into their renderings, never holds
/// `::`, and ends with a digit.
proof fn lemma_ipv6_text_groups(b: Seq<u8>, n: nat)
    requires
        b.len() == 16,
        1 <= n <= 8,
    ensures
        split(ipv6_text_groups(b, n), ':') == Seq::new(n, |k: int| hex(ipv6_group(b, k))),
        forall|j: int| !#[trigger] dc_at(ipv6_text_groups(b, n), j),
        ipv6_text_groups(b, n).len() > 0,
        ipv6_text_groups(b, n).last() != ':',
    decreases n,
{
    let t = ipv6_text_groups(b, n);
    let h = hex(ipv6_group(b, n - 1));
    lemma_hex_reads_back(ipv6_group(b, n - 1));
    if n == 1 {
        assert(t == h);
        lemma_split_piece(h, ':');
        assert(seq![h] =~= Seq::new(n, |k: int| hex(ipv6_group(b, k))));
        assert forall|j: int| !#[trigger] dc_at(t, j) by {
            if dc_at(t, j) {
                assert(t[j] == h[j]);
            }
        }
    } else {
        let p = ipv6_text_groups(b, (n - 1) as nat);
        lemma_ipv6_text_groups(b, (n - 1) as nat);
        assert(t == p + seq![':'] + h);
        lemma_split_then_piece(p, h, ':');
        assert(split(p, ':').push(h) =~= Seq::new(n, |k: int| hex(ipv6_group(b, k))));
        assert forall|j: int| !#[trigger] dc_at(t, j) by {
            if dc_at(t, j) {
                if j < p.len() - 1 {
                    assert(t[j] == p[j] && t[j + 1] == p[j + 1]);
                    assert(dc_at(p, j));
                } else if j == p.len() - 1 {
                    assert(t[j] == p.last());
                } else if j == p.len() {
                    assert(t[j + 1] == h[0]);
                } else {
                    assert(t[j] == h[j - p.len() - 1]);
                }
            }
        }
        assert(t.last() == h.last());
    }
}

/// Reading the text form of an IPv6 address gives the address back.
pub proof fn law_ipv6_text_reads_back(b: Seq<u8>)
    requires
        b.len() == 16,
    ensures
        parse_ipv6(ipv6_text(b)) == Some(b),
{
    let t = ipv6_text(b);
    lemma_ipv6_text_groups(b, 8);
    assert(first_double_colon(t) is None);
    let parts = split(t, ':');
    let g = Seq::new(8, |k: int| ipv6_group(b, k));
    assert forall|i: int| 0 <= i < parts.len() implies (#[trigger] parse_bounded(parts[i], 16, 65535)) is Some
        && hex_group(parts[i]) == g[i] by {
        lemma_hex_reads_back(ipv6_group(b, i));
        assert(parts[i] == hex(ipv6_group(b, i)));
    }
    assert(parts.map_values(|p: Seq<char>| hex_group(p)) =~= g);
    assert(parse_groups_spec(t) == Some(g));
    assert forall|i: int| 0 <= i < 16 implies #[trigger] groups_bytes(g)[i] == b[i] by {
        let k = i / 2;
        let x = b[2 * k];
        let y = b[2 * k + 1];
        assert(g[k] == x * 256 + y);
        assert((x * 256 + y) / 256 == x && (x * 256 + y) % 256 == y) by (nonlinear_arith)
            requires
                0 <= x < 256,
                0 <= y < 256,
        ;
    }
    assert(groups_bytes(g) =~= b);
}

/// Reads a `:`-separated list of hexadecimal groups; the empty text has no group.
pub fn parse_groups(s: &[char]) -> (r: Result<Vec<u16>, ParseIpv6Error>)
    ensures
        match parse_groups_spec(s@) {
            Some(g) => r matches Ok(v) && v@.len() == g.len() && forall|i: int|
                0 <= i < g.len() ==> v@[i] as nat == #[trigger] g[i],
            None => r is Err,
        },
{
    if s.len() == 0 {
        return Ok(Vec::new());
    }
    let parts = split_chars(s, ':');
    assert(views(parts@).len() == parts@.len());
    let ghost ps = split(s@, ':');
    let mut groups: Vec<u16> = Vec::new();
    let mut i: usize = 0;
    while i < parts.len()
        invariant
            s@.len() > 0,
            i <= parts@.len(),
            views(parts@) == ps,
            ps.len() == parts@.len(),
            ps == split(s@, ':'),
            groups@.len() == i,
            forall|j: int| 0 <= j < i ==> (#[trigger] parse_bounded(ps[j], 16, 65535)) is Some,
            forall|j: int| 0 <= j < i ==> groups@[j] as nat == hex_group(#[trigger] ps[j]),
        decreases parts.len() - i,
    {
        assert(parts@[i as int]@ == ps[i as int]);
        match parse_uint(parts[i].as_slice(), 16, 65535) {
            None => {
                assert(!(parse_bounded(ps[i as int], 16, 65535) is Some));
                return Err(ParseIpv6Error);
            },
            Some(v) => {
                groups.push(v as u16);
            },
        }
        i = i + 1;
    }
    Ok(groups)
}

/// Where `::` first occurs in `s`, if it does.
fn find_double_colon(s: &[char]) -> (r: Option<usize>)
    ensures
        r matches Some(i) ==> dc_at(s@, i as int) && first_double_colon(s@) == Some(i as int),
        r is None ==> first_double_colon(s@) is None,
{
    let mut i: usize = 0;
    while s.len() > 0 && i < s.len() - 1
        invariant
            forall|j: int| 0 <= j < i ==> !#[trigger] dc_at(s@, j),
        decreases s.len() - i,
    {
        if s[i] == ':' && s[i + 1] == ':' {
            assert(dc_at(s@, i as int));
            let ghost k = choose|k: int| dc_at(s@, k) && forall|j: int| 0 <= j < k ==> !#[trigger] dc_at(s@, j);
            assert(k == i) by {
                if k < i {
                    assert(!dc_at(s@, k));
                } else if k > i {
                    assert(!dc_at(s@, i as int));
                }
            }
            return Some(i);
        }
        assert(!dc_at(s@, i as int));
        i = i + 1;
    }
    assert forall|j: int| !#[trigger] dc_at(s@, j) by {
        if 0 <= j < i {
        }
    }
    None
}

/// The eight groups of `h`, then zeros, then `t`.
fn fill_groups(h: &Vec<u16>, t: &Vec<u16>, Ghost(hs): Ghost<Seq<nat>>, Ghost(ts): Ghost<Seq<nat>>) -> (groups: Vec<u16>)
    requires
        h@.len() == hs.len(),
        t@.len() == ts.len(),
        h@.len() + t@.len() <= 8,
        forall|j: int| 0 <= j < hs.len() ==> h@[j] as nat == #[trigger] hs[j],
        forall|j: int| 0 <= j < ts.len() ==> t@[j] as nat == #[trigger] ts[j],
    ensures
        groups@.len() == 8,
        forall|j: int| 0 <= j < 8 ==> groups@[j] as nat == #[trigger] spread_groups(hs, ts)[j],
{
    let ghost all = spread_groups(hs, ts);
    let mut groups: Vec<u16> = Vec::new();
    let mut k: usize = 0;
    while k < 8
        invariant
            k <= 8,
            h@.len() == hs.len(),
            t@.len() == ts.len(),
            h@.len() + t@.len() <= 8,
            forall|j: int| 0 <= j < hs.len() ==> h@[j] as nat == #[trigger] hs[j],
            forall|j: int| 0 <= j < ts.len() ==> t@[j] as nat == #[trigger] ts[j],
            all == spread_groups(hs, ts),
            groups@.len() == k,
            forall|j: int| 0 <= j < k ==> groups@[j] as nat == #[trigger] all[j],
        decreases 8 - k,
    {
        let start = 8 - t.len();
        if k < h.len() {
            groups.push(h[k]);
        } else if k >= start {
            groups.push(t[k - start]);
        } else {
            groups.push(0);
        }
        k = k + 1;
    }
    groups
}

impl Ipv6Addr {
    #[allow(clippy::too_many_arguments)]
    pub fn new(a: u16, b: u16, c: u16, d: u16, e: u16, f: u16, g: u16, h: u16) -> (r: Self)
        ensures
            r@ == groups_bytes(seq![a as nat, b as nat, c as nat, d as nat, e as nat, f as nat, g as nat, h as nat]),
    {
        let r = Ipv6Addr(
            [
                (a / 256) as u8,
                (a % 256) as u8,
                (b / 256) as u8,
                (b % 256) as u8,
                (c / 256) as u8,
                (c % 256) as u8,
                (d / 256) as u8,
                (d % 256) as u8,
                (e / 256) as u8,
                (e % 256) as u8,
                (f / 256) as u8,
                (f % 256) as u8,
                (g / 256) as u8,
                (g % 256) as u8,
                (h / 256) as u8,
                (h % 256) as u8,
            ],
        );
        assert(r@ =~= groups_bytes(seq![a as nat, b as nat, c as nat, d as nat, e as nat, f as nat, g as nat, h as nat]));
        r
    }

    pub fn to_bytes(self) -> (r: [u8; 16])
        ensures
            r@ == self@,
    {
        self.0
    }

    /// The address whose bytes are `bytes`, which must be exactly sixteen.
    pub fn from_bytes(bytes: &[u8]) -> (r: Result<Self, ParseIpv6Error>)
        ensures
            bytes@.len() == 16 <==> r is Ok,
            r matches Ok(a) ==> a@ == bytes@,
    {
        if bytes.len() != 16 {
            return Err(ParseIpv6Error);
        }
        let mut arr = [0u8; 16];
        let mut i: usize = 0;
        while i < 16
            invariant
                i <= 16,
                bytes@.len() == 16,
                arr@.len() == 16,
                forall|j: int| 0 <= j < i ==> arr@[j] == bytes@[j],
            decreases 16 - i,
        {
            arr[i] = bytes[i];
            i = i + 1;
        }
        assert(arr@ =~= bytes@);
        Ok(Ipv6Addr(arr))
    }

    /// Reads an IPv6 address: eight `:`-separated hexadecimal groups, or groups
    /// before and after one `::` that stands for the missing zero groups.
    #[verifier::rlimit(40)]
    pub fn parse_chars(s: &[char]) -> (r: Result<Self, ParseIpv6Error>)
        ensures
            match parse_ipv6(s@) {
                Some(b) => r matches Ok(a) && a@ == b,
                None => r is Err,
            },
    {
        match find_double_colon(s) {
            Some(i) => {
                let n = s.len();
                assert(i + 2 <= n);
                let head = slice_take(s, i);
                let tail = slice_skip(s, i + 2);
                assert(first_double_colon(s@) == Some(i as int));
                if find_double_colon(tail).is_some() {
                    assert(first_double_colon(s@.skip(i + 2)) is Some);
                    assert(parse_ipv6(s@) is None);
                    return Err(ParseIpv6Error);
                }
                assert(first_double_colon(s@.skip(i + 2)) is None);
                Self::parse_compressed(head, tail)
            },
            None => {
                let g = parse_groups(s)?;
                if g.len() != 8 {
                    return Err(ParseIpv6Error);
                }
                let ghost gs = parse_groups_spec(s@).unwrap();
                Ok(Self::of_groups(&g, Ghost(gs)))
            },
        }
    }

    /// Reads the groups before and after `::` into an address.
    fn parse_compressed(head: &[char], tail: &[char]) -> (r: Result<Self, ParseIpv6Error>)
        ensures
            match (parse_groups_spec(head@), parse_groups_spec(tail@)) {
                (Some(h), Some(t)) => if h.len() + t.len() > 8 {
                    r is Err
                } else {
                    r matches Ok(a) && a@ == groups_bytes(spread_groups(h, t))
                },
                _ => r is Err,
            },
    {
        let h = parse_groups(head)?;
        let t = parse_groups(tail)?;
        if h.len() > 8 || t.len() > 8 - h.len() {
            return Err(ParseIpv6Error);
        }
        let ghost hs = parse_groups_spec(head@).unwrap();
        let ghost ts = parse_groups_spec(tail@).unwrap();
        let groups = fill_groups(&h, &t, Ghost(hs), Ghost(ts));
        Ok(Self::of_groups(&groups, Ghost(spread_groups(hs, ts))))
    }

    /// The address of eight groups.
    fn of_groups(g: &Vec<u16>, Ghost(gs): Ghost<Seq<nat>>) -> (r: Self)
        requires
            g@.len() == 8,
            gs.len() == 8,
            forall|j: int| 0 <= j < 8 ==> g@[j] as nat == #[trigger] gs[j],
        ensures
            r@ == groups_bytes(gs),
    {
        let mut arr = [0u8; 16];
        let mut i: usize = 0;
        while i < 8
            invariant
                i <= 8,
                g@.len() == 8,
                arr@.len() == 16,
                forall|j: int| 0 <= j < 8 ==> g@[j] as nat == #[trigger] gs[j],
                forall|j: int| 0 <= j < 2 * i ==> arr@[j] == #[trigger] groups_bytes(gs)[j],
            decreases 8 - i,
        {
            arr[2 * i] = (g[i] / 256) as u8;
            arr[2 * i + 1] = (g[i] % 256) as u8;
            assert(forall|j: int| 0 <= j < 2 * i + 2 ==> arr@[j] == #[trigger] groups_bytes(gs)[j]) by {
                assert forall|j: int| 0 <= j < 2 * i + 2 implies arr@[j] == #[trigger] groups_bytes(gs)[j] by {
                    if j >= 2 * i {
                        assert(j / 2 == i);
                    }
                }
            }
            i = i + 1;
        }
        assert(arr@ =~= groups_bytes(gs));
        Ipv6Addr(arr)
    }

    /// Reads an IPv6 address: eight `:`-separated hexadecimal groups, or groups
    /// before and after one `::` that stands for the missing zero groups.
    pub fn parse_str(s: &str) -> (r: Result<Self, ParseIpv6Error>)
        ensures
            match parse_ipv6(s@) {
                Some(b) => r matches Ok(a) && a@ == b,
                None => r is Err,
            },
    {
        let cs = str_chars(s);
        Self::parse_chars(cs.as_slice())
    }

    /// The text form: eight lower-case hexadecimal groups without leading zeros,
    /// separated by `:`.
    pub fn to_string(&self) -> (r: String)
        ensures
            r@ == ipv6_text(self@),
    {
        let mut s = String::new();
        let mut i: usize = 0;
        while i < 8
            invariant
                i <= 8,
                self@.len() == 16,
                self@ == self.0@,
                s@ == ipv6_text_groups(self@, i as nat),
            decreases 8 - i,
        {
            if i != 0 {
                push_char(&mut s, ':');
            }
            let group: u64 = (self.0[2 * i] as u64) * 256 + (self.0[2 * i + 1] as u64);
            push_hex(&mut s, group);
            i = i + 1;
        }
        s
    }
}

impl core::str::FromStr for Ipv6Addr {
    type Err = ParseIpv6Error;

    fn from_str(s: &str) -> (r: Result<Self, Self::Err>)
        ensures
            match parse_ipv6(s@) {
                Some(b) => r matches Ok(a) && a@ == b,
                None => r is Err,
            },
    {
        Ipv6Addr::parse_str(s)
    }
}

/// The first `n` elements of a slice.
pub fn slice_take(s: &[char], n: usize) -> (r: &[char])
    requires
        n <= s@.len(),
    ensures
        r@ == s@.take(n as int),
{
    vstd::slice::slice_subrange(s, 0, n)
}

/// A slice without its first `n` elements.
pub fn slice_skip(s: &[char], n: usize) -> (r: &[char])
    requires
        n <= s@.len(),
    ensures
        r@ == s@.skip(n as int),
{
    vstd::slice::slice_subrange(s, n, s.len())
}

} // verus!
