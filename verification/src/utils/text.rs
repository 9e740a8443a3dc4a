//! Characters and strings: decimal and hexadecimal rendering of numbers,
//! number parsing with the rules of Rust's `from_str_radix`, splitting on a
//! separator and on whitespace.
use vstd::prelude::*;

verus! {

// ------------------------------------------------------------------
// Rendering
// ------------------------------------------------------------------

/// The digit character for `d` (`0`-`9`, then lower-case `a`-`f`).
pub open spec fn digit_char(d: nat) -> char {
    if d < 10 {
        (48 + d) as char
    } else {
        (87 + d) as char
    }
}

/// Decimal rendering of `n`, without leading zeros.
pub open spec fn dec(n: nat) -> Seq<char>
    decreases n,
{
    if n < 10 {
        seq![digit_char(n)]
    } else {
        dec(n / 10).push(digit_char(n % 10))
    }
}

/// Lower-case hexadecimal rendering of `n`, without leading zeros.
pub open spec fn hex(n: nat) -> Seq<char>
    decreases n,
{
    if n < 16 {
        seq![digit_char(n)]
    } else {
        hex(n / 16).push(digit_char(n % 16))
    }
}

/// Lower-case hexadecimal rendering of `n` on exactly two digits.
pub open spec fn hex2(n: u8) -> Seq<char> {
    seq![digit_char((n / 16) as nat), digit_char((n % 16) as nat)]
}

/// Lower-case hexadecimal rendering of `n` on exactly four digits.
pub open spec fn hex4(n: u16) -> Seq<char> {
    seq![
        digit_char((n / 4096) as nat),
        digit_char(((n / 256) % 16) as nat),
        digit_char(((n / 16) % 16) as nat),
        digit_char((n % 16) as nat),
    ]
}

/// The concatenation of `parts`, with `sep` between consecutive ones.
pub open spec fn join(parts: Seq<Seq<char>>, sep: Seq<char>) -> Seq<char>
    decreases parts.len(),
{
    if parts.len() == 0 {
        Seq::empty()
    } else if parts.len() == 1 {
        parts[0]
    } else {
        join(parts.drop_last(), sep) + sep + parts.last()
    }
}

/// Appends one character to a string.
///
/// Trusted: calls `String::push`, which std documents as appending the
/// character to the end of the string.
#[verifier::external_body]
pub(crate) fn push_char(s: &mut String, c: char)
    ensures
        final(s)@ == old(s)@.push(c),
{
    s.push(c);
}

/// Appends a string slice to a string.
pub fn push_str(s: &mut String, t: &str)
    ensures
        final(s)@ == old(s)@ + t@,
{
    s.append(t);
}

/// Appends a sequence of characters to a string.
pub fn push_chars(s: &mut String, cs: &[char])
    ensures
        final(s)@ == old(s)@ + cs@,
{
    let ghost start = s@;
    let mut i: usize = 0;
    while i < cs.len()
        invariant
            i <= cs.len(),
            s@ == start + cs@.take(i as int),
        decreases cs.len() - i,
    {
        push_char(s, cs[i]);
        assert(cs@.take(i as int + 1) == cs@.take(i as int).push(cs@[i as int]));
        i = i + 1;
    }
    assert(cs@.take(cs.len() as int) == cs@);
}

/// A new string holding the characters of `t`.
pub fn string_of(t: &str) -> (s: String)
    ensures
        s@ == t@,
{
    String::from_str(t)
}

/// The digit character for `d`, which must be below 16.
pub fn digit(d: u64) -> (c: char)
    requires
        d < 16,
    ensures
        c == digit_char(d as nat),
{
    if d < 10 {
        let b: u8 = 48u8 + (d as u8);
        b as char
    } else {
        let b: u8 = 87u8 + (d as u8);
        b as char
    }
}

/// Appends the decimal rendering of `n`.
pub fn push_dec(s: &mut String, n: u64)
    ensures
        final(s)@ == old(s)@ + dec(n as nat),
    decreases n,
{
    if n >= 10 {
        push_dec(s, n / 10);
    }
    push_char(s, digit(n % 10));
}

/// The decimal rendering of a `usize`.
pub open spec fn dec_usize(n: usize) -> Seq<char> {
    dec(n as nat)
}

/// Appends the decimal rendering of a `usize`.
pub fn push_usize(s: &mut String, n: usize)
    ensures
        final(s)@ == old(s)@ + dec_usize(n),
{
    push_dec(s, n as u64);
}

/// Appends the lower-case hexadecimal rendering of `n`.
pub fn push_hex(s: &mut String, n: u64)
    ensures
        final(s)@ == old(s)@ + hex(n as nat),
    decreases n,
{
    if n >= 16 {
        push_hex(s, n / 16);
    }
    push_char(s, digit(n % 16));
}

/// Appends `n` as two lower-case hexadecimal digits.
pub fn push_hex2(s: &mut String, n: u8)
    ensures
        final(s)@ == old(s)@ + hex2(n),
{
    push_char(s, digit((n / 16) as u64));
    push_char(s, digit((n % 16) as u64));
}

/// Appends `n` as four lower-case hexadecimal digits.
pub fn push_hex4(s: &mut String, n: u16)
    ensures
        final(s)@ == old(s)@ + hex4(n),
{
    push_char(s, digit((n / 4096) as u64));
    push_char(s, digit(((n / 256) % 16) as u64));
    push_char(s, digit(((n / 16) % 16) as u64));
    push_char(s, digit((n % 16) as u64));
}

/// Appends the strings of `parts`, with `sep` between consecutive ones.
pub fn push_join(s: &mut String, parts: &Vec<String>, sep: &str)
    ensures
        final(s)@ == old(s)@ + join(parts@.map_values(|p: String| p@), sep@),
{
    let ghost start = s@;
    let ghost views = parts@.map_values(|p: String| p@);
    let mut i: usize = 0;
    while i < parts.len()
        invariant
            i <= parts.len(),
            views == parts@.map_values(|p: String| p@),
            s@ == start + join(views.take(i as int), sep@),
        decreases parts.len() - i,
    {
        assert(views.take(i as int + 1).drop_last() == views.take(i as int));
        if i > 0 {
            push_str(s, sep);
        } else {
            assert(views.take(0) == Seq::<Seq<char>>::empty());
        }
        push_str(s, parts[i].as_str());
        i = i + 1;
    }
    assert(views.take(parts.len() as int) == views);
}

/// The characters of a string slice, in order.
pub fn str_chars(s: &str) -> (v: Vec<char>)
    ensures
        v@ == s@,
{
    let mut v: Vec<char> = Vec::new();
    for c in it: s.chars()
        invariant
            v@ == it.seq().take(it.index() as int),
    {
        v.push(c);
    }
    v
}

/// Whether two character sequences are equal.
pub fn chars_eq(a: &[char], b: &[char]) -> (r: bool)
    ensures
        r == (a@ == b@),
{
    if a.len() != b.len() {
        return false;
    }
    let mut i: usize = 0;
    while i < a.len()
        invariant
            a.len() == b.len(),
            i <= a.len(),
            forall|j: int| 0 <= j < i ==> a@[j] == b@[j],
        decreases a.len() - i,
    {
        if a[i] != b[i] {
            return false;
        }
        i = i + 1;
    }
    assert(a@ =~= b@);
    true
}

/// Whether a character sequence spells the string slice `t`.
pub fn chars_eq_str(a: &[char], t: &str) -> (r: bool)
    ensures
        r == (a@ == t@),
{
    let tv = str_chars(t);
    chars_eq(a, tv.as_slice())
}

/// Whether two string slices hold the same characters.
pub fn str_eq(a: &str, b: &str) -> (r: bool)
    ensures
        r == (a@ == b@),
{
    let av = str_chars(a);
    chars_eq_str(av.as_slice(), b)
}

// ------------------------------------------------------------------
// Parsing numbers
// ------------------------------------------------------------------

/// The value of `c` as a digit in `radix` (at most 36), as `char::to_digit` gives it.
pub open spec fn char_digit(c: char, radix: nat) -> Option<nat> {
    let v = c as int;
    if 48 <= v <= 57 && v - 48 < radix {
        Some((v - 48) as nat)
    } else if 97 <= v <= 122 && v - 87 < radix {
        Some((v - 87) as nat)
    } else if 65 <= v <= 90 && v - 55 < radix {
        Some((v - 55) as nat)
    } else {
        None
    }
}

/// Whether every character of `s` is a digit in `radix`.
pub open spec fn all_digits(s: Seq<char>, radix: nat) -> bool {
    forall|i: int| 0 <= i < s.len() ==> (#[trigger] char_digit(s[i], radix)) is Some
}

/// The value of the digit string `s` in `radix`, most significant digit first.
pub open spec fn digits_value(s: Seq<char>, radix: nat) -> nat
    decreases s.len(),
{
    if s.len() == 0 {
        0
    } else {
        digits_value(s.drop_last(), radix) * radix + char_digit(s.last(), radix).unwrap()
    }
}

/// What `from_str_radix` reads from `s` for an unsigned integer type:
/// an optional leading `+`, then one or more digits in `radix`.
/// `None` is any parse error, before a bound is applied.
pub open spec fn parse_unsigned(s: Seq<char>, radix: nat) -> Option<nat> {
    let body = if s.len() > 0 && s[0] == '+' {
        s.drop_first()
    } else {
        s
    };
    if body.len() > 0 && all_digits(body, radix) {
        Some(digits_value(body, radix))
    } else {
        None
    }
}

/// What `from_str_radix` gives for an unsigned type whose largest value is `max`.
pub open spec fn parse_bounded(s: Seq<char>, radix: nat, max: nat) -> Option<nat> {
    match parse_unsigned(s, radix) {
        Some(v) => if v <= max {
            Some(v)
        } else {
            None
        },
        None => None,
    }
}

/// A digit string never loses value when a digit is appended.
proof fn lemma_digits_value_grows(s: Seq<char>, radix: nat, c: char)
    requires
        radix >= 1,
        char_digit(c, radix) is Some,
    ensures
        digits_value(s.push(c), radix) >= digits_value(s, radix),
        digits_value(s.push(c), radix) == digits_value(s, radix) * radix + char_digit(c, radix).unwrap(),
{
    assert(s.push(c).drop_last() == s);
    assert(digits_value(s, radix) * radix >= digits_value(s, radix)) by (nonlinear_arith)
        requires radix >= 1;
}

/// The digit value of a character, as `char::to_digit(radix)` gives it.
pub fn char_to_digit(c: char, radix: u32) -> (r: Option<u32>)
    requires
        2 <= radix <= 36,
    ensures
        r matches Some(d) ==> char_digit(c, radix as nat) == Some(d as nat),
        r is None ==> char_digit(c, radix as nat) is None,
{
    let v = c as u32;
    if 48 <= v && v <= 57 && v - 48 < radix {
        Some(v - 48)
    } else if 97 <= v && v <= 122 && v - 87 < radix {
        Some(v - 87)
    } else if 65 <= v && v <= 90 && v - 55 < radix {
        Some(v - 55)
    } else {
        None
    }
}

/// Parses an unsigned number of at most `max` in `radix`, by the rules of
/// `from_str_radix` for unsigned integer types.
pub fn parse_uint(s: &[char], radix: u32, max: u32) -> (r: Option<u32>)
    requires
        2 <= radix <= 16,
        max <= 65535,
    ensures
        r matches Some(v) ==> parse_bounded(s@, radix as nat, max as nat) == Some(v as nat),
        r is None ==> parse_bounded(s@, radix as nat, max as nat) is None,
{
    let start: usize = if s.len() > 0 && s[0] == '+' {
        1
    } else {
        0
    };
    let ghost body = if s@.len() > 0 && s@[0] == '+' {
        s@.drop_first()
    } else {
        s@
    };
    assert(body == s@.subrange(start as int, s@.len() as int));
    if start == s.len() {
        return None;
    }
    let mut acc: u32 = 0;
    let mut over = false;
    let mut i: usize = start;
    while i < s.len()
        invariant
            start <= i <= s.len(),
            2 <= radix <= 16,
            max <= 65535,
            body == s@.subrange(start as int, s@.len() as int),
            body == (if s@.len() > 0 && s@[0] == '+' { s@.drop_first() } else { s@ }),
            all_digits(s@.subrange(start as int, i as int), radix as nat),
            !over ==> acc as nat == digits_value(s@.subrange(start as int, i as int), radix as nat),
            !over ==> acc <= max,
            over ==> digits_value(s@.subrange(start as int, i as int), radix as nat) > max,
        decreases s.len() - i,
    {
        let ghost pre = s@.subrange(start as int, i as int);
        assert(s@.subrange(start as int, i + 1) == pre.push(s@[i as int]));
        match char_to_digit(s[i], radix) {
            None => {
                assert(!all_digits(body, radix as nat)) by {
                    assert(body[i - start] == s@[i as int]);
                    assert(char_digit(body[i - start], radix as nat) is None);
                }
                return None;
            },
            Some(d) => {
                proof {
                    lemma_digits_value_grows(pre, radix as nat, s@[i as int]);
                }
                if !over {
                    assert(acc * radix <= 65535 * 16) by (nonlinear_arith)
                        requires acc <= 65535, radix <= 16;
                    let next = acc * radix + d;
                    if next > max {
                        over = true;
                    } else {
                        acc = next;
                    }
                }
                i = i + 1;
            },
        }
    }
    assert(s@.subrange(start as int, s@.len() as int) == body);
    if over {
        None
    } else {
        Some(acc)
    }
}

// ------------------------------------------------------------------
// Splitting
// ------------------------------------------------------------------

/// The pieces of `s` between occurrences of `sep`, as `str::split` gives them
/// (always at least one piece; empty pieces kept).
pub open spec fn split(s: Seq<char>, sep: char) -> Seq<Seq<char>>
    decreases s.len(),
{
    if s.len() == 0 {
        seq![Seq::empty()]
    } else {
        let rest = split(s.drop_last(), sep);
        if s.last() == sep {
            rest.push(Seq::empty())
        } else {
            rest.update(rest.len() - 1, rest.last().push(s.last()))
        }
    }
}

proof fn lemma_split_nonempty(s: Seq<char>, sep: char)
    ensures
        split(s, sep).len() >= 1,
    decreases s.len(),
{
    if s.len() > 0 {
        lemma_split_nonempty(s.drop_last(), sep);
    }
}

/// A piece without the separator splits into itself.
pub proof fn lemma_split_piece(c: Seq<char>, sep: char)
    requires
        forall|k: int| 0 <= k < c.len() ==> c[k] != sep,
    ensures
        split(c, sep) == seq![c],
    decreases c.len(),
{
    if c.len() > 0 {
        lemma_split_piece(c.drop_last(), sep);
        assert(c.drop_last().push(c.last()) =~= c);
    } else {
        assert(c =~= Seq::<char>::empty());
    }
}

/// Splitting `a`, a separator, then a piece without separator gives the pieces of `a`
/// and then that piece.
pub proof fn lemma_split_then_piece(a: Seq<char>, c: Seq<char>, sep: char)
    requires
        forall|k: int| 0 <= k < c.len() ==> c[k] != sep,
    ensures
        split(a + seq![sep] + c, sep) == split(a, sep).push(c),
    decreases c.len(),
{
    let t = a + seq![sep] + c;
    if c.len() == 0 {
        assert(t =~= a.push(sep));
        assert(t.drop_last() =~= a);
        assert(c =~= Seq::<char>::empty());
    } else {
        assert(c.last() != sep);
        lemma_split_then_piece(a, c.drop_last(), sep);
        let t0 = a + seq![sep] + c.drop_last();
        assert(t.drop_last() =~= t0);
        assert(t.last() == c.last());
        lemma_split_nonempty(t0, sep);
        let r0 = split(t0, sep);
        assert(r0 == split(a, sep).push(c.drop_last()));
        assert(r0.update(r0.len() - 1, r0.last().push(c.last())) =~= split(a, sep).push(c.drop_last().push(c.last())));
        assert(c.drop_last().push(c.last()) =~= c);
    }
}

/// The digit character of a digit reads back as that digit.
pub proof fn lemma_digit_char_reads_back(d: nat, radix: nat)
    requires
        d < radix,
        radix <= 16,
    ensures
        char_digit(digit_char(d), radix) == Some(d),
{
}

/// The decimal rendering of a number reads back as that number.
pub proof fn lemma_dec_reads_back(n: nat)
    ensures
        all_digits(dec(n), 10),
        digits_value(dec(n), 10) == n,
        dec(n).len() > 0,
        dec(n)[0] != '+',
        forall|k: int| 0 <= k < dec(n).len() ==> #[trigger] dec(n)[k] != '.' && dec(n)[k] != ':',
    decreases n,
{
    lemma_digit_char_reads_back(n % 10, 10);
    if n >= 10 {
        lemma_dec_reads_back(n / 10);
        let d = dec(n);
        assert(d.drop_last() =~= dec(n / 10));
        assert(d[0] == dec(n / 10)[0]);
        assert forall|k: int| 0 <= k < d.len() implies (#[trigger] char_digit(d[k], 10)) is Some by {
            if k < d.len() - 1 {
                assert(d[k] == dec(n / 10)[k]);
            }
        }
        assert forall|k: int| 0 <= k < d.len() implies #[trigger] d[k] != '.' && d[k] != ':' by {
            if k < d.len() - 1 {
                assert(d[k] == dec(n / 10)[k]);
            }
        }
    } else {
        assert(digits_value(dec(n), 10) == digits_value(dec(n).drop_last(), 10) * 10 + n);
        assert(dec(n).drop_last() =~= Seq::<char>::empty());
    }
}

/// The hexadecimal rendering of a number reads back as that number.
pub proof fn lemma_hex_reads_back(n: nat)
    ensures
        all_digits(hex(n), 16),
        digits_value(hex(n), 16) == n,
        hex(n).len() > 0,
        hex(n)[0] != '+',
        forall|k: int| 0 <= k < hex(n).len() ==> #[trigger] hex(n)[k] != ':',
    decreases n,
{
    lemma_digit_char_reads_back(n % 16, 16);
    if n >= 16 {
        lemma_hex_reads_back(n / 16);
        let d = hex(n);
        assert(d.drop_last() =~= hex(n / 16));
        assert(d[0] == hex(n / 16)[0]);
        assert forall|k: int| 0 <= k < d.len() implies (#[trigger] char_digit(d[k], 16)) is Some by {
            if k < d.len() - 1 {
                assert(d[k] == hex(n / 16)[k]);
            }
        }
        assert forall|k: int| 0 <= k < d.len() implies #[trigger] d[k] != ':' by {
            if k < d.len() - 1 {
                assert(d[k] == hex(n / 16)[k]);
            }
        }
    } else {
        assert(digits_value(hex(n), 16) == digits_value(hex(n).drop_last(), 16) * 16 + n);
        assert(hex(n).drop_last() =~= Seq::<char>::empty());
    }
}

/// A number of at most 255 is read back from its decimal rendering by the rules of
/// `u8::from_str`.
pub proof fn lemma_dec_byte_parses(n: u8)
    ensures
        parse_bounded(dec(n as nat), 10, 255) == Some(n as nat),
{
    lemma_dec_reads_back(n as nat);
}

/// A byte is read back from its two hexadecimal digits by the rules of
/// `u8::from_str_radix(_, 16)`.
pub proof fn lemma_hex2_parses(n: u8)
    ensures
        parse_bounded(hex2(n), 16, 255) == Some(n as nat),
        forall|k: int| 0 <= k < hex2(n).len() ==> #[trigger] hex2(n)[k] != ':',
{
    let h = hex2(n);
    lemma_digit_char_reads_back((n / 16) as nat, 16);
    lemma_digit_char_reads_back((n % 16) as nat, 16);
    assert(h.drop_last() =~= seq![digit_char((n / 16) as nat)]);
    assert(h.drop_last().drop_last() =~= Seq::<char>::empty());
    assert(digits_value(h.drop_last().drop_last(), 16) == 0);
    assert(digits_value(h.drop_last(), 16) == (n / 16) as nat);
    assert(digits_value(h, 16) == (n / 16) * 16 + n % 16);
    assert(all_digits(h, 16));
}

/// The views of a vector of character vectors.
pub open spec fn views(v: Seq<Vec<char>>) -> Seq<Seq<char>> {
    v.map_values(|p: Vec<char>| p@)
}

/// Splits `s` at every `sep`, as `str::split` does.
pub fn split_chars(s: &[char], sep: char) -> (parts: Vec<Vec<char>>)
    ensures
        views(parts@) == split(s@, sep),
{
    let mut done: Vec<Vec<char>> = Vec::new();
    let mut cur: Vec<char> = Vec::new();
    let mut i: usize = 0;
    while i < s.len()
        invariant
            i <= s.len(),
            split(s@.take(i as int), sep) == views(done@).push(cur@),
        decreases s.len() - i,
    {
        let c = s[i];
        assert(s@.take(i as int + 1).drop_last() == s@.take(i as int));
        if c == sep {
            let ghost old_done = done@;
            let finished = cur;
            done.push(finished);
            cur = Vec::new();
            assert(views(done@) == views(old_done).push(finished@));
        } else {
            let ghost old_cur = cur@;
            cur.push(c);
            assert(views(done@).push(cur@) == views(done@).push(old_cur).update(
                views(done@).push(old_cur).len() - 1, old_cur.push(c)));
        }
        i = i + 1;
    }
    assert(s@.take(s.len() as int) == s@);
    let ghost old_done = done@;
    done.push(cur);
    assert(views(done@) == views(old_done).push(cur@));
    done
}

/// Whether `c` is white space, as `char::is_whitespace` defines it
/// (the Unicode `White_Space` property).
pub open spec fn is_ws(c: char) -> bool {
    let v = c as int;
    (9 <= v <= 13) || v == 32 || v == 0x85 || v == 0xa0 || v == 0x1680 || (0x2000 <= v <= 0x200a)
        || v == 0x2028 || v == 0x2029 || v == 0x202f || v == 0x205f || v == 0x3000
}

/// Scanning `s` left to right: the words completed so far and the word in progress.
pub open spec fn scan_words(s: Seq<char>) -> (Seq<Seq<char>>, Seq<char>)
    decreases s.len(),
{
    if s.len() == 0 {
        (Seq::empty(), Seq::empty())
    } else {
        let (done, cur) = scan_words(s.drop_last());
        if is_ws(s.last()) {
            if cur.len() > 0 {
                (done.push(cur), Seq::empty())
            } else {
                (done, Seq::empty())
            }
        } else {
            (done, cur.push(s.last()))
        }
    }
}

/// The words of `s`: its maximal runs of non-white-space characters, in order,
/// as `str::split_whitespace` gives them.
pub open spec fn words(s: Seq<char>) -> Seq<Seq<char>> {
    let (done, cur) = scan_words(s);
    if cur.len() > 0 {
        done.push(cur)
    } else {
        done
    }
}

/// Whether `c` is white space.
pub fn char_is_ws(c: char) -> (r: bool)
    ensures
        r == is_ws(c),
{
    let v = c as u32;
    (9 <= v && v <= 13) || v == 32 || v == 0x85 || v == 0xa0 || v == 0x1680 || (0x2000 <= v && v
        <= 0x200a) || v == 0x2028 || v == 0x2029 || v == 0x202f || v == 0x205f || v == 0x3000
}

/// The words of `s`, as `str::split_whitespace` gives them.
pub fn split_words(s: &[char]) -> (ws: Vec<Vec<char>>)
    ensures
        views(ws@) == words(s@),
{
    let mut done: Vec<Vec<char>> = Vec::new();
    let mut cur: Vec<char> = Vec::new();
    let mut i: usize = 0;
    while i < s.len()
        invariant
            i <= s.len(),
            scan_words(s@.take(i as int)) == (views(done@), cur@),
        decreases s.len() - i,
    {
        let c = s[i];
        assert(s@.take(i as int + 1).drop_last() == s@.take(i as int));
        if char_is_ws(c) {
            if cur.len() > 0 {
                let ghost old_done = done@;
                let finished = cur;
                done.push(finished);
                cur = Vec::new();
                assert(views(done@) == views(old_done).push(finished@));
            }
        } else {
            cur.push(c);
        }
        i = i + 1;
    }
    assert(s@.take(s.len() as int) == s@);
    if cur.len() > 0 {
        let ghost old_done = done@;
        done.push(cur);
        assert(views(done@) == views(old_done).push(cur@));
    }
    done
}

} // verus!
