//! The Internet checksum (RFC 1071), shared by IPv4 headers and ICMP messages.
use vstd::prelude::*;

verus! {

/// The `j`-th 16-bit big-endian word of `b`; a last odd byte is padded with a zero byte.
pub open spec fn word(b: Seq<u8>, j: int) -> nat {
    if 2 * j + 1 < b.len() {
        (b[2 * j] * 256 + b[2 * j + 1]) as nat
    } else {
        (b[2 * j] * 256) as nat
    }
}

/// The number of 16-bit words in `b`, counting a last odd byte as one.
pub open spec fn word_count(b: Seq<u8>) -> nat {
    ((b.len() + 1) / 2) as nat
}

/// The plain sum of the first `k` words of `b`.
pub open spec fn word_sum(b: Seq<u8>, k: nat) -> nat
    decreases k,
{
    if k == 0 {
        0
    } else {
        word_sum(b, (k - 1) as nat) + word(b, k - 1)
    }
}

/// Folds the carries of a sum back into its low 16 bits until none is left.
pub open spec fn fold16(s: nat) -> nat
    decreases s,
{
    if s < 65536 {
        s
    } else {
        fold16(s % 65536 + s / 65536)
    }
}

/// The Internet checksum of `b`: the complement of the folded sum of its words.
pub open spec fn internet_checksum(b: Seq<u8>) -> u16 {
    (65535 - fold16(word_sum(b, word_count(b)))) as u16
}

/// The folded sum is the one's complement value of the sum:
/// zero for zero, otherwise the representative in 1..=65535 of its class modulo 65535.
pub proof fn lemma_fold16(s: nat)
    ensures
        fold16(s) == (if s == 0 {
            0
        } else {
            ((s - 1) % 65535 + 1) as nat
        }),
    decreases s,
{
    if s >= 65536 {
        let q = s / 65536;
        let r = s % 65536;
        let t = r + q;
        assert(s == 65536 * q + r && q >= 1 && t < s && t >= 1) by (nonlinear_arith)
            requires
                s >= 65536,
                q == s / 65536,
                r == s % 65536,
                t == r + q,
        ;
        lemma_fold16(t);
        assert((s - 1) % 65535 == (t - 1) % 65535) by (nonlinear_arith)
            requires
                s == 65536 * q + r,
                t == r + q,
                t >= 1,
        {
            assert(s - 1 == (t - 1) + 65535 * q);
            vstd::arithmetic::div_mod::lemma_mod_multiples_vanish(q as int, (t - 1) as int, 65535);
        }
    }
}

/// Adding one word with an end-around carry keeps the one's complement value of the sum.
proof fn lemma_fold_step(t: nat, w: nat)
    requires
        w <= 65535,
    ensures
        ({
            let x = fold16(t) + w;
            fold16(t + w) == if x > 65535 {
                (x - 65535) as nat
            } else {
                x
            }
        }),
{
    lemma_fold16(t);
    lemma_fold16(t + w);
    let f = fold16(t);
    if t == 0 {
        if w > 0 {
            assert((w - 1) % 65535 == w - 1) by (nonlinear_arith)
                requires 1 <= w <= 65535;
        }
    } else if w > 0 {
        let x = f + w;
        assert(1 <= f <= 65535) by (nonlinear_arith)
            requires f == (t - 1) % 65535 + 1, t >= 1;
        // f - 1 and t - 1 agree modulo 65535, hence so do x - 1 and t + w - 1
        assert((t + w - 1) % 65535 == (x - 1) % 65535) by (nonlinear_arith)
            requires
                f == (t - 1) % 65535 + 1,
                x == f + w,
                t >= 1,
        {
            let k = (t - 1) / 65535;
            assert(t - 1 == 65535 * k + (f - 1));
            assert(t + w - 1 == 65535 * k + (x - 1));
            vstd::arithmetic::div_mod::lemma_mod_multiples_vanish(k as int, (x - 1) as int, 65535);
        }
        if x > 65535 {
            assert((x - 1) % 65535 == x - 65536) by (nonlinear_arith)
                requires 65536 <= x <= 131070;
        } else {
            assert((x - 1) % 65535 == x - 1) by (nonlinear_arith)
                requires 1 <= x <= 65535;
        }
    }
}

/// The Internet checksum of `bytes` (RFC 1071).
pub fn checksum(bytes: &[u8]) -> (r: u16)
    ensures
        r == internet_checksum(bytes@),
{
    let ghost b = bytes@;
    let n = bytes.len();
    let count = n / 2 + n % 2;
    assert(count == word_count(b));
    let mut sum: u32 = 0;
    let mut k: usize = 0;
    while k < count
        invariant
            n == bytes@.len(),
            b == bytes@,
            count == word_count(b),
            k <= count,
            sum <= 65535,
            sum == fold16(word_sum(b, k as nat)),
        decreases count - k,
    {
        let i = 2 * k;
        let w: u32 = if i + 1 < n {
            (bytes[i] as u32) * 256 + (bytes[i + 1] as u32)
        } else {
            (bytes[i] as u32) * 256
        };
        assert(w == word(b, k as int));
        proof {
            lemma_fold_step(word_sum(b, k as nat), w as nat);
            lemma_fold16(word_sum(b, k as nat));
        }
        sum = sum + w;
        if sum > 65535 {
            sum = sum - 65535;
        }
        k = k + 1;
    }
    (65535 - sum) as u16
}

} // verus!
