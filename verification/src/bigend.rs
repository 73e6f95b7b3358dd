//! Numbers written in base 256, the most significant byte first.

use vstd::prelude::*;

verus! {

/// The number that the bytes write.
pub open spec fn be_value(bytes: Seq<u8>) -> nat
    decreases bytes.len(),
{
    if bytes.len() == 0 {
        0
    } else {
        be_value(bytes.drop_last()) * 256 + bytes.last() as nat
    }
}

/// 256 to the power of `n`.
pub open spec fn pow256(n: nat) -> nat
    decreases n,
{
    if n == 0 {
        1
    } else {
        256 * pow256((n - 1) as nat)
    }
}

/// The `len` bytes that write `n`, or the low `len` bytes of it where `n` needs
/// more.
pub open spec fn be_bytes(n: nat, len: nat) -> Seq<u8>
    decreases len,
{
    if len == 0 {
        Seq::empty()
    } else {
        be_bytes(n / 256, (len - 1) as nat).push((n % 256) as u8)
    }
}

/// No power of 256 is zero.
pub proof fn lemma_pow256_positive(n: nat)
    ensures
        pow256(n) > 0,
    decreases n,
{
    if n > 0 {
        lemma_pow256_positive((n - 1) as nat);
    }
}

/// The powers of 256 grow with the exponent.
pub proof fn lemma_pow256_monotonic(m: nat, n: nat)
    requires
        m <= n,
    ensures
        pow256(m) <= pow256(n),
    decreases n,
{
    if m < n {
        lemma_pow256_monotonic(m, (n - 1) as nat);
        lemma_pow256_positive((n - 1) as nat);
    }
}

/// 256^(m+n) is 256^m times 256^n.
pub proof fn lemma_pow256_split(m: nat, n: nat)
    ensures
        pow256(m + n) == pow256(m) * pow256(n),
    decreases n,
{
    if n == 0 {
        assert(pow256(m) * 1 == pow256(m));
    } else {
        lemma_pow256_split(m, (n - 1) as nat);
        let a = pow256(m);
        let b = pow256((n - 1) as nat);
        assert(256 * (a * b) == a * (256 * b)) by (nonlinear_arith);
    }
}

/// 256^16 is 2^128.
pub proof fn lemma_pow256_16()
    ensures
        pow256(16) == 0x1_0000_0000_0000_0000_0000_0000_0000_0000,
{
    reveal_with_fuel(pow256, 17);
}

/// A number written in `len` bytes has `len` bytes.
pub proof fn lemma_be_bytes_len(n: nat, len: nat)
    ensures
        be_bytes(n, len).len() == len,
    decreases len,
{
    if len > 0 {
        lemma_be_bytes_len(n / 256, (len - 1) as nat);
    }
}

/// Bytes write a number below 256 to the power of their count.
pub proof fn lemma_be_value_bound(bytes: Seq<u8>)
    ensures
        be_value(bytes) < pow256(bytes.len()),
    decreases bytes.len(),
{
    if bytes.len() > 0 {
        lemma_be_value_bound(bytes.drop_last());
    }
}

/// Writing the number that some bytes write gives those bytes back.
pub proof fn lemma_be_bytes_of_value(bytes: Seq<u8>)
    ensures
        be_bytes(be_value(bytes), bytes.len()) == bytes,
    decreases bytes.len(),
{
    if bytes.len() > 0 {
        lemma_be_bytes_of_value(bytes.drop_last());
    }
}

/// A number that fits in `len` bytes is the number that its bytes write.
pub proof fn lemma_be_value_of_bytes(n: nat, len: nat)
    requires
        n < pow256(len),
    ensures
        be_value(be_bytes(n, len)) == n,
    decreases len,
{
    if len > 0 {
        let head = be_bytes(n / 256, (len - 1) as nat);
        lemma_be_value_of_bytes(n / 256, (len - 1) as nat);
        assert(head.push((n % 256) as u8).drop_last() =~= head);
    }
}

/// Two runs of bytes of one length that write the same number are the same.
pub proof fn lemma_be_value_injective(a: Seq<u8>, b: Seq<u8>)
    requires
        a.len() == b.len(),
        be_value(a) == be_value(b),
    ensures
        a == b,
{
    lemma_be_bytes_of_value(a);
    lemma_be_bytes_of_value(b);
}

/// The number of a concatenation: the first part shifted left by the length
/// of the second, plus the second.
pub proof fn lemma_be_value_concat(a: Seq<u8>, b: Seq<u8>)
    ensures
        be_value(a + b) == be_value(a) * pow256(b.len()) + be_value(b),
    decreases b.len(),
{
    if b.len() == 0 {
        assert(a + b =~= a);
        assert(pow256(0) == 1);
    } else {
        let head = b.drop_last();
        lemma_be_value_concat(a, head);
        assert((a + b).drop_last() =~= a + head);
        let x = be_value(a);
        let p = pow256(head.len());
        assert((x * p + be_value(head)) * 256 == x * (256 * p) + be_value(head) * 256)
            by (nonlinear_arith);
    }
}

/// The two numbers that bytes write when cut at `at`: what stands before the
/// cut, and what stands after it.
pub open spec fn split_value(bytes: Seq<u8>, at: int) -> (nat, nat) {
    (be_value(bytes.subrange(0, at)), be_value(bytes.subrange(at, bytes.len() as int)))
}

/// Runs of bytes of one length that write the same two numbers around one
/// cut are the same.
pub proof fn lemma_split_value_injective(a: Seq<u8>, b: Seq<u8>, at: int)
    requires
        a.len() == b.len(),
        0 <= at <= a.len(),
        split_value(a, at) == split_value(b, at),
    ensures
        a == b,
{
    let n = a.len() as int;
    lemma_be_value_injective(a.subrange(0, at), b.subrange(0, at));
    lemma_be_value_injective(a.subrange(at, n), b.subrange(at, n));
    assert(a =~= a.subrange(0, at) + a.subrange(at, n));
    assert(b =~= b.subrange(0, at) + b.subrange(at, n));
}

/// The number that `bytes[from..to]` writes, for at most sixteen bytes.
pub fn be_u128(bytes: &[u8], from: usize, to: usize) -> (r: u128)
    requires
        from <= to <= bytes@.len(),
        to - from <= 16,
    ensures
        r == be_value(bytes@.subrange(from as int, to as int)),
{
    let mut acc: u128 = 0;
    let mut i: usize = from;
    while i < to
        invariant
            from <= i <= to <= bytes@.len(),
            to - from <= 16,
            acc == be_value(bytes@.subrange(from as int, i as int)),
        decreases to - i,
    {
        proof {
            let done = bytes@.subrange(from as int, i as int);
            let next = bytes@.subrange(from as int, i + 1);
            assert(next.drop_last() =~= done);
            lemma_be_value_bound(next);
            lemma_pow256_monotonic(next.len(), 16);
            lemma_pow256_16();
        }
        acc = acc * 256 + bytes[i] as u128;
        i = i + 1;
    }
    acc
}

/// The sixteen bytes that write `x`.
pub fn u128_be_bytes(x: u128) -> (r: [u8; 16])
    ensures
        r@ == be_bytes(x as nat, 16),
{
    let mut out: [u8; 16] = [0u8; 16];
    let mut rest: u128 = x;
    let mut i: usize = 16;
    while i > 0
        invariant
            i <= 16,
            be_bytes(x as nat, 16) == be_bytes(rest as nat, i as nat) + out@.subrange(i as int, 16),
        decreases i,
    {
        let ghost before = out@;
        i = i - 1;
        out[i] = (rest % 256) as u8;
        proof {
            let head = be_bytes(rest as nat / 256, i as nat);
            assert(head.push((rest % 256) as u8) + before.subrange(i + 1, 16) =~= head + out@.subrange(
                i as int,
                16,
            ));
        }
        rest = rest / 256;
    }
    out
}

} // verus!
