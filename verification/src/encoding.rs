//! Big-endian integer encoding on the wire, as a mathematical model and as
//! executable code that appends to or reads from byte sequences.
use vstd::prelude::*;

verus! {

/// 256 raised to the power `n`.
pub open spec fn pow256(n: nat) -> nat
    decreases n,
{
    if n == 0 {
        1
    } else {
        256 * pow256((n - 1) as nat)
    }
}

/// The unsigned value of a big-endian byte sequence.
pub open spec fn be_value(s: Seq<u8>) -> nat
    decreases s.len(),
{
    if s.len() == 0 {
        0
    } else {
        be_value(s.drop_last()) * 256 + s.last() as nat
    }
}

/// The `n` low-order bytes of `v`, most significant first.
pub open spec fn be_bytes(v: nat, n: nat) -> Seq<u8>
    decreases n,
{
    if n == 0 {
        Seq::empty()
    } else {
        be_bytes(v / 256, (n - 1) as nat).push((v % 256) as u8)
    }
}

/// Two's-complement bit pattern of `v` in `n` bytes.
pub open spec fn to_unsigned(v: int, n: nat) -> nat {
    if v >= 0 {
        v as nat
    } else {
        (v + pow256(n)) as nat
    }
}

/// Signed value of an `n`-byte two's-complement bit pattern.
pub open spec fn from_unsigned(u: nat, n: nat) -> int {
    if u < pow256(n) / 2 {
        u as int
    } else {
        u - pow256(n)
    }
}

/// Wire form of an unsigned 8-bit value.
pub open spec fn u8_wire(v: u8) -> Seq<u8> {
    be_bytes(v as nat, 1)
}

/// Wire form of a signed 8-bit value.
pub open spec fn i8_wire(v: i8) -> Seq<u8> {
    be_bytes(to_unsigned(v as int, 1), 1)
}

/// Wire form of an unsigned 16-bit value.
pub open spec fn u16_wire(v: u16) -> Seq<u8> {
    be_bytes(v as nat, 2)
}

/// Wire form of a signed 16-bit value.
pub open spec fn i16_wire(v: i16) -> Seq<u8> {
    be_bytes(to_unsigned(v as int, 2), 2)
}

/// Wire form of an unsigned 32-bit value.
pub open spec fn u32_wire(v: u32) -> Seq<u8> {
    be_bytes(v as nat, 4)
}

/// Wire form of a signed 32-bit value.
pub open spec fn i32_wire(v: i32) -> Seq<u8> {
    be_bytes(to_unsigned(v as int, 4), 4)
}

/// Wire form of an unsigned 64-bit value.
pub open spec fn u64_wire(v: u64) -> Seq<u8> {
    be_bytes(v as nat, 8)
}

/// Wire form of a signed 64-bit value.
pub open spec fn i64_wire(v: i64) -> Seq<u8> {
    be_bytes(to_unsigned(v as int, 8), 8)
}

/// The concrete values of the powers of 256 used by the fixed-width encodings.
pub proof fn lemma_pow256_values()
    ensures
        pow256(0) == 1,
        pow256(1) == 256,
        pow256(2) == 65536,
        pow256(3) == 16777216,
        pow256(4) == 4294967296,
        pow256(8) == 18446744073709551616,
{
    reveal_with_fuel(pow256, 9);
}

/// `pow256` is increasing.
pub proof fn lemma_pow256_monotone(a: nat, b: nat)
    requires
        a <= b,
    ensures
        1 <= pow256(a) <= pow256(b),
    decreases b,
{
    if b > a {
        lemma_pow256_monotone(a, (b - 1) as nat);
    } else if a > 0 {
        lemma_pow256_monotone((a - 1) as nat, (a - 1) as nat);
    }
}

/// `be_bytes(v, n)` has exactly `n` bytes.
pub proof fn lemma_be_bytes_len(v: nat, n: nat)
    ensures
        be_bytes(v, n).len() == n,
    decreases n,
{
    if n > 0 {
        lemma_be_bytes_len(v / 256, (n - 1) as nat);
    }
}

/// A big-endian value fits in as many bytes as it was read from.
pub proof fn lemma_be_value_bound(s: Seq<u8>)
    ensures
        be_value(s) < pow256(s.len()),
    decreases s.len(),
{
    if s.len() > 0 {
        lemma_be_value_bound(s.drop_last());
        let b = be_value(s.drop_last());
        let p = pow256((s.len() - 1) as nat);
        let l = s.last() as nat;
        assert(b * 256 + l < 256 * p) by (nonlinear_arith)
            requires
                b < p,
                l < 256,
        ;
    }
}

/// Reading back the bytes of a value that fits gives the value.
pub proof fn lemma_be_value_of_bytes(v: nat, n: nat)
    requires
        v < pow256(n),
    ensures
        be_value(be_bytes(v, n)) == v,
    decreases n,
{
    if n > 0 {
        let p = pow256((n - 1) as nat);
        assert(v / 256 < p) by (nonlinear_arith)
            requires
                v < 256 * p,
        ;
        lemma_be_value_of_bytes(v / 256, (n - 1) as nat);
        let s = be_bytes(v / 256, (n - 1) as nat);
        assert(s.push((v % 256) as u8).drop_last() =~= s);
    } else {
        assert(v == 0);
    }
}

/// Writing the value of a byte sequence in as many bytes gives the sequence back.
pub proof fn lemma_be_bytes_of_value(s: Seq<u8>)
    ensures
        be_bytes(be_value(s), s.len()) == s,
    decreases s.len(),
{
    if s.len() > 0 {
        let v = be_value(s);
        let b = be_value(s.drop_last());
        let l = s.last() as nat;
        assert(v / 256 == b && v % 256 == l) by (nonlinear_arith)
            requires
                v == b * 256 + l,
                l < 256,
        ;
        lemma_be_bytes_of_value(s.drop_last());
        assert(s.drop_last().push(s.last()) =~= s);
    }
}

/// The two's-complement conversions undo each other.
pub proof fn lemma_signed_roundtrip(v: int, n: nat)
    requires
        n >= 1,
        -(pow256(n) / 2) <= v < pow256(n) / 2,
    ensures
        to_unsigned(v, n) < pow256(n),
        from_unsigned(to_unsigned(v, n), n) == v,
{
    lemma_pow256_monotone(1, n);
    assert(pow256(n) == 256 * pow256((n - 1) as nat));
}

/// The two's-complement conversions undo each other, starting from the bit pattern.
pub proof fn lemma_unsigned_roundtrip(u: nat, n: nat)
    requires
        n >= 1,
        u < pow256(n),
    ensures
        -(pow256(n) / 2) <= from_unsigned(u, n) < pow256(n) / 2,
        to_unsigned(from_unsigned(u, n), n) == u,
{
    lemma_pow256_monotone(1, n);
    assert(pow256(n) == 256 * pow256((n - 1) as nat));
}

/// Reading the big-endian form of a value from the front of any longer
/// sequence gives the value and leaves the rest.
pub proof fn lemma_be_prefix(v: nat, n: nat, rest: Seq<u8>)
    requires
        v < pow256(n),
    ensures
        (be_bytes(v, n) + rest).len() >= n,
        (be_bytes(v, n) + rest).take(n as int) == be_bytes(v, n),
        (be_bytes(v, n) + rest).skip(n as int) == rest,
        be_value((be_bytes(v, n) + rest).take(n as int)) == v,
{
    lemma_be_bytes_len(v, n);
    lemma_be_value_of_bytes(v, n);
    assert((be_bytes(v, n) + rest).take(n as int) =~= be_bytes(v, n));
    assert((be_bytes(v, n) + rest).skip(n as int) =~= rest);
}

/// Appends the `n` low-order bytes of `v` to `out`, most significant first.
pub fn push_be(out: &mut Vec<u8>, v: u64, n: usize)
    requires
        n <= 8,
        v < pow256(n as nat),
    ensures
        final(out)@ == old(out)@ + be_bytes(v as nat, n as nat),
    decreases n,
{
    if n > 0 {
        let ghost p = pow256((n - 1) as nat);
        assert(v / 256 < p) by (nonlinear_arith)
            requires
                v < 256 * p,
        ;
        push_be(out, v / 256, n - 1);
        let ghost mid = out@;
        out.push((v % 256) as u8);
        assert(out@ =~= old(out)@ + be_bytes(v as nat, n as nat));
    }
}

/// Reads the big-endian value of the `n` bytes of `s` that begin at `start`.
pub fn read_be(s: &[u8], start: usize, n: usize) -> (r: u64)
    requires
        n <= 8,
        start + n <= s@.len(),
    ensures
        r as nat == be_value(s@.subrange(start as int, start + n)),
{
    let len = s.len();
    let mut acc: u64 = 0;
    let mut i: usize = 0;
    while i < n
        invariant
            len == s@.len(),
            i <= n <= 8,
            start + n <= s@.len(),
            acc as nat == be_value(s@.subrange(start as int, start + i)),
            acc < pow256(i as nat),
        decreases n - i,
    {
        proof {
            lemma_pow256_monotone((i + 1) as nat, 8);
            lemma_pow256_values();
            assert(s@.subrange(start as int, start + i + 1).drop_last() =~= s@.subrange(
                start as int,
                start + i,
            ));
        }
        let b = s[start + i];
        proof {
            let p = pow256(i as nat);
            assert(acc * 256 + b < 256 * p) by (nonlinear_arith)
                requires
                    acc < p,
                    b < 256,
            ;
        }
        acc = acc * 256 + b as u64;
        i = i + 1;
    }
    acc
}

} // verus!
