//! Big-endian octet sequences and the numbers they stand for.

use vstd::prelude::*;

verus! {

/// `256` raised to the power `n`.
pub open spec fn pow256(n: nat) -> nat
    decreases n,
{
    if n == 0 {
        1
    } else {
        256 * pow256((n - 1) as nat)
    }
}

/// The number that `s` stands for, most significant octet first.
pub open spec fn be_value(s: Seq<u8>) -> nat
    decreases s.len(),
{
    if s.len() == 0 {
        0
    } else {
        be_value(s.drop_last()) * 256 + s.last() as nat
    }
}

/// The low `n` octets of `v`, most significant first.
pub open spec fn be_bytes(v: nat, n: nat) -> Seq<u8>
    decreases n,
{
    if n == 0 {
        Seq::<u8>::empty()
    } else {
        be_bytes(v / 256, (n - 1) as nat).push((v % 256) as u8)
    }
}

/// The number that `s` stands for in two's complement.
pub open spec fn signed_value(s: Seq<u8>) -> int {
    if s.len() > 0 && s[0] >= 128 {
        be_value(s) - pow256(s.len())
    } else {
        be_value(s) as int
    }
}

/// The low `n` octets of `v` in two's complement.
pub open spec fn signed_bytes(v: int, n: nat) -> Seq<u8> {
    be_bytes((if v < 0 { v + pow256(n) } else { v }) as nat, n)
}

/// The powers that fit the machine integers used here.
pub proof fn lemma_pow256_values()
    ensures
        pow256(0) == 1,
        pow256(1) == 0x100,
        pow256(2) == 0x1_0000,
        pow256(3) == 0x100_0000,
        pow256(4) == 0x1_0000_0000,
        pow256(5) == 0x100_0000_0000,
        pow256(6) == 0x1_0000_0000_0000,
        pow256(7) == 0x100_0000_0000_0000,
        pow256(8) == 0x1_0000_0000_0000_0000,
{
    reveal_with_fuel(pow256, 9);
}

/// `pow256` never shrinks as its exponent grows.
pub proof fn lemma_pow256_monotonic(m: nat, n: nat)
    requires
        m <= n,
    ensures
        pow256(m) <= pow256(n),
    decreases n,
{
    if m < n {
        lemma_pow256_monotonic(m, (n - 1) as nat);
    }
}

/// `n` octets stand for a number below `256` to the power `n`.
pub proof fn lemma_be_value_bound(s: Seq<u8>)
    ensures
        be_value(s) < pow256(s.len()),
    decreases s.len(),
{
    if s.len() > 0 {
        lemma_be_value_bound(s.drop_last());
    }
}

/// `be_bytes` has as many octets as it was asked for.
pub proof fn lemma_be_bytes_len(v: nat, n: nat)
    ensures
        be_bytes(v, n).len() == n,
    decreases n,
{
    if n > 0 {
        lemma_be_bytes_len(v / 256, (n - 1) as nat);
    }
}

/// Reading back the octets of a number that fits in them gives that number.
pub proof fn lemma_be_round_trip(v: nat, n: nat)
    requires
        v < pow256(n),
    ensures
        be_value(be_bytes(v, n)) == v,
        be_bytes(v, n).len() == n,
    decreases n,
{
    lemma_be_bytes_len(v, n);
    if n > 0 {
        assert(v / 256 < pow256((n - 1) as nat));
        lemma_be_round_trip(v / 256, (n - 1) as nat);
        assert(be_bytes(v, n).drop_last() =~= be_bytes(v / 256, (n - 1) as nat));
    }
}

/// The first octet is the most significant digit.
pub proof fn lemma_be_value_first(s: Seq<u8>)
    requires
        s.len() > 0,
    ensures
        s[0] as nat * pow256((s.len() - 1) as nat) <= be_value(s),
        be_value(s) < (s[0] as nat + 1) * pow256((s.len() - 1) as nat),
    decreases s.len(),
{
    reveal_with_fuel(be_value, 2);
    if s.len() > 1 {
        lemma_be_value_first(s.drop_last());
        let p = pow256((s.len() - 2) as nat);
        let d = s[0] as nat;
        assert(s.drop_last()[0] == s[0]);
        assert(pow256((s.len() - 1) as nat) == 256 * p);
        assert(be_value(s) == be_value(s.drop_last()) * 256 + s.last() as nat);
        assert(d * (256 * p) == 256 * (d * p)) by (nonlinear_arith);
        assert((d + 1) * (256 * p) == 256 * ((d + 1) * p)) by (nonlinear_arith);
    } else {
        assert(s.drop_last() =~= Seq::<u8>::empty());
        assert(pow256(0) == 1);
        assert(be_value(s) == s[0] as nat);
        let d = s[0] as nat;
        let p = pow256((s.len() - 1) as nat);
        assert(d * p == d && (d + 1) * p == d + 1) by (nonlinear_arith)
            requires
                p == 1,
        ;
    }
}

/// Reading back the two's complement octets of a number that fits in them gives
/// that number.
pub proof fn lemma_signed_round_trip(v: int, n: nat)
    requires
        n > 0,
        -128 * pow256((n - 1) as nat) <= v < 128 * pow256((n - 1) as nat),
    ensures
        signed_value(signed_bytes(v, n)) == v,
        signed_bytes(v, n).len() == n,
{
    let p = pow256((n - 1) as nat);
    let u = (if v < 0 { v + pow256(n) } else { v }) as nat;
    assert(pow256(n) == 256 * p);
    lemma_be_round_trip(u, n);
    let s = be_bytes(u, n);
    lemma_be_value_first(s);
    let d = s[0] as nat;
    if v < 0 {
        assert(u >= 128 * p);
        assert(d >= 128) by (nonlinear_arith)
            requires
                u < (d + 1) * p,
                u >= 128 * p,
        ;
    } else {
        assert(u < 128 * p);
        assert(d < 128) by (nonlinear_arith)
            requires
                d * p <= u,
                u < 128 * p,
        ;
    }
}

/// Append the low `count` octets of `value` to `buffer`.
pub fn push_be(buffer: &mut Vec<u8>, value: u64, count: usize)
    ensures
        final(buffer)@ == old(buffer)@ + be_bytes(value as nat, count as nat),
    decreases count,
{
    if count == 0 {
        assert(buffer@ =~= buffer@ + be_bytes(value as nat, 0));
    } else {
        let ghost before = buffer@;
        push_be(buffer, value / 256, count - 1);
        buffer.push((value % 256) as u8);
        assert(buffer@ =~= before + be_bytes(value as nat, count as nat));
    }
}

/// The number that `count` octets of `data` stand for, from `start` on.
pub fn read_be(data: &[u8], start: usize, count: usize) -> (value: u64)
    requires
        count <= 8,
        start + count <= data.len(),
    ensures
        value == be_value(data@.subrange(start as int, start + count)),
        value < pow256(count as nat),
    decreases count,
{
    if count == 0 {
        0
    } else {
        let high: u64 = read_be(data, start, count - 1);
        proof {
            let s = data@.subrange(start as int, start + count);
            assert(s.drop_last() =~= data@.subrange(start as int, start + count - 1));
            lemma_be_value_bound(s);
            lemma_pow256_values();
            lemma_pow256_monotonic((count - 1) as nat, 7);
        }
        high * 256 + data[start + count - 1] as u64
    }
}

/// The number that `count` octets of `data` stand for in two's complement, from
/// `start` on.
pub fn read_signed(data: &[u8], start: usize, count: usize) -> (value: i64)
    requires
        0 < count <= 8,
        start + count <= data.len(),
    ensures
        value == signed_value(data@.subrange(start as int, start + count)),
{
    let unsigned: u64 = read_be(data, start, count);
    let wide: i128 = unsigned as i128;
    let ghost s = data@.subrange(start as int, start + count);
    proof {
        lemma_pow256_values();
        lemma_be_value_first(s);
        lemma_pow256_monotonic((count - 1) as nat, 7);
        let p = pow256((count - 1) as nat);
        let d = s[0] as nat;
        assert(pow256(count as nat) == 256 * p);
        if d >= 128 {
            assert(d * p >= 128 * p) by (nonlinear_arith)
                requires
                    d >= 128,
            ;
        } else {
            assert((d + 1) * p <= 128 * p) by (nonlinear_arith)
                requires
                    d < 128,
            ;
        }
    }
    if data[start] >= 128 {
        let span: i128 = span_of(count);
        (wide - span) as i64
    } else {
        wide as i64
    }
}

/// `256` raised to the power `count`.
fn span_of(count: usize) -> (span: i128)
    requires
        count <= 8,
    ensures
        span == pow256(count as nat),
{
    proof {
        lemma_pow256_values();
    }
    match count {
        0 => 1,
        1 => 0x100,
        2 => 0x1_0000,
        3 => 0x100_0000,
        4 => 0x1_0000_0000,
        5 => 0x100_0000_0000,
        6 => 0x1_0000_0000_0000,
        7 => 0x100_0000_0000_0000,
        _ => 0x1_0000_0000_0000_0000,
    }
}

/// Append the low `count` octets of `value` in two's complement to `buffer`.
pub fn push_signed(buffer: &mut Vec<u8>, value: i64, count: usize)
    requires
        0 < count <= 8,
        -128 * pow256((count - 1) as nat) <= value < 128 * pow256((count - 1) as nat),
    ensures
        final(buffer)@ == old(buffer)@ + signed_bytes(value as int, count as nat),
{
    if value < 0 {
        let span: i128 = span_of(count);
        proof {
            lemma_pow256_values();
            lemma_pow256_monotonic(count as nat, 8);
            assert(pow256(count as nat) == 256 * pow256((count - 1) as nat));
        }
        push_be(buffer, (value as i128 + span) as u64, count);
    } else {
        push_be(buffer, value as u64, count);
    }
}

/// Append all of `more` to `buffer`.
pub fn push_all(buffer: &mut Vec<u8>, more: &[u8])
    ensures
        final(buffer)@ == old(buffer)@ + more@,
{
    let ghost before = buffer@;
    buffer.extend_from_slice(more);
    assert(buffer@ =~= before + more@);
}

} // verus!
