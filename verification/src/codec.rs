//! Little-endian encoding of UDT amounts.
//!
//! A UDT cell stores its amount as a `u128` in the first 16 bytes of the
//! cell data, least significant byte first.

use vstd::prelude::*;

verus! {

/// The `u128` that the first `n` bytes of `s` denote, least significant
/// byte first.
pub open spec fn le_bytes_to_u128_rec(s: Seq<u8>, n: int) -> int
    decreases n,
{
    if n <= 0 {
        0
    } else {
        le_bytes_to_u128_rec(s, n - 1) + (s[n - 1] as int) * pow256(n - 1)
    }
}

/// 256 to the power `n`.
pub open spec fn pow256(n: int) -> int
    decreases n,
{
    if n <= 0 {
        1
    } else {
        256 * pow256(n - 1)
    }
}

/// The amount stored in the first 16 bytes of `s`, least significant byte
/// first.
pub open spec fn udt_amount_of(s: Seq<u8>) -> int {
    le_bytes_to_u128_rec(s, 16)
}

/// The 16 little-endian bytes of `v`.
pub open spec fn u128_le_bytes(v: u128) -> Seq<u8> {
    Seq::new(16, |i: int| ((v as int / pow256(i)) % 256) as u8)
}

proof fn lemma_pow256_pos(n: int)
    ensures
        pow256(n) >= 1,
    decreases n,
{
    if n > 0 {
        lemma_pow256_pos(n - 1);
    }
}

/// Reading back the first `n` little-endian bytes of `v` gives `v mod 256^n`.
proof fn lemma_le_bytes_of_u128(v: u128, n: int)
    requires
        0 <= n <= 16,
    ensures
        le_bytes_to_u128_rec(u128_le_bytes(v), n) == (v as int) % pow256(n),
    decreases n,
{
    if n > 0 {
        lemma_le_bytes_of_u128(v, n - 1);
        lemma_pow256_pos(n - 1);
        let p = pow256(n - 1);
        assert(u128_le_bytes(v)[n - 1] == ((v as int / p) % 256) as u8);
        vstd::arithmetic::div_mod::lemma_breakdown(v as int, p, 256);
    }
}

proof fn lemma_pow256_16_value()
    ensures
        pow256(16) == 0x100000000000000000000000000000000,
        pow256(15) == 0x1000000000000000000000000000000,
{
    assert(pow256(0) == 1);
    assert(pow256(1) == 0x100);
    assert(pow256(2) == 0x10000);
    assert(pow256(3) == 0x1000000);
    assert(pow256(4) == 0x100000000);
    assert(pow256(5) == 0x10000000000);
    assert(pow256(6) == 0x1000000000000);
    assert(pow256(7) == 0x100000000000000);
    assert(pow256(8) == 0x10000000000000000);
    assert(pow256(9) == 0x1000000000000000000);
    assert(pow256(10) == 0x100000000000000000000);
    assert(pow256(11) == 0x10000000000000000000000);
    assert(pow256(12) == 0x1000000000000000000000000);
    assert(pow256(13) == 0x100000000000000000000000000);
    assert(pow256(14) == 0x10000000000000000000000000000);
    assert(pow256(15) == 0x1000000000000000000000000000000);
    assert(pow256(16) == 0x100000000000000000000000000000000);
}

proof fn lemma_u128_lt_pow256_16(v: u128)
    ensures
        (v as int) < pow256(16),
{
    lemma_pow256_16_value();
}

proof fn lemma_le_rec_bound(s: Seq<u8>, n: int)
    requires
        n >= 0,
    ensures
        0 <= le_bytes_to_u128_rec(s, n) < pow256(n),
    decreases n,
{
    if n > 0 {
        lemma_le_rec_bound(s, n - 1);
        lemma_pow256_pos(n - 1);
        vstd::arithmetic::mul::lemma_mul_inequality(s[n - 1] as int, 255, pow256(n - 1));
        assert(pow256(n) == 256 * pow256(n - 1));
    }
}

/// A 16-byte amount fits in a `u128`.
pub proof fn lemma_udt_amount_bounds(s: Seq<u8>)
    ensures
        0 <= udt_amount_of(s) <= u128::MAX,
{
    lemma_le_rec_bound(s, 16);
    lemma_pow256_16_value();
}

/// Encoding then decoding a 16-byte little-endian amount is the identity.
pub proof fn lemma_udt_amount_round_trip(v: u128)
    ensures
        udt_amount_of(u128_le_bytes(v)) == v as int,
{
    lemma_le_bytes_of_u128(v, 16);
    lemma_u128_lt_pow256_16(v);
    vstd::arithmetic::div_mod::lemma_small_mod(v as nat, pow256(16) as nat);
}

/// The amount only reads the first 16 bytes.
proof fn lemma_le_rec_prefix(s1: Seq<u8>, s2: Seq<u8>, n: int)
    requires
        forall|j: int| 0 <= j < n ==> s1[j] == s2[j],
    ensures
        le_bytes_to_u128_rec(s1, n) == le_bytes_to_u128_rec(s2, n),
    decreases n,
{
    if n > 0 {
        lemma_le_rec_prefix(s1, s2, n - 1);
    }
}

/// A cell whose data starts with the 16 little-endian bytes of `v`
/// carries exactly the amount `v`, whatever follows them.
pub proof fn lemma_udt_amount_of_prefix(v: u128, rest: Seq<u8>)
    ensures
        udt_amount_of(u128_le_bytes(v) + rest) == v as int,
{
    lemma_le_rec_prefix(u128_le_bytes(v) + rest, u128_le_bytes(v), 16);
    lemma_udt_amount_round_trip(v);
}

/// Writes `v` as 16 little-endian bytes.
pub fn encode_udt_amount(v: u128) -> (r: Vec<u8>)
    ensures
        r@ == u128_le_bytes(v),
        r@.len() == 16,
{
    let mut out: Vec<u8> = Vec::new();
    let mut i: usize = 0;
    let mut rest: u128 = v;
    while i < 16
        invariant
            0 <= i <= 16,
            out@.len() == i,
            rest as int == (v as int) / pow256(i as int),
            forall|j: int| 0 <= j < i ==> out@[j] == u128_le_bytes(v)[j],
        decreases 16 - i,
    {
        proof {
            lemma_pow256_pos(i as int);
            vstd::arithmetic::div_mod::lemma_div_denominator(v as int, pow256(i as int), 256);
        }
        out.push((rest % 256) as u8);
        rest = rest / 256;
        i = i + 1;
    }
    proof {
        assert(out@ =~= u128_le_bytes(v));
    }
    out
}

/// Reads the amount from the first 16 bytes of `data`.
pub fn decode_udt_amount(data: &Vec<u8>) -> (r: u128)
    requires
        data@.len() >= 16,
    ensures
        r as int == udt_amount_of(data@),
{
    let mut i: usize = 0;
    let mut acc: u128 = 0;
    let mut scale: u128 = 1;
    while i < 16
        invariant
            0 <= i <= 16,
            data@.len() >= 16,
            acc as int == le_bytes_to_u128_rec(data@, i as int),
            i < 16 ==> scale as int == pow256(i as int),
            (acc as int) < pow256(i as int),
        decreases 16 - i,
    {
        proof {
            lemma_pow256_pos(i as int);
            lemma_pow256_16_value();
            lemma_pow256_mono(i as int + 1, 16);
            vstd::arithmetic::mul::lemma_mul_inequality(
                data@[i as int] as int,
                255,
                pow256(i as int),
            );
            assert(pow256(i as int + 1) == 256 * pow256(i as int));
        }
        acc = acc + (data[i] as u128) * scale;
        if i < 15 {
            proof {
                lemma_pow256_mono(i as int + 1, 15);
            }
            scale = scale * 256;
        }
        i = i + 1;
    }
    acc
}

proof fn lemma_pow256_mono(m: int, n: int)
    requires
        0 <= m <= n,
    ensures
        pow256(m) <= pow256(n),
    decreases n - m,
{
    if m < n {
        lemma_pow256_mono(m, n - 1);
        lemma_pow256_pos(n - 1);
    }
}

} // verus!
