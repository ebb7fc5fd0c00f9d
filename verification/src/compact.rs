//! SCALE byte layouts: little-endian integers and the compact integer
//! encoding, with the facts that make a compact prefix decodable.

use parity_scale_codec::{Compact, Encode};
use vstd::prelude::*;

verus! {

/// `256` to the power `n`.
pub open spec fn pow256(n: nat) -> nat
    decreases n,
{
    if n == 0 {
        1
    } else {
        256 * pow256((n - 1) as nat)
    }
}

/// The `n` low bytes of `v`, least significant first.
pub open spec fn le_bytes(v: nat, n: nat) -> Seq<u8>
    decreases n,
{
    if n == 0 {
        Seq::empty()
    } else {
        seq![(v % 256) as u8] + le_bytes(v / 256, (n - 1) as nat)
    }
}

/// The number of bytes that `v` needs: the least `n` with `v < 256^n`.
pub open spec fn byte_len(v: nat) -> nat
    decreases v,
{
    if v == 0 {
        0
    } else {
        1 + byte_len(v / 256)
    }
}

/// The SCALE compact encoding of the unsigned integer `v`.
///
/// The two low bits of the first byte give the mode: `00` one byte holding
/// `v << 2`; `01` two little-endian bytes holding `(v << 2) | 1`; `10` four
/// little-endian bytes holding `(v << 2) | 2`; `11` a byte `((n - 4) << 2) | 3`
/// followed by the `n` bytes that `v` needs, little-endian.
pub open spec fn compact_encoding(v: nat) -> Seq<u8> {
    if v < 0x40 {
        le_bytes(v * 4, 1)
    } else if v < 0x4000 {
        le_bytes(v * 4 + 1, 2)
    } else if v < 0x4000_0000 {
        le_bytes(v * 4 + 2, 4)
    } else {
        let n = byte_len(v);
        seq![((n - 4) * 4 + 3) as u8] + le_bytes(v, n)
    }
}

/// The unsigned integer whose little-endian bytes are `s`.
pub open spec fn le_value(s: Seq<u8>) -> nat
    decreases s.len(),
{
    if s.len() == 0 {
        0
    } else {
        s[0] as nat + 256 * le_value(s.drop_first())
    }
}

/// Reads the compact integer at the front of `s`: its value and the number of
/// bytes it takes.
pub open spec fn compact_decode(s: Seq<u8>) -> (nat, nat) {
    let b = s[0] as nat;
    if b % 4 == 0 {
        (b / 4, 1)
    } else if b % 4 == 1 {
        (le_value(s.take(2)) / 4, 2)
    } else if b % 4 == 2 {
        (le_value(s.take(4)) / 4, 4)
    } else {
        let n = b / 4 + 4;
        (le_value(s.subrange(1, (n + 1) as int)), n + 1)
    }
}

proof fn lemma_pow256_values()
    ensures
        pow256(1) == 0x100,
        pow256(2) == 0x1_0000,
        pow256(3) == 0x100_0000,
        pow256(4) == 0x1_0000_0000,
        pow256(16) == 0x1_0000_0000_0000_0000_0000_0000_0000_0000,
{
    reveal_with_fuel(pow256, 17);
}

proof fn lemma_le_bytes(v: nat, n: nat)
    ensures
        le_bytes(v, n).len() == n,
        n > 0 ==> le_bytes(v, n)[0] as nat == v % 256,
        v < pow256(n) ==> le_value(le_bytes(v, n)) == v,
    decreases n,
{
    if n > 0 {
        let m = (n - 1) as nat;
        lemma_le_bytes(v / 256, m);
        let s = le_bytes(v, n);
        assert(s.drop_first() =~= le_bytes(v / 256, m));
        if v < pow256(n) {
            assert(v / 256 < pow256(m)) by (nonlinear_arith)
                requires
                    v < 256 * pow256(m),
            ;
        }
    }
}

proof fn lemma_byte_len_fits(v: nat)
    ensures
        v < pow256(byte_len(v)),
    decreases v,
{
    if v > 0 {
        lemma_byte_len_fits(v / 256);
        let p = pow256(byte_len(v / 256));
        assert(v < 256 * p) by (nonlinear_arith)
            requires
                v / 256 < p,
        ;
    }
}

proof fn lemma_byte_len_upper(v: nat, k: nat)
    requires
        v < pow256(k),
    ensures
        byte_len(v) <= k,
    decreases k,
{
    if v > 0 {
        let m = (k - 1) as nat;
        assert(v / 256 < pow256(m)) by (nonlinear_arith)
            requires
                v < 256 * pow256(m),
        ;
        lemma_byte_len_upper(v / 256, m);
    }
}

proof fn lemma_byte_len_lower(v: nat, k: nat)
    requires
        v >= pow256(k),
    ensures
        byte_len(v) > k,
    decreases k,
{
    if k > 0 {
        let m = (k - 1) as nat;
        assert(v / 256 >= pow256(m)) by (nonlinear_arith)
            requires
                v >= 256 * pow256(m),
        ;
        lemma_byte_len_lower(v / 256, m);
    }
}

/// A compact integer below `2^128` is read back from the front of any byte
/// string that starts with its encoding.
pub proof fn lemma_compact_decode(v: nat, rest: Seq<u8>)
    requires
        v < 0x1_0000_0000_0000_0000_0000_0000_0000_0000,
    ensures
        compact_decode(compact_encoding(v) + rest) == (v, compact_encoding(v).len()),
{
    lemma_pow256_values();
    let c = compact_encoding(v);
    let s = c + rest;
    if v < 0x40 {
        lemma_le_bytes(v * 4, 1);
        assert(s[0] as nat == v * 4);
    } else if v < 0x4000 {
        lemma_le_bytes(v * 4 + 1, 2);
        assert(s.take(2) =~= c);
        broadcast use vstd::arithmetic::div_mod::lemma_mod_mod;
        assert(((v * 4 + 1) % (4 * 64)) % 4 == (v * 4 + 1) % 4);
        assert(s[0] as nat == (v * 4 + 1) % 256);
    } else if v < 0x4000_0000 {
        lemma_le_bytes(v * 4 + 2, 4);
        assert(s.take(4) =~= c);
        broadcast use vstd::arithmetic::div_mod::lemma_mod_mod;
        assert(((v * 4 + 2) % (4 * 64)) % 4 == (v * 4 + 2) % 4);
        assert(s[0] as nat == (v * 4 + 2) % 256);
    } else {
        let n = byte_len(v);
        lemma_byte_len_lower(v, 3);
        lemma_byte_len_upper(v, 16);
        lemma_byte_len_fits(v);
        lemma_le_bytes(v, n);
        assert(s[0] as nat == (n - 4) * 4 + 3);
        assert(s.subrange(1, (n + 1) as int) =~= le_bytes(v, n));
    }
}

/// Two compact integers below `2^128` that begin the same byte string are
/// equal, and so is what follows them.
pub proof fn lemma_compact_prefix_unique(x: nat, y: nat, s: Seq<u8>, t: Seq<u8>)
    requires
        x < 0x1_0000_0000_0000_0000_0000_0000_0000_0000,
        y < 0x1_0000_0000_0000_0000_0000_0000_0000_0000,
        compact_encoding(x) + s == compact_encoding(y) + t,
    ensures
        x == y,
        s == t,
{
    lemma_compact_decode(x, s);
    lemma_compact_decode(y, t);
    let cx = compact_encoding(x);
    assert((cx + s).skip(cx.len() as int) =~= s);
    assert((cx + t).skip(cx.len() as int) =~= t);
}

/// Appends the SCALE compact encoding of a `u32`.
///
/// Calls `<Compact<u32> as Encode>::encode_to` of parity-scale-codec; the
/// contract claims that it appends exactly `compact_encoding(v)` to `dest`.
#[verifier::external_body]
pub(crate) fn push_compact_u32(dest: &mut Vec<u8>, v: u32)
    ensures
        final(dest)@ == old(dest)@ + compact_encoding(v as nat),
{
    Compact(v).encode_to(dest)
}

/// Appends the SCALE compact encoding of a `u128`.
///
/// Calls `<Compact<u128> as Encode>::encode_to` of parity-scale-codec; the
/// contract claims that it appends exactly `compact_encoding(v)` to `dest`.
#[verifier::external_body]
pub(crate) fn push_compact_u128(dest: &mut Vec<u8>, v: u128)
    ensures
        final(dest)@ == old(dest)@ + compact_encoding(v as nat),
{
    Compact(v).encode_to(dest)
}

} // verus!
