//! Fixed-width little-endian integer codec.
//!
//! The wire format of a transfer call stores its integers least significant
//! byte first, without length prefix or padding. This module gives that
//! encoding a mathematical definition (`le_bytes`, `le_value`) and the
//! executable routines that are proved against it.

use vstd::arithmetic::div_mod::lemma_div_denominator;
use vstd::arithmetic::div_mod::lemma_fundamental_div_mod;
use vstd::prelude::*;

verus! {

/// `256^exp`: the weight of the byte at position `exp` of a little-endian integer.
pub open spec fn pow256(exp: nat) -> nat
    decreases exp,
{
    if exp == 0 {
        1
    } else {
        256 * pow256((exp - 1) as nat)
    }
}

/// The byte at position `at` of `value`, counted from the least significant one.
pub open spec fn le_byte(value: nat, at: nat) -> u8 {
    ((value / pow256(at)) % 256) as u8
}

/// The first `width` bytes of `value`, least significant byte first.
pub open spec fn le_bytes(value: nat, width: nat) -> Seq<u8> {
    Seq::new(width, |i: int| le_byte(value, i as nat))
}

/// The number that `bytes` stands for when read least significant byte first.
pub open spec fn le_value(bytes: Seq<u8>) -> nat
    decreases bytes.len(),
{
    if bytes.len() == 0 {
        0
    } else {
        bytes[0] as nat + 256 * le_value(bytes.drop_first())
    }
}

/// Powers of 256 are positive.
pub proof fn lemma_pow256_positive(exp: nat)
    ensures
        pow256(exp) > 0,
    decreases exp,
{
    if exp > 0 {
        lemma_pow256_positive((exp - 1) as nat);
    }
}

/// The powers of 256 up to the eighth, as numbers.
pub proof fn lemma_pow256_values()
    ensures
        pow256(0) == 1,
        pow256(1) == 0x100,
        pow256(2) == 0x1_0000,
        pow256(3) == 0x100_0000,
        pow256(4) == 0x1_0000_0000,
        pow256(5) == 0x100_0000_0000,
        pow256(6) == 0x1_0000_0000_0000,
        pow256(7) == 0x100_0000_0000_0000,
        pow256(8) == 0x1_0000_0000_0000_0000,
{
    reveal_with_fuel(pow256, 10);
}

/// Shifting a number down by one byte moves every byte one position down.
pub proof fn lemma_le_byte_shift(value: nat, at: nat)
    ensures
        le_byte(value / 256, at) == le_byte(value, at + 1),
{
    lemma_pow256_positive(at);
    lemma_div_denominator(value as int, 256, pow256(at) as int);
    assert(pow256(at + 1) == 256 * pow256(at));
}

/// Dropping the lowest byte of an encoding gives the encoding of the number
/// shifted down by one byte.
pub proof fn lemma_le_bytes_drop_first(value: nat, width: nat)
    requires
        width > 0,
    ensures
        le_bytes(value, width).drop_first() == le_bytes(value / 256, (width - 1) as nat),
        le_bytes(value, width)[0] == (value % 256) as u8,
{
    let lhs = le_bytes(value, width).drop_first();
    let rhs = le_bytes(value / 256, (width - 1) as nat);
    assert forall|i: int| 0 <= i < width - 1 implies lhs[i] == rhs[i] by {
        lemma_le_byte_shift(value, i as nat);
    }
    assert(lhs =~= rhs);
    assert(pow256(0) == 1);
}

/// A sequence of `n` bytes stands for a number below `256^n`.
pub proof fn lemma_le_value_bound(bytes: Seq<u8>)
    ensures
        le_value(bytes) < pow256(bytes.len()),
    decreases bytes.len(),
{
    if bytes.len() > 0 {
        lemma_le_value_bound(bytes.drop_first());
        let rest = le_value(bytes.drop_first());
        let top = pow256((bytes.len() - 1) as nat);
        assert(256 * (rest + 1) <= 256 * top) by (nonlinear_arith)
            requires
                rest + 1 <= top,
        ;
    }
}

/// Decoding the `width`-byte encoding of `value` gives `value` modulo `256^width`;
/// a value that fits in `width` bytes comes back unchanged.
pub proof fn lemma_le_value_of_bytes(value: nat, width: nat)
    ensures
        le_value(le_bytes(value, width)) == value % pow256(width),
        value < pow256(width) ==> le_value(le_bytes(value, width)) == value,
    decreases width,
{
    lemma_pow256_positive(width);
    let enc = le_bytes(value, width);
    if width == 0 {
        assert(enc.len() == 0);
    } else {
        let lower = (width - 1) as nat;
        lemma_le_bytes_drop_first(value, width);
        lemma_le_value_of_bytes(value / 256, lower);
        lemma_pow256_positive(lower);
        let p = pow256(lower) as int;
        let q = (value / 256) as int;
        let v = value as int;
        // value = 256 * q + value % 256, and q = p * (q / p) + q % p.
        lemma_fundamental_div_mod(v, 256);
        lemma_fundamental_div_mod(q, p);
        let low = 256 * (q % p) + v % 256;
        assert(0 <= low < 256 * p) by (nonlinear_arith)
            requires
                0 <= q % p < p,
                0 <= v % 256 < 256,
                low == 256 * (q % p) + v % 256,
        ;
        assert(v == (256 * p) * (q / p) + low) by (nonlinear_arith)
            requires
                v == 256 * q + v % 256,
                q == p * (q / p) + q % p,
                low == 256 * (q % p) + v % 256,
        ;
        vstd::arithmetic::div_mod::lemma_fundamental_div_mod_converse(v, 256 * p, q / p, low);
        assert(enc[0] as nat == value % 256);
    }
    if value < pow256(width) {
        vstd::arithmetic::div_mod::lemma_small_mod(value, pow256(width));
    }
}

/// Encoding the number that `bytes` stands for, in as many bytes, gives `bytes` back.
pub proof fn lemma_le_bytes_of_value(bytes: Seq<u8>)
    ensures
        le_bytes(le_value(bytes), bytes.len()) == bytes,
    decreases bytes.len(),
{
    let width = bytes.len();
    let value = le_value(bytes);
    if width > 0 {
        let rest = le_value(bytes.drop_first());
        lemma_le_bytes_of_value(bytes.drop_first());
        lemma_le_bytes_drop_first(value, width);
        let b = bytes[0] as int;
        assert(value as int == 256 * (rest as int) + b);
        vstd::arithmetic::div_mod::lemma_fundamental_div_mod_converse(
            value as int,
            256,
            rest as int,
            b,
        );
        let enc = le_bytes(value, width);
        assert(enc.drop_first() == bytes.drop_first());
        assert forall|i: int| 0 <= i < width implies enc[i] == bytes[i] by {
            if i > 0 {
                assert(enc[i] == enc.drop_first()[i - 1]);
                assert(bytes[i] == bytes.drop_first()[i - 1]);
            }
        }
    }
    assert(le_bytes(value, width) =~= bytes);
}

/// Appends the `width` low bytes of `value` to `out`, least significant byte first.
pub fn push_le(out: &mut Vec<u8>, value: u64, width: usize)
    requires
        width <= 8,
    ensures
        final(out)@ == old(out)@ + le_bytes(value as nat, width as nat),
{
    let ghost before = out@;
    let mut rest: u64 = value;
    let mut k: usize = 0;
    assert(pow256(0) == 1);
    while k < width
        invariant
            k <= width <= 8,
            rest as nat == (value as nat) / pow256(k as nat),
            out@ == before + le_bytes(value as nat, k as nat),
        decreases width - k,
    {
        let byte: u8 = (rest % 256) as u8;
        proof {
            lemma_pow256_positive(k as nat);
            lemma_div_denominator(value as int, pow256(k as nat) as int, 256);
            assert(pow256((k + 1) as nat) == 256 * pow256(k as nat));
            assert(pow256(k as nat) * 256 == pow256((k + 1) as nat)) by (nonlinear_arith)
                requires
                    pow256((k + 1) as nat) == 256 * pow256(k as nat),
            ;
            assert(byte == le_byte(value as nat, k as nat));
            assert(le_bytes(value as nat, (k + 1) as nat) =~= le_bytes(
                value as nat,
                k as nat,
            ).push(byte));
        }
        out.push(byte);
        rest = rest / 256;
        k = k + 1;
    }
}

/// Appends `bytes` to `out` unchanged.
pub fn push_raw(out: &mut Vec<u8>, bytes: &[u8])
    ensures
        final(out)@ == old(out)@ + bytes@,
{
    let ghost before = out@;
    let mut k: usize = 0;
    while k < bytes.len()
        invariant
            k <= bytes.len(),
            out@ == before + bytes@.subrange(0, k as int),
        decreases bytes.len() - k,
    {
        out.push(bytes[k]);
        k = k + 1;
        assert(out@ =~= before + bytes@.subrange(0, k as int));
    }
    assert(bytes@.subrange(0, k as int) =~= bytes@);
}

/// Reads the `width` bytes of `data` that start at `at` as a little-endian number.
pub fn read_le(data: &[u8], at: usize, width: usize) -> (value: u64)
    requires
        width <= 8,
        at + width <= data.len(),
    ensures
        value as nat == le_value(data@.subrange(at as int, at + width)),
{
    let ghost end = at + width;
    let mut value: u64 = 0;
    let mut k: usize = width;
    while k > 0
        invariant
            k <= width <= 8,
            at + width <= data.len(),
            end == at + width,
            value as nat == le_value(data@.subrange(at + k, end)),
        decreases k,
    {
        k = k - 1;
        let byte: u8 = data[at + k];
        proof {
            let tail = data@.subrange(at + k + 1, end);
            let whole = data@.subrange(at + k, end);
            assert(whole.drop_first() =~= tail);
            assert(whole[0] == byte);
            lemma_le_value_bound(tail);
            lemma_le_value_bound(whole);
            lemma_pow256_values();
            assert(pow256(whole.len()) <= pow256(8)) by {
                lemma_pow256_monotonic(whole.len(), 8);
            }
        }
        value = value * 256 + byte as u64;
    }
    assert(data@.subrange(at + 0, end) =~= data@.subrange(at as int, at + width));
    value
}

/// A larger exponent gives a larger or equal power of 256.
pub proof fn lemma_pow256_monotonic(low: nat, high: nat)
    requires
        low <= high,
    ensures
        pow256(low) <= pow256(high),
    decreases high,
{
    if low < high {
        lemma_pow256_monotonic(low, (high - 1) as nat);
        lemma_pow256_positive((high - 1) as nat);
    }
}

/// Copies the 32 bytes of `data` that start at `at` into an array.
pub fn read_hash(data: &[u8], at: usize) -> (hash: [u8; 32])
    requires
        at + 32 <= data.len(),
    ensures
        hash@ == data@.subrange(at as int, at + 32),
{
    let mut hash: [u8; 32] = [0u8; 32];
    let mut k: usize = 0;
    while k < 32
        invariant
            k <= 32,
            at + 32 <= data.len(),
            forall|i: int| 0 <= i < k ==> hash@[i] == data@[at + i],
        decreases 32 - k,
    {
        hash[k] = data[at + k];
        k = k + 1;
    }
    assert(hash@ =~= data@.subrange(at as int, at + 32));
    hash
}

} // verus!
