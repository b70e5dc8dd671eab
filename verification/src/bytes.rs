//! Fixed-width integer encodings, stated over sequences of bytes.

use vstd::prelude::*;

verus! {

/// `256` raised to the power `width`.
pub open spec fn pow256(width: nat) -> nat
    decreases width,
{
    if width == 0 {
        1
    } else {
        256 * pow256((width - 1) as nat)
    }
}

/// The digits of `value` in base 256, most significant first, in `width` bytes.
/// Digits beyond `width` are dropped.
pub open spec fn be_bytes(value: nat, width: nat) -> Seq<u8>
    decreases width,
{
    if width == 0 {
        Seq::empty()
    } else {
        be_bytes(value / 256, (width - 1) as nat).push((value % 256) as u8)
    }
}

/// The digits of `value` in base 256, least significant first, in `width` bytes.
/// Digits beyond `width` are dropped.
pub open spec fn le_bytes(value: nat, width: nat) -> Seq<u8>
    decreases width,
{
    if width == 0 {
        Seq::empty()
    } else {
        seq![(value % 256) as u8] + le_bytes(value / 256, (width - 1) as nat)
    }
}

/// The number that `bytes` spell in base 256, least significant digit first.
pub open spec fn le_value(bytes: Seq<u8>) -> nat
    decreases bytes.len(),
{
    if bytes.len() == 0 {
        0
    } else {
        bytes[0] as nat + 256 * le_value(bytes.drop_first())
    }
}

/// A big-endian encoding has exactly the width asked for.
pub proof fn lemma_be_bytes_len(value: nat, width: nat)
    ensures
        be_bytes(value, width).len() == width,
    decreases width,
{
    if width > 0 {
        lemma_be_bytes_len(value / 256, (width - 1) as nat);
    }
}

/// A little-endian encoding has exactly the width asked for.
pub proof fn lemma_le_bytes_len(value: nat, width: nat)
    ensures
        le_bytes(value, width).len() == width,
    decreases width,
{
    if width > 0 {
        lemma_le_bytes_len(value / 256, (width - 1) as nat);
    }
}

/// What a sequence of bytes spells is below `256` to the power of its length.
pub proof fn lemma_le_value_bound(bytes: Seq<u8>)
    ensures
        le_value(bytes) < pow256(bytes.len()),
    decreases bytes.len(),
{
    if bytes.len() > 0 {
        lemma_le_value_bound(bytes.drop_first());
    }
}

/// Decoding the little-endian encoding of a number that fits the width gives
/// the number back.
pub proof fn lemma_le_value_of_bytes(value: nat, width: nat)
    requires
        value < pow256(width),
    ensures
        le_value(le_bytes(value, width)) == value,
    decreases width,
{
    if width > 0 {
        let rest = le_bytes(value / 256, (width - 1) as nat);
        let all = le_bytes(value, width);
        lemma_le_value_of_bytes(value / 256, (width - 1) as nat);
        assert(all.drop_first() =~= rest);
    }
}

/// Encoding what a sequence spells, in the sequence's own length, gives the
/// sequence back.
pub proof fn lemma_le_bytes_of_value(bytes: Seq<u8>)
    ensures
        le_bytes(le_value(bytes), bytes.len()) == bytes,
    decreases bytes.len(),
{
    if bytes.len() > 0 {
        let tail = bytes.drop_first();
        lemma_le_bytes_of_value(tail);
        let value = le_value(bytes);
        assert(value % 256 == bytes[0] as nat);
        assert(value / 256 == le_value(tail));
        assert(le_bytes(value, bytes.len()) =~= bytes);
    } else {
        assert(le_bytes(le_value(bytes), bytes.len()) =~= bytes);
    }
}

/// Two sequences of one length that spell the same number are the same.
pub proof fn lemma_le_value_injective(a: Seq<u8>, b: Seq<u8>)
    requires
        a.len() == b.len(),
        le_value(a) == le_value(b),
    ensures
        a == b,
{
    lemma_le_bytes_of_value(a);
    lemma_le_bytes_of_value(b);
}

/// `256` to the power 8 is the number of values of a `u64`, and to the power
/// 16 that of a `u128`.
pub proof fn lemma_pow256_widths()
    ensures
        pow256(8) == 0x1_0000_0000_0000_0000,
        pow256(16) == 0x1_0000_0000_0000_0000_0000_0000_0000_0000,
{
    reveal_with_fuel(pow256, 17);
}

/// The eight bytes of `value`, most significant first.
pub fn u64_to_be(value: u64) -> (out: [u8; 8])
    ensures
        out@ == be_bytes(value as nat, 8),
{
    let mut out: [u8; 8] = [0u8; 8];
    let mut rest: u64 = value;
    let mut i: usize = 8;
    while i > 0
        invariant
            i <= 8,
            out@.subrange(i as int, 8).len() == 8 - i,
            be_bytes(value as nat, 8) == be_bytes(rest as nat, i as nat) + out@.subrange(
                i as int,
                8,
            ),
        decreases i,
    {
        let digit: u8 = (rest % 256) as u8;
        proof {
            let before = be_bytes(rest as nat, i as nat);
            let shorter = be_bytes(rest as nat / 256, (i - 1) as nat);
            assert(before == shorter.push(digit));
            let updated = out@.update(i - 1, digit);
            assert(shorter.push(digit) + out@.subrange(i as int, 8) =~= shorter
                + updated.subrange(i - 1, 8)) by {
                lemma_be_bytes_len(rest as nat / 256, (i - 1) as nat);
            }
        }
        i = i - 1;
        out[i] = digit;
        rest = rest / 256;
    }
    proof {
        assert(be_bytes(rest as nat, 0) + out@.subrange(0, 8) =~= out@);
    }
    out
}

/// The eight bytes of `value`, least significant first.
pub fn u64_to_le(value: u64) -> (out: [u8; 8])
    ensures
        out@ == le_bytes(value as nat, 8),
{
    let mut out: [u8; 8] = [0u8; 8];
    let mut rest: u64 = value;
    let mut i: usize = 0;
    while i < 8
        invariant
            i <= 8,
            le_bytes(value as nat, 8) == out@.subrange(0, i as int) + le_bytes(
                rest as nat,
                (8 - i) as nat,
            ),
        decreases 8 - i,
    {
        let digit: u8 = (rest % 256) as u8;
        proof {
            let updated = out@.update(i as int, digit);
            assert(out@.subrange(0, i as int) + (seq![digit] + le_bytes(
                rest as nat / 256,
                (8 - i - 1) as nat,
            )) =~= updated.subrange(0, i + 1) + le_bytes(rest as nat / 256, (8 - i - 1) as nat));
        }
        out[i] = digit;
        rest = rest / 256;
        i = i + 1;
    }
    proof {
        assert(out@.subrange(0, 8) + le_bytes(rest as nat, 0) =~= out@);
    }
    out
}

/// The number that the eight bytes of `data` from `at` on spell, least
/// significant first.
pub fn u64_from_le(data: &[u8], at: usize) -> (value: u64)
    requires
        at + 8 <= data@.len(),
    ensures
        value == le_value(data@.subrange(at as int, at + 8)),
{
    let ghost field = data@.subrange(at as int, at + 8);
    let total: usize = data.len();
    let mut value: u64 = 0;
    let mut i: usize = 8;
    proof {
        assert(field.subrange(8, 8) =~= Seq::<u8>::empty());
    }
    while i > 0
        invariant
            i <= 8,
            at + 8 <= total,
            total == data@.len(),
            field == data@.subrange(at as int, at + 8),
            value == le_value(field.subrange(i as int, 8)),
        decreases i,
    {
        proof {
            let tail = field.subrange(i as int, 8);
            let longer = field.subrange(i - 1, 8);
            assert(longer.drop_first() =~= tail);
            lemma_le_value_bound(tail);
            lemma_pow256_small((8 - i) as nat);
        }
        i = i - 1;
        value = value * 256 + data[at + i] as u64;
    }
    proof {
        assert(field.subrange(0, 8) =~= field);
    }
    value
}

/// The number that the sixteen bytes of `data` from `at` on spell, least
/// significant first.
pub fn u128_from_le(data: &[u8], at: usize) -> (value: u128)
    requires
        at + 16 <= data@.len(),
    ensures
        value == le_value(data@.subrange(at as int, at + 16)),
{
    let ghost field = data@.subrange(at as int, at + 16);
    let total: usize = data.len();
    let mut value: u128 = 0;
    let mut i: usize = 16;
    proof {
        assert(field.subrange(16, 16) =~= Seq::<u8>::empty());
    }
    while i > 0
        invariant
            i <= 16,
            at + 16 <= total,
            total == data@.len(),
            field == data@.subrange(at as int, at + 16),
            value == le_value(field.subrange(i as int, 16)),
        decreases i,
    {
        proof {
            let tail = field.subrange(i as int, 16);
            let longer = field.subrange(i - 1, 16);
            assert(longer.drop_first() =~= tail);
            lemma_le_value_bound(tail);
            lemma_pow256_small((16 - i) as nat);
        }
        i = i - 1;
        value = value * 256 + data[at + i] as u128;
    }
    proof {
        assert(field.subrange(0, 16) =~= field);
    }
    value
}

/// The sixteen bytes of `value`, least significant first.
pub fn u128_to_le(value: u128) -> (out: [u8; 16])
    ensures
        out@ == le_bytes(value as nat, 16),
{
    let mut out: [u8; 16] = [0u8; 16];
    let mut rest: u128 = value;
    let mut i: usize = 0;
    while i < 16
        invariant
            i <= 16,
            le_bytes(value as nat, 16) == out@.subrange(0, i as int) + le_bytes(
                rest as nat,
                (16 - i) as nat,
            ),
        decreases 16 - i,
    {
        let digit: u8 = (rest % 256) as u8;
        proof {
            let updated = out@.update(i as int, digit);
            assert(out@.subrange(0, i as int) + (seq![digit] + le_bytes(
                rest as nat / 256,
                (16 - i - 1) as nat,
            )) =~= updated.subrange(0, i + 1) + le_bytes(rest as nat / 256, (16 - i - 1) as nat));
        }
        out[i] = digit;
        rest = rest / 256;
        i = i + 1;
    }
    proof {
        assert(out@.subrange(0, 16) + le_bytes(rest as nat, 0) =~= out@);
    }
    out
}

/// Appends the bytes of `part` to `out`.
pub fn append(out: &mut Vec<u8>, part: &[u8])
    ensures
        final(out)@ == old(out)@ + part@,
{
    let mut i: usize = 0;
    while i < part.len()
        invariant
            i <= part@.len(),
            out@ == old(out)@ + part@.subrange(0, i as int),
        decreases part@.len() - i,
    {
        out.push(part[i]);
        proof {
            assert(out@ =~= old(out)@ + part@.subrange(0, i + 1));
        }
        i = i + 1;
    }
    proof {
        assert(part@.subrange(0, i as int) =~= part@);
    }
}

/// Up to fifteen bytes spell a number that leaves room for one more digit in
/// a `u128`, and up to seven bytes one that leaves room in a `u64`.
proof fn lemma_pow256_small(width: nat)
    ensures
        width <= 15 ==> pow256(width) * 256 <= 0x1_0000_0000_0000_0000_0000_0000_0000_0000,
        width <= 7 ==> pow256(width) * 256 <= 0x1_0000_0000_0000_0000,
{
    reveal_with_fuel(pow256, 17);
}

} // verus!
