//! Little-endian encoding of unsigned integers.

use vstd::prelude::*;

verus! {

/// The number that `bytes` spells, least significant byte first.
pub open spec fn le_value(bytes: Seq<u8>) -> nat
    decreases bytes.len(),
{
    if bytes.len() == 0 {
        0
    } else {
        bytes[0] as nat + 256 * le_value(bytes.drop_first())
    }
}

/// The `width` low-order bytes of `value`, least significant byte first.
pub open spec fn le_bytes(value: nat, width: nat) -> Seq<u8>
    decreases width,
{
    if width == 0 {
        Seq::empty()
    } else {
        seq![(value % 256) as u8] + le_bytes(value / 256, (width - 1) as nat)
    }
}

/// `256` to the power `width`.
pub open spec fn radix_pow(width: nat) -> nat
    decreases width,
{
    if width == 0 {
        1
    } else {
        256 * radix_pow((width - 1) as nat)
    }
}

/// An encoding has exactly the width asked for.
pub proof fn lemma_le_bytes_len(value: nat, width: nat)
    ensures
        le_bytes(value, width).len() == width,
    decreases width,
{
    if width > 0 {
        lemma_le_bytes_len(value / 256, (width - 1) as nat);
    }
}

/// Decoding an encoding gives the value back, as far as the width holds it.
pub proof fn lemma_decode_encode(value: nat, width: nat)
    ensures
        le_value(le_bytes(value, width)) == value % radix_pow(width),
    decreases width,
{
    if width == 0 {
    } else {
        let rest = le_bytes(value / 256, (width - 1) as nat);
        let all = le_bytes(value, width);
        lemma_decode_encode(value / 256, (width - 1) as nat);
        assert(all.drop_first() =~= rest);
        assert(all[0] == (value % 256) as u8);
        let p = radix_pow((width - 1) as nat);
        lemma_radix_pow_positive((width - 1) as nat);
        assert(value % (256 * p) == value % 256 + 256 * ((value / 256) % p)) by {
            vstd::arithmetic::div_mod::lemma_breakdown(value as int, 256, p as int);
            vstd::arithmetic::div_mod::lemma_mod_breakdown(value as int, 256, p as int);
        }
    }
}

/// Powers of the radix are positive.
pub proof fn lemma_radix_pow_positive(width: nat)
    ensures
        radix_pow(width) > 0,
    decreases width,
{
    if width > 0 {
        lemma_radix_pow_positive((width - 1) as nat);
    }
}

/// A wider power is no smaller.
pub proof fn lemma_radix_pow_monotonic(narrow: nat, wide: nat)
    requires
        narrow <= wide,
    ensures
        radix_pow(narrow) <= radix_pow(wide),
    decreases wide,
{
    if narrow < wide {
        lemma_radix_pow_monotonic(narrow, (wide - 1) as nat);
    }
}

/// A decoded value is below the radix raised to the number of bytes.
pub proof fn lemma_le_value_bound(bytes: Seq<u8>)
    ensures
        le_value(bytes) < radix_pow(bytes.len()),
    decreases bytes.len(),
{
    if bytes.len() > 0 {
        lemma_le_value_bound(bytes.drop_first());
    }
}

/// Encoding a decoded value gives the bytes back.
pub proof fn lemma_encode_decode(bytes: Seq<u8>)
    ensures
        le_bytes(le_value(bytes), bytes.len()) == bytes,
    decreases bytes.len(),
{
    if bytes.len() > 0 {
        let rest = bytes.drop_first();
        lemma_encode_decode(rest);
        let v = le_value(bytes);
        assert(v % 256 == bytes[0] as nat);
        assert(v / 256 == le_value(rest));
        assert(le_bytes(v, bytes.len()) =~= bytes);
    }
}

/// Eight bytes hold every `u64`, and nothing more.
pub proof fn lemma_radix_pow_8()
    ensures
        radix_pow(8) == 0x1_0000_0000_0000_0000,
{
    reveal_with_fuel(radix_pow, 9);
}

/// Reads the `u64` that the eight bytes from `offset` on spell.
pub fn read_u64(bytes: &[u8], offset: usize) -> (value: u64)
    requires
        offset + 8 <= bytes.len(),
    ensures
        value == le_value(bytes@.subrange(offset as int, offset + 8)),
{
    let mut value: u64 = 0;
    let mut i: usize = 8;
    proof {
        lemma_radix_pow_8();
    }
    while i > 0
        invariant
            i <= 8,
            offset + 8 <= bytes.len(),
            radix_pow(8) == 0x1_0000_0000_0000_0000,
            value == le_value(bytes@.subrange(offset + i, offset + 8)),
            value < radix_pow((8 - i) as nat),
        decreases i,
    {
        let byte = bytes[offset + i - 1];
        proof {
            let longer = bytes@.subrange(offset + i - 1, offset + 8);
            assert(longer.drop_first() =~= bytes@.subrange(offset + i, offset + 8));
            lemma_radix_pow_monotonic((8 - i + 1) as nat, 8);
        }
        value = byte as u64 + 256 * value;
        i = i - 1;
    }
    value
}

/// Writes `value` into the eight bytes of `buffer` from `offset` on, and
/// leaves the others as they were.
pub fn write_u64<const N: usize>(buffer: &mut [u8; N], offset: usize, value: u64)
    requires
        offset + 8 <= N,
    ensures
        final(buffer)@ == old(buffer)@.subrange(0, offset as int) + le_bytes(value as nat, 8)
            + old(buffer)@.subrange(offset + 8, N as int),
{
    let mut rest: u64 = value;
    let mut i: usize = 0;
    while i < 8
        invariant
            i <= 8,
            offset + 8 <= N,
            buffer@.len() == N,
            buffer@.subrange(0, offset as int) == old(buffer)@.subrange(0, offset as int),
            buffer@.subrange(offset + 8, N as int) == old(buffer)@.subrange(offset + 8, N as int),
            le_bytes(value as nat, 8) == buffer@.subrange(offset as int, offset + i) + le_bytes(
                rest as nat,
                (8 - i) as nat,
            ),
        decreases 8 - i,
    {
        let ghost before = buffer@;
        buffer[offset + i] = (rest % 256) as u8;
        proof {
            assert(buffer@.subrange(0, offset as int) =~= before.subrange(0, offset as int));
            assert(buffer@.subrange(offset + 8, N as int) =~= before.subrange(
                offset + 8,
                N as int,
            ));
            assert(buffer@.subrange(offset as int, offset + i + 1) =~= before.subrange(
                offset as int,
                offset + i,
            ) + seq![(rest % 256) as u8]);
        }
        rest = rest / 256;
        i = i + 1;
    }
    proof {
        assert(buffer@ =~= buffer@.subrange(0, offset as int) + buffer@.subrange(
            offset as int,
            offset + 8,
        ) + buffer@.subrange(offset + 8, N as int));
    }
}

} // verus!
