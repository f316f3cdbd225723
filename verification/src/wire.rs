//! Little-endian byte encodings and a bounds-checked reader over them.

use vstd::arithmetic::power::pow;
use vstd::prelude::*;

verus! {

/// The `width` low-order bytes of `value`, least significant first.
pub open spec fn le_bytes(value: nat, width: nat) -> Seq<u8>
    decreases width,
{
    if width == 0 {
        Seq::empty()
    } else {
        seq![(value % 256) as u8] + le_bytes(value / 256, (width - 1) as nat)
    }
}

/// The number whose bytes are `bytes`, least significant first.
pub open spec fn le_value(bytes: Seq<u8>) -> nat
    decreases bytes.len(),
{
    if bytes.len() == 0 {
        0
    } else {
        bytes[0] as nat + 256 * le_value(bytes.drop_first())
    }
}

/// How many numbers `width` bytes can tell apart.
pub open spec fn byte_limit(width: nat) -> nat
    decreases width,
{
    if width == 0 {
        1
    } else {
        256 * byte_limit((width - 1) as nat)
    }
}

pub proof fn lemma_byte_limits()
    ensures
        byte_limit(1) == 0x100,
        byte_limit(2) == 0x1_0000,
        byte_limit(4) == 0x1_0000_0000,
        byte_limit(8) == 0x1_0000_0000_0000_0000,
{
    reveal_with_fuel(byte_limit, 9);
}

pub proof fn lemma_le_bytes_len(value: nat, width: nat)
    ensures
        le_bytes(value, width).len() == width,
    decreases width,
{
    if width > 0 {
        lemma_le_bytes_len(value / 256, (width - 1) as nat);
    }
}

/// Reading back what was written gives the same number.
pub proof fn lemma_le_value_of_le_bytes(value: nat, width: nat)
    requires
        value < byte_limit(width),
    ensures
        le_value(le_bytes(value, width)) == value,
        le_bytes(value, width).len() == width,
    decreases width,
{
    lemma_le_bytes_len(value, width);
    if width > 0 {
        let rest = le_bytes(value / 256, (width - 1) as nat);
        lemma_le_value_of_le_bytes(value / 256, (width - 1) as nat);
        assert(le_bytes(value, width).drop_first() =~= rest);
    }
}

/// Writing back what was read gives the same bytes.
pub proof fn lemma_le_bytes_of_le_value(bytes: Seq<u8>)
    ensures
        le_bytes(le_value(bytes), bytes.len()) == bytes,
        le_value(bytes) < byte_limit(bytes.len()),
    decreases bytes.len(),
{
    if bytes.len() > 0 {
        let rest = bytes.drop_first();
        lemma_le_bytes_of_le_value(rest);
        let value = le_value(bytes);
        assert(value % 256 == bytes[0] as nat);
        assert(value / 256 == le_value(rest));
        assert(seq![bytes[0]] + rest =~= bytes);
    }
}

fn put_le(out: &mut Vec<u8>, value: u64, width: usize)
    ensures
        final(out)@ == old(out)@ + le_bytes(value as nat, width as nat),
{
    let mut rest: u64 = value;
    let mut left: usize = width;
    assert(out@ =~= out@ + le_bytes(0, 0));
    let ghost start = out@;
    while left > 0
        invariant
            left <= width,
            out@ + le_bytes(rest as nat, left as nat) == start + le_bytes(
                value as nat,
                width as nat,
            ),
        decreases left,
    {
        let ghost before = out@;
        out.push((rest % 256) as u8);
        proof {
            let tail = le_bytes((rest / 256) as nat, (left - 1) as nat);
            assert(before + (seq![(rest % 256) as u8] + tail) =~= before.push((rest % 256) as u8)
                + tail);
        }
        rest = rest / 256;
        left = left - 1;
    }
    assert(out@ + le_bytes(rest as nat, 0) =~= out@);
}

/// The number stored in at most eight bytes.
pub fn get_le(bytes: &[u8]) -> (value: u64)
    requires
        bytes@.len() <= 8,
    ensures
        value == le_value(bytes@),
{
    let mut value: u64 = 0;
    let mut i: usize = bytes.len();
    let ghost total = bytes@.len();
    assert(bytes@.skip(total as int) =~= Seq::<u8>::empty());
    while i > 0
        invariant
            i <= bytes@.len(),
            total == bytes@.len(),
            total <= 8,
            value == le_value(bytes@.skip(i as int)),
        decreases i,
    {
        i = i - 1;
        proof {
            let tail = bytes@.skip(i + 1);
            assert(bytes@.skip(i as int).drop_first() =~= tail);
            lemma_le_bytes_of_le_value(bytes@.skip(i as int));
            lemma_byte_limit_grows(bytes@.skip(i as int).len(), 8);
            lemma_byte_limits();
        }
        value = bytes[i] as u64 + 256 * value;
    }
    assert(bytes@.skip(0) =~= bytes@);
    value
}

proof fn lemma_byte_limit_grows(low: nat, high: nat)
    requires
        low <= high,
    ensures
        byte_limit(low) <= byte_limit(high),
    decreases high,
{
    if low < high {
        lemma_byte_limit_grows(low, (high - 1) as nat);
    }
}

pub fn put_u8(out: &mut Vec<u8>, value: u8)
    ensures
        final(out)@ == old(out)@.push(value),
{
    out.push(value);
}

pub fn put_u16(out: &mut Vec<u8>, value: u16)
    ensures
        final(out)@ == old(out)@ + le_bytes(value as nat, 2),
{
    put_le(out, value as u64, 2);
}

pub fn put_u32(out: &mut Vec<u8>, value: u32)
    ensures
        final(out)@ == old(out)@ + le_bytes(value as nat, 4),
{
    put_le(out, value as u64, 4);
}

pub fn put_u64(out: &mut Vec<u8>, value: u64)
    ensures
        final(out)@ == old(out)@ + le_bytes(value as nat, 8),
{
    put_le(out, value, 8);
}

/// Appends all of `bytes`.
pub fn put_slice(out: &mut Vec<u8>, bytes: &[u8])
    ensures
        final(out)@ == old(out)@ + bytes@,
{
    out.extend_from_slice(bytes);
    assert(out@ =~= old(out)@ + bytes@);
}

/// The byte at `i` of a number is its digit of weight `256` to the power of `i`, so that
/// the least significant byte comes first.
pub proof fn law_least_significant_byte_comes_first(value: nat, width: nat, i: nat)
    requires
        i < width,
    ensures
        le_bytes(value, width).len() == width,
        le_bytes(value, width)[i as int] == (value as int / pow(256, i)) % 256,
    decreases width,
{
    lemma_le_bytes_len(value, width);
    vstd::arithmetic::power::lemma_pow0(256);
    if i > 0 {
        let less = (i - 1) as nat;
        law_least_significant_byte_comes_first(value / 256, (width - 1) as nat, less);
        vstd::arithmetic::power::lemma_pow_positive(256, less);
        reveal(pow);
        assert(pow(256, i) == 256 * pow(256, less));
        vstd::arithmetic::div_mod::lemma_div_denominator(value as int, 256, pow(256, less));
    }
}

/// A number is read as its first byte and `256` times what the others stand for.
pub proof fn law_first_byte_is_the_lowest(bytes: Seq<u8>)
    ensures
        bytes.len() > 0 ==> le_value(bytes) % 256 == bytes[0] && le_value(bytes) / 256 == le_value(
            bytes.subrange(1, bytes.len() as int),
        ),
        bytes.len() == 0 ==> le_value(bytes) == 0,
{
    if bytes.len() > 0 {
        assert(bytes.subrange(1, bytes.len() as int) =~= bytes.drop_first());
    }
}

} // verus!
