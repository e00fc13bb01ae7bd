//! Little-endian byte strings and the numbers they stand for.
//!
//! A byte string read least significant byte first stands for the number
//! `b[0] + 256 * b[1] + 256^2 * b[2] + ...`. The functions here write a
//! `u64` as eight such bytes and read it back, and the lemmas show that the
//! two directions undo each other.

use vstd::arithmetic::div_mod::lemma_div_denominator;
use vstd::prelude::*;

verus! {

broadcast use vstd::slice::group_slice_axioms;

/// `256` to the power `n`.
pub open spec fn pow256(n: nat) -> nat
    decreases n,
{
    if n == 0 {
        1
    } else {
        256 * pow256((n - 1) as nat)
    }
}

/// The number that `bytes` stands for, least significant byte first.
pub open spec fn le_value(bytes: Seq<u8>) -> nat
    decreases bytes.len(),
{
    if bytes.len() == 0 {
        0
    } else {
        bytes[0] as nat + 256 * le_value(bytes.drop_first())
    }
}

/// The `width` low-order base-256 digits of `value`, least significant first.
pub open spec fn le_bytes(value: nat, width: nat) -> Seq<u8>
    decreases width,
{
    if width == 0 {
        Seq::empty()
    } else {
        seq![(value % 256) as u8] + le_bytes(value / 256, (width - 1) as nat)
    }
}

/// Eight bytes hold exactly the range of a `u64`.
pub proof fn lemma_pow256_of_eight()
    ensures
        pow256(8) == u64::MAX + 1,
{
    assert(pow256(0) == 1);
    assert(pow256(1) == 0x100);
    assert(pow256(2) == 0x1_0000);
    assert(pow256(3) == 0x100_0000);
    assert(pow256(4) == 0x1_0000_0000);
    assert(pow256(5) == 0x100_0000_0000);
    assert(pow256(6) == 0x1_0000_0000_0000);
    assert(pow256(7) == 0x100_0000_0000_0000);
    assert(pow256(8) == 0x1_0000_0000_0000_0000);
}

/// `le_bytes` yields as many bytes as it is asked for.
pub proof fn lemma_le_bytes_len(value: nat, width: nat)
    ensures
        le_bytes(value, width).len() == width,
    decreases width,
{
    if width > 0 {
        lemma_le_bytes_len(value / 256, (width - 1) as nat);
    }
}

/// Byte `i` of the digits of `value` is the base-256 digit of weight
/// `256^i`.
pub proof fn lemma_le_bytes_index(value: nat, width: nat, i: nat)
    requires
        i < width,
    ensures
        le_bytes(value, width).len() == width,
        le_bytes(value, width)[i as int] == (value / pow256(i)) % 256,
    decreases width,
{
    lemma_le_bytes_len(value, width);
    lemma_le_bytes_len(value / 256, (width - 1) as nat);
    if i > 0 {
        let lower = pow256((i - 1) as nat);
        lemma_le_bytes_index(value / 256, (width - 1) as nat, (i - 1) as nat);
        lemma_pow256_increases(0, (i - 1) as nat);
        lemma_div_denominator(value as int, 256, lower as int);
    } else {
        let unit = pow256(0);
        assert(value / unit == value) by (nonlinear_arith)
            requires
                unit == 1,
        ;
    }
}

/// A byte string of length `n` stands for a number below `256^n`.
pub proof fn lemma_le_value_bound(bytes: Seq<u8>)
    ensures
        le_value(bytes) < pow256(bytes.len()),
    decreases bytes.len(),
{
    if bytes.len() > 0 {
        lemma_le_value_bound(bytes.drop_first());
    }
}

/// Reading back the digits of a number that fits in `width` bytes gives the
/// number.
pub proof fn lemma_le_value_of_le_bytes(value: nat, width: nat)
    requires
        value < pow256(width),
    ensures
        le_value(le_bytes(value, width)) == value,
    decreases width,
{
    if width > 0 {
        let rest = le_bytes(value / 256, (width - 1) as nat);
        lemma_le_value_of_le_bytes(value / 256, (width - 1) as nat);
        assert(le_bytes(value, width).drop_first() =~= rest);
    }
}

/// Writing the number that a byte string stands for, at the string's own
/// length, gives the string.
pub proof fn lemma_le_bytes_of_le_value(bytes: Seq<u8>)
    ensures
        le_bytes(le_value(bytes), bytes.len()) == bytes,
    decreases bytes.len(),
{
    if bytes.len() > 0 {
        lemma_le_bytes_of_le_value(bytes.drop_first());
    }
}

/// Reads the eight bytes of `input` that start at `at` as a little-endian
/// `u64`.
pub fn read_u64(input: &[u8], at: usize) -> (value: u64)
    requires
        at + 8 <= input@.len(),
    ensures
        value == le_value(input@.subrange(at as int, at + 8)),
{
    let ghost field = input@.subrange(at as int, at + 8);
    let mut value: u64 = 0;
    let mut i: usize = 8;
    proof {
        assert(input@.len() == input.len());
        lemma_pow256_of_eight();
    }
    while i > 0
        invariant
            i <= 8,
            at + 8 <= input@.len() <= usize::MAX,
            field == input@.subrange(at as int, at + 8),
            value == le_value(field.subrange(i as int, 8)),
            pow256(8) == u64::MAX + 1,
        decreases i,
    {
        let byte: u8 = input[at + i - 1];
        proof {
            let with_byte = field.subrange(i - 1, 8);
            assert(with_byte.drop_first() =~= field.subrange(i as int, 8));
            lemma_le_value_bound(with_byte);
            lemma_pow256_increases(with_byte.len(), 8);
        }
        value = value * 256 + byte as u64;
        i -= 1;
    }
    assert(field.subrange(0, 8) =~= field);
    value
}

/// Writes `value` as eight little-endian bytes into `output`, starting at
/// `at`. The bytes outside that window stay as they were.
pub fn write_u64(output: &mut [u8], at: usize, value: u64)
    requires
        at + 8 <= old(output)@.len(),
    ensures
        final(output)@.len() == old(output)@.len(),
        final(output)@.subrange(at as int, at + 8) == le_bytes(value as nat, 8),
        final(output)@.subrange(0, at as int) == old(output)@.subrange(0, at as int),
        final(output)@.subrange(at + 8, old(output)@.len() as int) == old(output)@.subrange(
            at + 8,
            old(output)@.len() as int,
        ),
{
    let mut rest: u64 = value;
    let mut i: usize = 0;
    assert(output@.len() == output.len());
    while i < 8
        invariant
            i <= 8,
            output@.len() == old(output)@.len(),
            at + 8 <= output@.len() <= usize::MAX,
            output@.subrange(at as int, at + i) + le_bytes(rest as nat, (8 - i) as nat)
                == le_bytes(value as nat, 8),
            output@.subrange(0, at as int) == old(output)@.subrange(0, at as int),
            output@.subrange(at + 8, output@.len() as int) == old(output)@.subrange(
                at + 8,
                output@.len() as int,
            ),
        decreases 8 - i,
    {
        output[at + i] = (rest % 256) as u8;
        rest = rest / 256;
        i += 1;
    }
}

/// More bytes never narrow the range.
proof fn lemma_pow256_increases(fewer: nat, more: nat)
    requires
        fewer <= more,
    ensures
        pow256(fewer) <= pow256(more),
    decreases more,
{
    if fewer < more {
        lemma_pow256_increases(fewer, (more - 1) as nat);
    }
}

} // verus!
