//! Big-endian (network order) numbers.
use crate::cursor::Cursor;
use vstd::prelude::*;

verus! {

/// The number that `bytes` spell in base 256, most significant byte first.
pub open spec fn be_nat(bytes: Seq<u8>) -> nat
    decreases bytes.len(),
{
    if bytes.len() == 0 {
        0
    } else {
        be_nat(bytes.drop_last()) * 256 + bytes.last() as nat
    }
}

/// The `width` bytes that spell `value` in base 256, most significant byte first.
pub open spec fn be_bytes(value: nat, width: nat) -> Seq<u8>
    decreases width,
{
    if width == 0 {
        Seq::empty()
    } else {
        be_bytes(value / 256, (width - 1) as nat).push((value % 256) as u8)
    }
}

/// 256 to the power of `width`: the number of values that `width` bytes can spell.
pub open spec fn radix(width: nat) -> nat
    decreases width,
{
    if width == 0 {
        1
    } else {
        256 * radix((width - 1) as nat)
    }
}

/// The integer that the 32-bit two's complement pattern `bits` stands for.
pub open spec fn twos_complement_32(bits: nat) -> int {
    if bits < 0x8000_0000 {
        bits as int
    } else {
        bits - 0x1_0000_0000
    }
}

/// The 32-bit two's complement pattern that stands for `value`.
pub open spec fn twos_complement_bits_32(value: int) -> nat {
    if value >= 0 {
        value as nat
    } else {
        (value + 0x1_0000_0000) as nat
    }
}

/// The numbers of values that one, two, four and eight bytes can spell.
pub proof fn lemma_radix_of_widths()
    ensures
        radix(1) == 0x100,
        radix(2) == 0x1_0000,
        radix(4) == 0x1_0000_0000,
        radix(8) == 0x1_0000_0000_0000_0000,
{
    reveal_with_fuel(radix, 9);
}

/// A byte string spells a number below the radix of its length.
pub proof fn lemma_be_nat_bound(bytes: Seq<u8>)
    ensures
        be_nat(bytes) < radix(bytes.len()),
    decreases bytes.len(),
{
    if bytes.len() > 0 {
        lemma_be_nat_bound(bytes.drop_last());
    }
}

/// `be_bytes` yields exactly `width` bytes.
pub proof fn lemma_be_bytes_len(value: nat, width: nat)
    ensures
        be_bytes(value, width).len() == width,
    decreases width,
{
    if width > 0 {
        lemma_be_bytes_len(value / 256, (width - 1) as nat);
    }
}

/// Spelling a number in `width` bytes and reading the bytes back gives the
/// number again, provided `width` bytes can hold it.
pub proof fn lemma_be_round_trip(value: nat, width: nat)
    requires
        value < radix(width),
    ensures
        be_nat(be_bytes(value, width)) == value,
    decreases width,
{
    if width > 0 {
        let rest = be_bytes(value / 256, (width - 1) as nat);
        lemma_be_round_trip(value / 256, (width - 1) as nat);
        assert(be_bytes(value, width).drop_last() =~= rest);
    }
}

/// A single byte spells its own value.
pub proof fn lemma_be_nat_of_byte(bytes: Seq<u8>)
    requires
        bytes.len() == 1,
    ensures
        be_nat(bytes) == bytes[0],
{
    reveal_with_fuel(be_nat, 2);
}

/// A read of `width` bytes at the start of a buffer that begins with the
/// big-endian spelling of `value` succeeds, and its bytes spell `value`: a
/// typed read returns the unsigned value that was encoded for it.
pub proof fn lemma_read_decodes_encoded(value: nat, width: nat, rest: Seq<u8>)
    requires
        value < radix(width),
        width <= 8,
    ensures
        Cursor::start(be_bytes(value, width) + rest).take_error(width) is None,
        be_nat(Cursor::start(be_bytes(value, width) + rest).taken(width)) == value,
{
    lemma_be_bytes_len(value, width);
    lemma_be_round_trip(value, width);
    assert(Cursor::start(be_bytes(value, width) + rest).taken(width) =~= be_bytes(value, width));
}

/// The two's complement pattern of every `i32` fits in four bytes and
/// stands for that `i32`: a signed read returns the value that was encoded.
pub proof fn lemma_twos_complement_round_trip(value: i32)
    ensures
        twos_complement_bits_32(value as int) < radix(4),
        twos_complement_32(twos_complement_bits_32(value as int)) == value,
{
    lemma_radix_of_widths();
}

/// The number that at most eight bytes spell in network order.
pub fn be_value(bytes: &[u8]) -> (value: u64)
    requires
        bytes@.len() <= 8,
    ensures
        value == be_nat(bytes@),
{
    let mut value: u64 = 0;
    let mut i: usize = 0;
    while i < bytes.len()
        invariant
            i <= bytes@.len() <= 8,
            value == be_nat(bytes@.take(i as int)),
        decreases bytes@.len() - i,
    {
        proof {
            lemma_be_nat_bound(bytes@.take(i as int));
            reveal_with_fuel(radix, 8);
            assert(bytes@.take(i + 1).drop_last() =~= bytes@.take(i as int));
        }
        value = value * 256 + bytes[i] as u64;
        i += 1;
    }
    assert(bytes@.take(i as int) =~= bytes@);
    value
}

} // verus!
