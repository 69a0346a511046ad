//! Numbers as bytes.

use vstd::prelude::*;

verus! {

/// Byte number `index` of `value`, from the least significant one.
pub open spec fn byte_at(value: int, index: int) -> u8 {
    if index == 0 {
        (value % 0x100) as u8
    } else if index == 1 {
        ((value / 0x100) % 0x100) as u8
    } else if index == 2 {
        ((value / 0x1_0000) % 0x100) as u8
    } else {
        ((value / 0x100_0000) % 0x100) as u8
    }
}

/// Splits `value` into its bytes, most significant first.
pub fn be_bytes(value: u32) -> (bytes: [u8; 4])
    ensures
        bytes@ == seq![
            byte_at(value as int, 3),
            byte_at(value as int, 2),
            byte_at(value as int, 1),
            byte_at(value as int, 0),
        ],
{
    assert((value >> 24) & 0xFF == (value / 0x100_0000) % 0x100) by (bit_vector);
    assert((value >> 16) & 0xFF == (value / 0x1_0000) % 0x100) by (bit_vector);
    assert((value >> 8) & 0xFF == (value / 0x100) % 0x100) by (bit_vector);
    assert(value & 0xFF == value % 0x100) by (bit_vector);
    let bytes = [
        ((value >> 24) & 0xFF) as u8,
        ((value >> 16) & 0xFF) as u8,
        ((value >> 8) & 0xFF) as u8,
        (value & 0xFF) as u8,
    ];
    assert(bytes@ =~= seq![
        byte_at(value as int, 3),
        byte_at(value as int, 2),
        byte_at(value as int, 1),
        byte_at(value as int, 0),
    ]);
    bytes
}

/// The number that four bytes give, most significant first.
pub open spec fn be_u32(b3: u8, b2: u8, b1: u8, b0: u8) -> int {
    b3 * 0x100_0000 + b2 * 0x1_0000 + b1 * 0x100 + b0
}

/// Reads a number from four bytes, most significant first.
pub fn u32_from_be(b3: u8, b2: u8, b1: u8, b0: u8) -> (value: u32)
    ensures
        value == be_u32(b3, b2, b1, b0),
{
    (b3 as u32) * 0x100_0000 + (b2 as u32) * 0x1_0000 + (b1 as u32) * 0x100 + b0 as u32
}

/// Reading the bytes of a number gives the number back.
pub proof fn law_bytes_give_the_number_back(value: u32)
    ensures
        be_u32(
            byte_at(value as int, 3),
            byte_at(value as int, 2),
            byte_at(value as int, 1),
            byte_at(value as int, 0),
        ) == value,
{
}

/// The low four bytes of a number do not depend on what is above them.
pub proof fn lemma_low_bytes(value: int)
    requires
        0 <= value,
    ensures
        forall|index: int|
            0 <= index < 4 ==> byte_at(value % 0x1_0000_0000, index) == #[trigger] byte_at(
                value,
                index,
            ),
{
    let high = value / 0x1_0000_0000;
    let low = value % 0x1_0000_0000;
    lemma_byte_below(high, low, 1, 0x100_0000);
    lemma_byte_below(high, low, 0x100, 0x1_0000);
    lemma_byte_below(high, low, 0x1_0000, 0x100);
    lemma_byte_below(high, low, 0x100_0000, 1);
}

proof fn lemma_byte_below(high: int, low: int, unit: int, above: int)
    requires
        0 <= high,
        0 <= low,
        unit > 0,
        unit * (above * 0x100) == 0x1_0000_0000,
    ensures
        ((high * 0x1_0000_0000 + low) / unit) % 0x100 == (low / unit) % 0x100,
{
    let q = low / unit;
    let r = low % unit;
    let value = high * 0x1_0000_0000 + low;
    vstd::arithmetic::div_mod::lemma_fundamental_div_mod(low, unit);
    assert(value == (high * (above * 0x100) + q) * unit + r) by (nonlinear_arith)
        requires
            value == high * 0x1_0000_0000 + low,
            low == unit * q + r,
            unit * (above * 0x100) == 0x1_0000_0000,
    ;
    vstd::arithmetic::div_mod::lemma_fundamental_div_mod_converse(
        value,
        unit,
        high * (above * 0x100) + q,
        r,
    );
    assert(high * (above * 0x100) + q == 0x100 * (high * above) + q) by (nonlinear_arith);
    vstd::arithmetic::div_mod::lemma_mod_multiples_vanish(high * above, q, 0x100);
}

} // verus!
