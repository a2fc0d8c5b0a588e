use vstd::prelude::*;

verus! {

/// The `k`-th 4-bit field of `word`, counted from the most significant
/// (`k == 1`, bits 15-12) to the least significant (`k == 4`, bits 3-0);
/// zero for any other `k`.
pub open spec fn nibble(word: u16, k: int) -> u8 {
    if k == 1 {
        (word / 0x1000) as u8
    } else if k == 2 {
        ((word / 0x100) % 0x10) as u8
    } else if k == 3 {
        ((word / 0x10) % 0x10) as u8
    } else if k == 4 {
        (word % 0x10) as u8
    } else {
        0
    }
}

/// Returns the 4-bit field number `nibble_number` (1 to 4, most significant
/// first) of `addr`, or 0 when `nibble_number` is out of that range.
pub fn get_nibble(addr: u16, nibble_number: u8) -> (r: u8)
    ensures
        r == nibble(addr, nibble_number as int),
        r < 16,
{
    let bit_mask: u16 = match nibble_number {
        1 => 0b1111_0000_0000_0000,
        2 => 0b0000_1111_0000_0000,
        3 => 0b0000_0000_1111_0000,
        4 => 0b0000_0000_0000_1111,
        _ => 0,
    };
    if bit_mask == 0 {
        return 0;
    }
    let shift: u16 = 12 - 4 * (nibble_number as u16 - 1);
    let r: u16 = (addr & bit_mask) >> shift;
    proof {
        assert((addr & 0xF000u16) >> 12u16 == addr / 0x1000) by (bit_vector);
        assert((addr & 0x0F00u16) >> 8u16 == (addr / 0x100) % 0x10) by (bit_vector);
        assert((addr & 0x00F0u16) >> 4u16 == (addr / 0x10) % 0x10) by (bit_vector);
        assert((addr & 0x000Fu16) >> 0u16 == addr % 0x10) by (bit_vector);
    }
    r as u8
}

} // verus!
