//! Code to assist with debugging.

use vstd::prelude::*;

verus! {

/// The ASCII code of the upper-case hexadecimal digit for `n` (one nibble).
pub open spec fn spec_hex_digit(n: u32) -> u8 {
    if n < 10 {
        (48 + n) as u8
    } else {
        (55 + n) as u8
    }
}

/// The ten ASCII bytes of `value` written in hexadecimal: `0x`, then eight
/// digits, most significant first.
pub open spec fn spec_hex_bytes(value: u32) -> Seq<u8> {
    Seq::new(
        10,
        |i: int|
            if i == 0 {
                48u8
            } else if i == 1 {
                120u8
            } else {
                spec_hex_digit((value >> (4 * (9 - i)) as u32) & 0xF)
            },
    )
}

/// Converts `value` to its hexadecimal representation and stores the ten
/// ASCII bytes in `buffer`: `0x` followed by eight upper-case digits.
pub fn u32_as_hex(value: u32, buffer: &mut Vec<u8>)
    ensures
        final(buffer)@ == spec_hex_bytes(value),
{
    buffer.clear();
    buffer.push(48);
    buffer.push(120);
    let mut i: usize = 0;
    while i < 8
        invariant
            i <= 8,
            buffer@.len() == 2 + i,
            forall|j: int| 0 <= j < 2 + i ==> buffer@[j] == spec_hex_bytes(value)[j],
        decreases 8 - i,
    {
        let shift = 28 - 4 * (i as u32);
        let nib = (value >> shift) & 0xF;
        proof {
            assert(shift < 32 ==> ((value >> shift) & 0xFu32) < 16) by (bit_vector);
        }
        let d: u8 = if nib < 10 {
            (48 + nib) as u8
        } else {
            (55 + nib) as u8
        };
        buffer.push(d);
        i += 1;
    }
    proof {
        assert(buffer@ =~= spec_hex_bytes(value));
    }
}

} // verus!
