//! Drive letters from the platform's bit mask of logical drives.

use vstd::prelude::*;

verus! {

/// The number of drive letters, `A` to `Z`.
pub const LETTERS: usize = 26;

/// The drive letter with number `index`: `A` for 0, `Z` for 25.
pub open spec fn letter(index: int) -> char {
    (0x41 + index) as char
}

/// Whether the bit for the drive with number `index` is set in `mask`.
pub open spec fn has_drive(mask: u32, index: int) -> bool {
    mask & (1u32 << (index as u32)) != 0
}

/// The drives that the platform's mask of logical drives names, one slot
/// for each letter from `A` to `Z`: the letter where its bit is set,
/// nothing where it is not. Bits above the 26th stand for no letter.
pub fn drives(logical_drives: u32) -> (drives: [Option<char>; 26])
    ensures
        forall|i: int|
            0 <= i < 26 ==> #[trigger] drives[i] == if has_drive(logical_drives, i) {
                Some(letter(i))
            } else {
                None
            },
{
    let mut drives: [Option<char>; 26] = [None;26];
    let mut mask: u32 = 1;
    let mut index: usize = 0;
    let mut code: u8 = 0x41;
    assert(1u32 == 1u32 << 0u32) by (bit_vector);
    while index < LETTERS
        invariant
            index <= 26,
            code == 0x41 + index,
            mask == 1u32 << (index as u32),
            forall|i: int|
                0 <= i < index ==> #[trigger] drives[i] == if has_drive(logical_drives, i) {
                    Some(letter(i))
                } else {
                    None
                },
            forall|i: int| index <= i < 26 ==> #[trigger] drives[i] == None::<char>,
        decreases 26 - index,
    {
        if logical_drives & mask != 0 {
            drives[index] = Some(code as char);
        }
        assert(mask << 1 == 1u32 << ((index + 1) as u32)) by (bit_vector)
            requires
                index < 26,
                mask == 1u32 << (index as u32),
        ;
        mask = mask << 1;
        code = code + 1;
        index = index + 1;
    }
    drives
}

} // verus!
