//! Where a row version lies in its table.

use vstd::prelude::*;

verus! {

/// Number of a block of a table.
pub type BlockNumber = u32;

/// The number that no block has.
pub const INVALID_BLOCK_NUMBER: BlockNumber = 0xFFFF_FFFF;

/// The place of a row version: a block, in two halves, and a line in it, counted from one.
#[derive(Clone, Copy, Debug, PartialEq, Eq, Structural)]
pub struct ItemPointerData {
    pub bi_hi: u16,
    pub bi_lo: u16,
    pub ip_posid: u16,
}

impl ItemPointerData {
    /// The pointer names a line.
    pub open spec fn is_valid(self) -> bool {
        self.ip_posid != 0
    }

    /// The block that the two halves make up.
    pub open spec fn block_number(self) -> int {
        self.bi_hi * 0x1_0000 + self.bi_lo
    }
}

/// The block of a valid pointer.
pub fn item_pointer_get_block_number(tid: ItemPointerData) -> (block: BlockNumber)
    requires
        tid.is_valid(),
    ensures
        block == tid.block_number(),
{
    let hi: u32 = tid.bi_hi as u32;
    let lo: u32 = tid.bi_lo as u32;
    assert(hi <= 0xFFFF && lo <= 0xFFFF ==> (hi << 16) | lo == hi * 0x1_0000 + lo) by (bit_vector);
    (hi << 16) | lo
}

} // verus!
