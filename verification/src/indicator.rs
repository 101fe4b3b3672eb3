//! Layout of the password indicator: a fixed row of blocks, one of which
//! is the cursor. Which block plays which role, and how strongly each is
//! tinted, depends only on how many characters have been typed; the colors
//! themselves are the renderer's business.

use vstd::prelude::*;

verus! {

/// Number of blocks in the indicator row.
pub const INDICATOR_BLOCK_COUNT: usize = 4;

/// What a block shows.
#[derive(Clone, Copy, Debug, PartialEq, Eq, Structural)]
pub enum BlockRole {
    /// The block the cursor currently sits on.
    Cursor,
    /// A block behind (or ahead of) the cursor.
    Trail,
}

/// One block of the indicator row: its role and how many times its base
/// color is strengthened.
#[derive(Clone, Copy, Debug, PartialEq, Eq, Structural)]
pub struct IndicatorBlock {
    pub role: BlockRole,
    pub strength: usize,
}

/// The block at position `i` when `len` characters are typed: the cursor
/// walks the row once per character and wraps, so block `(len-1) % count`
/// is the cursor; blocks it has already passed on the current lap are one
/// strength ahead of the rest.
pub open spec fn spec_indicator_block(len: nat, i: nat) -> IndicatorBlock
    recommends
        len >= 1,
        i < INDICATOR_BLOCK_COUNT,
{
    let strength = (len - 1) as nat / INDICATOR_BLOCK_COUNT as nat;
    let pos = (len - 1) as nat % INDICATOR_BLOCK_COUNT as nat;
    if i < pos {
        IndicatorBlock { role: BlockRole::Trail, strength: (strength + 1) as usize }
    } else if i == pos {
        IndicatorBlock { role: BlockRole::Cursor, strength: strength as usize }
    } else {
        IndicatorBlock { role: BlockRole::Trail, strength: strength as usize }
    }
}

/// The whole indicator row for a password of `len` characters (at least
/// one: an empty password renders as a uniform row without a cursor).
pub fn indicator_blocks(len: usize) -> (r: Vec<IndicatorBlock>)
    requires
        len >= 1,
    ensures
        r@.len() == INDICATOR_BLOCK_COUNT,
        forall|i: int|
            0 <= i < r@.len() ==> r@[i] == spec_indicator_block(len as nat, i as nat),
{
    let strength = (len - 1) / INDICATOR_BLOCK_COUNT;
    let pos = (len - 1) % INDICATOR_BLOCK_COUNT;
    let mut out: Vec<IndicatorBlock> = Vec::new();
    let mut i: usize = 0;
    while i < INDICATOR_BLOCK_COUNT
        invariant
            len >= 1,
            i <= INDICATOR_BLOCK_COUNT,
            strength == (len - 1) as nat / INDICATOR_BLOCK_COUNT as nat,
            pos == (len - 1) as nat % INDICATOR_BLOCK_COUNT as nat,
            out@.len() == i,
            forall|j: int|
                0 <= j < i ==> out@[j] == spec_indicator_block(len as nat, j as nat),
        decreases INDICATOR_BLOCK_COUNT - i,
    {
        let b = if i < pos {
            IndicatorBlock { role: BlockRole::Trail, strength: strength + 1 }
        } else if i == pos {
            IndicatorBlock { role: BlockRole::Cursor, strength }
        } else {
            IndicatorBlock { role: BlockRole::Trail, strength }
        };
        out.push(b);
        i = i + 1;
    }
    out
}

} // verus!
