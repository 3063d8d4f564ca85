//! The queue of upcoming pieces and the hold slot.
use vstd::prelude::*;
use crate::blocktype::BlockType;

verus! {

/// Number of upcoming pieces kept in the queue.
pub const NEXT_BLOCK_COUNT: usize = 4;

/// The upcoming pieces, the head first.
#[derive(Clone, Copy, Debug)]
pub struct NextBlocks(pub [BlockType; NEXT_BLOCK_COUNT]);

impl View for NextBlocks {
    type V = Seq<BlockType>;

    open spec fn view(&self) -> Seq<BlockType> {
        self.0@
    }
}

impl NextBlocks {
    /// A queue of I pieces, to be filled when a game starts.
    pub fn new() -> (r: Self)
        ensures
            r@ == seq![BlockType::TypeI, BlockType::TypeI, BlockType::TypeI, BlockType::TypeI],
    {
        let r = NextBlocks([BlockType::TypeI; NEXT_BLOCK_COUNT]);
        assert(r@ =~= seq![BlockType::TypeI, BlockType::TypeI, BlockType::TypeI, BlockType::TypeI]);
        r
    }

    /// The queue after its head is taken: the others move up by one and
    /// `blocktype` joins at the back.
    pub fn update(&self, blocktype: BlockType) -> (r: Self)
        ensures
            r@ == self@.subrange(1, NEXT_BLOCK_COUNT as int).push(blocktype),
    {
        let r = NextBlocks([self.0[1], self.0[2], self.0[3], blocktype]);
        assert(r@ =~= self@.subrange(1, NEXT_BLOCK_COUNT as int).push(blocktype));
        r
    }

    /// The piece at the head of the queue.
    pub fn head(&self) -> (r: BlockType)
        ensures
            r == self@[0],
    {
        self.0[0]
    }
}

/// The hold slot and whether a hold is allowed before the next lock.
#[derive(Clone, Copy, Debug, PartialEq, Eq, Structural)]
pub struct HoldBlocks {
    pub can_hold: bool,
    pub blocktype: Option<BlockType>,
}

impl HoldBlocks {
    /// An empty slot that allows a hold.
    pub fn new() -> (r: Self)
        ensures
            r.can_hold,
            r.blocktype is None,
    {
        HoldBlocks { can_hold: true, blocktype: None }
    }
}

} // verus!
