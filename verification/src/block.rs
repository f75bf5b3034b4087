use vstd::prelude::*;

use crate::event::NewBlock;

verus! {

/// The latest block height observed on one chain. The height only
/// ever moves forward: stale observations are ignored.
pub struct BlockInfoCache {
    chain_id: u32,
    block_height: u64,
}

impl BlockInfoCache {
    pub closed spec fn spec_chain_id(&self) -> u32 {
        self.chain_id
    }

    pub closed spec fn spec_block_height(&self) -> u64 {
        self.block_height
    }

    /// A fresh cache starts at height zero.
    pub fn new(chain_id: u32) -> (r: BlockInfoCache)
        ensures
            r.spec_chain_id() == chain_id,
            r.spec_block_height() == 0,
    {
        BlockInfoCache { chain_id, block_height: 0 }
    }

    pub fn get_block_height(&self) -> (r: u64)
        ensures
            r == self.spec_block_height(),
    {
        self.block_height
    }

    /// Records an observed height, keeping the cache monotonic: a
    /// stale observation leaves the cache as it was.
    pub fn set_block_height(&mut self, observed: u64)
        ensures
            final(self).spec_chain_id() == old(self).spec_chain_id(),
            final(self).spec_block_height() == if observed > old(self).spec_block_height() {
                observed
            } else {
                old(self).spec_block_height()
            },
    {
        if observed > self.block_height {
            self.block_height = observed;
        }
    }
}

/// One pass of the block listener: given the height the chain client
/// reported, advance the cache and say whether a `NewBlock` event is
/// due. An event is published exactly when the height moved forward.
pub struct NewBlockListener {
    chain_id: u32,
}

impl NewBlockListener {
    pub closed spec fn spec_chain_id(&self) -> u32 {
        self.chain_id
    }

    pub fn new(chain_id: u32) -> (r: NewBlockListener)
        ensures
            r.spec_chain_id() == chain_id,
    {
        NewBlockListener { chain_id }
    }

    pub fn tick(&self, block_cache: &mut BlockInfoCache, observed_height: u64) -> (r: Option<
        NewBlock,
    >)
        ensures
            final(block_cache).spec_chain_id() == old(block_cache).spec_chain_id(),
            r is Some <==> observed_height > old(block_cache).spec_block_height(),
            r matches Some(e) ==> e.chain_id == self.spec_chain_id() && e.block_height
                == observed_height,
            final(block_cache).spec_block_height() == if observed_height > old(
                block_cache,
            ).spec_block_height() {
                observed_height
            } else {
                old(block_cache).spec_block_height()
            },
    {
        if observed_height > block_cache.get_block_height() {
            block_cache.set_block_height(observed_height);
            Some(NewBlock::new(self.chain_id, observed_height))
        } else {
            None
        }
    }
}

} // verus!
