//! The metadata region of a formatted device, block by block, in the order
//! in which it is written: superblock, inode store, inode-free bitmap,
//! block-free bitmap.

use vstd::prelude::*;

use crate::bitmap::{
    bfree_bitmap_block, bfree_block, ifree_bitmap_block, ifree_block, lemma_bitmap_block_bits,
};
use crate::inode::{inode_store_block, inode_store_block_bytes};
use crate::layout::{lemma_layout_partition, Layout, BITS_PER_BLOCK, BLOCK_SIZE};
use crate::superblock::{superblock_block, superblock_bytes, superblock_of};

verus! {

/// Block `n` of a device formatted with `layout`, for `n` below the first
/// data block.
pub open spec fn metadata_block_bytes(layout: Layout, n: int) -> Seq<u8> {
    if n == 0 {
        superblock_bytes(superblock_of(layout))
    } else if n < layout.first_ifree() {
        inode_store_block_bytes(layout, n - 1)
    } else if n < layout.first_bfree() {
        ifree_bitmap_block(n - layout.first_ifree())
    } else {
        bfree_bitmap_block(layout, n - layout.first_bfree())
    }
}

/// Block `n` of a device formatted with `layout`. The blocks `0` to
/// `layout.first_data_block() - 1`, written one after the other, make up
/// the whole metadata region.
pub fn metadata_block(layout: &Layout, n: u32) -> (r: Vec<u8>)
    requires
        layout.wf(),
        n < layout.first_data(),
    ensures
        r@ == metadata_block_bytes(*layout, n as int),
        r@.len() == BLOCK_SIZE,
{
    proof {
        lemma_layout_partition(*layout);
    }
    let first_ifree = 1 + layout.nr_istore_blocks;
    let first_bfree = first_ifree + layout.nr_ifree_blocks;
    if n == 0 {
        superblock_block(layout)
    } else if n < first_ifree {
        inode_store_block(layout, n - 1)
    } else if n < first_bfree {
        let r = ifree_block(layout, n - first_ifree);
        proof {
            lemma_bitmap_block_bits(2 - (n - first_ifree) * BITS_PER_BLOCK);
        }
        r
    } else {
        let r = bfree_block(layout, n - first_bfree);
        proof {
            lemma_bitmap_block_bits(layout.used_blocks() - (n - first_bfree) * BITS_PER_BLOCK);
        }
        r
    }
}

} // verus!
