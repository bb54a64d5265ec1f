//! Sizes of the regions of a formatted device, derived from its block count.

use vstd::prelude::*;

verus! {

/// Size of every block, in bytes.
pub const BLOCK_SIZE: u32 = 4096;

/// Size of one on-disk inode record, in bytes.
pub const INODE_SIZE: u32 = 40;

/// Number of inode records held by one inode-store block.
pub const INODES_PER_BLOCK: u32 = BLOCK_SIZE / INODE_SIZE;

/// Number of bits in one bitmap block.
pub const BITS_PER_BLOCK: u32 = BLOCK_SIZE * 8;

/// Smallest device that can be formatted, in blocks.
pub const MIN_BLOCKS: u32 = 100;

/// Smallest integer not less than `a / d`.
pub open spec fn ceil_div(a: int, d: int) -> int {
    (a + d - 1) / d
}

/// Number of inodes for a device of `blocks` blocks: one per block, rounded
/// up to whole inode-store blocks.
pub open spec fn inodes_for(blocks: int) -> int {
    ceil_div(blocks, INODES_PER_BLOCK as int) * INODES_PER_BLOCK
}

/// Bounds of a ceiling quotient; rounding a multiple of `d` up changes
/// nothing.
pub proof fn lemma_ceil_div(a: int, d: int)
    requires
        a >= 0,
        d > 0,
    ensures
        ceil_div(a, d) >= 0,
        d * ceil_div(a, d) >= a,
        d * ceil_div(a, d) < a + d,
        ceil_div(d * ceil_div(a, d), d) == ceil_div(a, d),
{
    let c = ceil_div(a, d);
    vstd::arithmetic::div_mod::lemma_fundamental_div_mod(a + d - 1, d);
    vstd::arithmetic::div_mod::lemma_mod_pos_bound(a + d - 1, d);
    assert(c >= 0) by {
        vstd::arithmetic::div_mod::lemma_div_pos_is_pos(a + d - 1, d);
    }
    vstd::arithmetic::div_mod::lemma_fundamental_div_mod(d * c + d - 1, d);
    vstd::arithmetic::div_mod::lemma_mod_pos_bound(d * c + d - 1, d);
    let q = (d * c + d - 1) / d;
    assert(q == c) by (nonlinear_arith)
        requires
            d * c + d - 1 == d * q + (d * c + d - 1) % d,
            0 <= (d * c + d - 1) % d < d,
            d > 0,
    ;
}

/// Why a device cannot be formatted.
#[derive(Debug, Clone, Copy, PartialEq, Eq, Structural)]
pub enum LayoutError {
    /// The device holds fewer than `MIN_BLOCKS` blocks.
    TooSmall,
    /// The inode count would not fit in the superblock's 32-bit fields.
    TooLarge,
}

/// Block counts of the regions of a formatted device, in on-disk order:
/// superblock (one block), inode store, inode-free bitmap, block-free
/// bitmap, data.
#[derive(Debug, Clone, Copy, PartialEq, Eq, Structural)]
pub struct Layout {
    pub nr_blocks: u32,
    pub nr_inodes: u32,
    pub nr_istore_blocks: u32,
    pub nr_ifree_blocks: u32,
    pub nr_bfree_blocks: u32,
    pub nr_data_blocks: u32,
}

impl Layout {
    /// Every count is the one that a device of `nr_blocks` blocks gets.
    pub open spec fn wf(self) -> bool {
        &&& self.nr_blocks >= MIN_BLOCKS
        &&& self.nr_inodes == inodes_for(self.nr_blocks as int)
        &&& self.nr_istore_blocks == ceil_div(self.nr_inodes as int, INODES_PER_BLOCK as int)
        &&& self.nr_ifree_blocks == ceil_div(self.nr_inodes as int, BITS_PER_BLOCK as int)
        &&& self.nr_bfree_blocks == ceil_div(self.nr_blocks as int, BITS_PER_BLOCK as int)
        &&& self.nr_data_blocks == self.nr_blocks - 1 - self.nr_istore_blocks
            - self.nr_ifree_blocks - self.nr_bfree_blocks
    }

    /// Number of the first block of the data region.
    pub open spec fn first_data(self) -> int {
        1 + self.nr_istore_blocks + self.nr_ifree_blocks + self.nr_bfree_blocks
    }

    /// Number of the first block of the inode-free bitmap.
    pub open spec fn first_ifree(self) -> int {
        1 + self.nr_istore_blocks
    }

    /// Number of the first block of the block-free bitmap.
    pub open spec fn first_bfree(self) -> int {
        1 + self.nr_istore_blocks + self.nr_ifree_blocks
    }

    /// Blocks in use once the device is formatted: the metadata region and the
    /// root directory's data block.
    pub open spec fn used_blocks(self) -> int {
        self.first_data() + 1
    }

    /// Number of the first block of the data region, which the root directory
    /// takes.
    pub fn first_data_block(&self) -> (r: u32)
        requires
            self.wf(),
        ensures
            r == self.first_data(),
    {
        proof {
            lemma_layout_partition(*self);
        }
        1 + self.nr_istore_blocks + self.nr_ifree_blocks + self.nr_bfree_blocks
    }

    /// Number of inodes left free: all but the root's.
    pub fn nr_free_inodes(&self) -> (r: u32)
        requires
            self.wf(),
        ensures
            r == self.nr_inodes - 1,
    {
        proof {
            lemma_inode_coverage(*self);
        }
        self.nr_inodes - 1
    }

    /// Number of data blocks left free: all but the root's.
    pub fn nr_free_blocks(&self) -> (r: u32)
        requires
            self.wf(),
        ensures
            r == self.nr_data_blocks - 1,
    {
        proof {
            lemma_layout_partition(*self);
        }
        self.nr_data_blocks - 1
    }
}

/// The regions of a planned layout cover the device exactly, and the data
/// region has room for the root directory's block.
pub proof fn lemma_layout_partition(layout: Layout)
    requires
        layout.wf(),
    ensures
        1 + layout.nr_istore_blocks + layout.nr_ifree_blocks + layout.nr_bfree_blocks
            + layout.nr_data_blocks == layout.nr_blocks,
        layout.nr_data_blocks >= 1,
{
    let b = layout.nr_blocks as int;
    let ipb = INODES_PER_BLOCK as int;
    let bpb = BITS_PER_BLOCK as int;
    lemma_ceil_div(b, ipb);
    lemma_ceil_div(layout.nr_inodes as int, bpb);
    lemma_ceil_div(b, bpb);
    assert(ipb == 102 && bpb == 32768);
}

/// A planned layout holds an inode for every block, and its inode store holds
/// every inode.
pub proof fn lemma_inode_coverage(layout: Layout)
    requires
        layout.wf(),
    ensures
        layout.nr_istore_blocks * INODES_PER_BLOCK >= layout.nr_inodes,
        layout.nr_inodes >= layout.nr_blocks,
        layout.nr_istore_blocks * INODES_PER_BLOCK == layout.nr_inodes,
{
    lemma_ceil_div(layout.nr_blocks as int, INODES_PER_BLOCK as int);
}

/// Plans the layout of a device of `nr_blocks` blocks.
pub fn plan_blocks(nr_blocks: u64) -> (r: Result<Layout, LayoutError>)
    ensures
        r == Err::<Layout, LayoutError>(LayoutError::TooSmall) <==> nr_blocks < MIN_BLOCKS,
        r == Err::<Layout, LayoutError>(LayoutError::TooLarge) <==> nr_blocks >= MIN_BLOCKS
            && inodes_for(nr_blocks as int) > u32::MAX,
        r matches Ok(l) ==> l.wf() && l.nr_blocks == nr_blocks,
{
    if nr_blocks < MIN_BLOCKS as u64 {
        return Err(LayoutError::TooSmall);
    }
    proof {
        lemma_ceil_div(nr_blocks as int, INODES_PER_BLOCK as int);
    }
    if nr_blocks > u32::MAX as u64 {
        return Err(LayoutError::TooLarge);
    }
    let ipb = INODES_PER_BLOCK as u64;
    let nr_inodes = (nr_blocks + ipb - 1) / ipb * ipb;
    if nr_inodes > u32::MAX as u64 {
        return Err(LayoutError::TooLarge);
    }
    let bpb = BITS_PER_BLOCK as u64;
    let nr_istore_blocks = (nr_inodes + ipb - 1) / ipb;
    let nr_ifree_blocks = (nr_inodes + bpb - 1) / bpb;
    let nr_bfree_blocks = (nr_blocks + bpb - 1) / bpb;
    proof {
        lemma_ceil_div(nr_inodes as int, INODES_PER_BLOCK as int);
        lemma_ceil_div(nr_inodes as int, BITS_PER_BLOCK as int);
        lemma_ceil_div(nr_blocks as int, BITS_PER_BLOCK as int);
    }
    let nr_data_blocks = nr_blocks - 1 - nr_istore_blocks - nr_ifree_blocks - nr_bfree_blocks;
    let layout = Layout {
        nr_blocks: nr_blocks as u32,
        nr_inodes: nr_inodes as u32,
        nr_istore_blocks: nr_istore_blocks as u32,
        nr_ifree_blocks: nr_ifree_blocks as u32,
        nr_bfree_blocks: nr_bfree_blocks as u32,
        nr_data_blocks: nr_data_blocks as u32,
    };
    Ok(layout)
}

/// Plans the layout of a device of `device_size` bytes. A trailing partial
/// block is left unused.
pub fn plan_layout(device_size: u64) -> (r: Result<Layout, LayoutError>)
    ensures
        r == Err::<Layout, LayoutError>(LayoutError::TooSmall) <==> device_size / (BLOCK_SIZE as u64)
            < MIN_BLOCKS,
        r == Err::<Layout, LayoutError>(LayoutError::TooLarge) <==> device_size / (BLOCK_SIZE as u64)
            >= MIN_BLOCKS && inodes_for((device_size / (BLOCK_SIZE as u64)) as int) > u32::MAX,
        r matches Ok(l) ==> l.wf() && l.nr_blocks == device_size / (BLOCK_SIZE as u64),
{
    plan_blocks(device_size / BLOCK_SIZE as u64)
}

} // verus!
