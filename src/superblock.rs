//! The superblock: block 0 of the device, holding the layout and the free
//! counts, every integer a little-endian 32-bit field.

use vstd::prelude::*;

use crate::codec::{le32, le32_at, lemma_le32_round_trip, push_le32, push_zeros, read_le32, zeros};
use crate::layout::{plan_blocks, Layout, LayoutError, BLOCK_SIZE};

verus! {

/// The tag at the start of the superblock: the bytes `WICH` read as a
/// little-endian integer.
pub const MAGIC: u32 = 0x4843_4957;

/// Number of bytes of the superblock that hold fields: the tag and seven
/// counts.
pub const SUPERBLOCK_FIELDS_SIZE: u32 = 32;

/// The counts stored in a superblock, in on-disk order after the tag.
#[derive(Debug, Clone, Copy, PartialEq, Eq, Structural)]
pub struct Superblock {
    pub nr_blocks: u32,
    pub nr_inodes: u32,
    pub nr_istore_blocks: u32,
    pub nr_ifree_blocks: u32,
    pub nr_bfree_blocks: u32,
    pub nr_free_inodes: u32,
    pub nr_free_blocks: u32,
}

/// The superblock of a freshly formatted device: every inode is free but the
/// root's, and every data block but the root's.
pub open spec fn superblock_of(layout: Layout) -> Superblock {
    Superblock {
        nr_blocks: layout.nr_blocks,
        nr_inodes: layout.nr_inodes,
        nr_istore_blocks: layout.nr_istore_blocks,
        nr_ifree_blocks: layout.nr_ifree_blocks,
        nr_bfree_blocks: layout.nr_bfree_blocks,
        nr_free_inodes: (layout.nr_inodes - 1) as u32,
        nr_free_blocks: (layout.nr_data_blocks - 1) as u32,
    }
}

/// The block that holds `sb`: the tag, the counts, then zeros up to the end of
/// the block.
pub open spec fn superblock_bytes(sb: Superblock) -> Seq<u8> {
    le32(MAGIC) + le32(sb.nr_blocks) + le32(sb.nr_inodes) + le32(sb.nr_istore_blocks) + le32(
        sb.nr_ifree_blocks,
    ) + le32(sb.nr_bfree_blocks) + le32(sb.nr_free_inodes) + le32(sb.nr_free_blocks) + zeros(
        BLOCK_SIZE - SUPERBLOCK_FIELDS_SIZE,
    )
}

/// The superblock that a block holds, if it is one block long and starts with
/// the tag.
pub open spec fn parse_superblock(b: Seq<u8>) -> Option<Superblock> {
    if b.len() == BLOCK_SIZE && le32_at(b, 0) == MAGIC {
        Some(
            Superblock {
                nr_blocks: le32_at(b, 4),
                nr_inodes: le32_at(b, 8),
                nr_istore_blocks: le32_at(b, 12),
                nr_ifree_blocks: le32_at(b, 16),
                nr_bfree_blocks: le32_at(b, 20),
                nr_free_inodes: le32_at(b, 24),
                nr_free_blocks: le32_at(b, 28),
            },
        )
    } else {
        None
    }
}

proof fn lemma_le32_at_concat(prefix: Seq<u8>, x: u32, rest: Seq<u8>)
    ensures
        le32_at(prefix + le32(x) + rest, prefix.len() as int) == x,
{
    let s = prefix + le32(x) + rest;
    let at = prefix.len() as int;
    lemma_le32_round_trip(x);
    assert(s.subrange(at, at + 4) =~= le32(x));
    assert(s[at] == le32(x)[0] && s[at + 1] == le32(x)[1] && s[at + 2] == le32(x)[2] && s[at
        + 3] == le32(x)[3]);
}

/// Reading back the block of a superblock gives that superblock, and the
/// layout it was made from is the only planned layout with that superblock.
pub proof fn lemma_superblock_round_trip(layout: Layout)
    requires
        layout.wf(),
    ensures
        parse_superblock(superblock_bytes(superblock_of(layout))) == Some(superblock_of(layout)),
        forall|other: Layout|
            other.wf() && superblock_of(other) == superblock_of(layout) ==> other == layout,
{
    let sb = superblock_of(layout);
    let pad = zeros(BLOCK_SIZE - SUPERBLOCK_FIELDS_SIZE);
    let f = seq![MAGIC, sb.nr_blocks, sb.nr_inodes, sb.nr_istore_blocks, sb.nr_ifree_blocks,
        sb.nr_bfree_blocks, sb.nr_free_inodes, sb.nr_free_blocks];
    let b = superblock_bytes(sb);
    let p1 = le32(f[0]);
    let p2 = p1 + le32(f[1]);
    let p3 = p2 + le32(f[2]);
    let p4 = p3 + le32(f[3]);
    let p5 = p4 + le32(f[4]);
    let p6 = p5 + le32(f[5]);
    let p7 = p6 + le32(f[6]);
    lemma_le32_at_concat(Seq::empty(), f[0], b.subrange(4, 4096));
    assert(Seq::<u8>::empty() + le32(f[0]) + b.subrange(4, 4096) =~= b);
    lemma_le32_at_concat(p1, f[1], b.subrange(8, 4096));
    assert(p1 + le32(f[1]) + b.subrange(8, 4096) =~= b);
    lemma_le32_at_concat(p2, f[2], b.subrange(12, 4096));
    assert(p2 + le32(f[2]) + b.subrange(12, 4096) =~= b);
    lemma_le32_at_concat(p3, f[3], b.subrange(16, 4096));
    assert(p3 + le32(f[3]) + b.subrange(16, 4096) =~= b);
    lemma_le32_at_concat(p4, f[4], b.subrange(20, 4096));
    assert(p4 + le32(f[4]) + b.subrange(20, 4096) =~= b);
    lemma_le32_at_concat(p5, f[5], b.subrange(24, 4096));
    assert(p5 + le32(f[5]) + b.subrange(24, 4096) =~= b);
    lemma_le32_at_concat(p6, f[6], b.subrange(28, 4096));
    assert(p6 + le32(f[6]) + b.subrange(28, 4096) =~= b);
    lemma_le32_at_concat(p7, f[7], pad);
    assert(p7 + le32(f[7]) + pad =~= b);
}

impl Superblock {
    /// The superblock of a device formatted with `layout`.
    pub fn from_layout(layout: &Layout) -> (r: Superblock)
        requires
            layout.wf(),
        ensures
            r == superblock_of(*layout),
    {
        Superblock {
            nr_blocks: layout.nr_blocks,
            nr_inodes: layout.nr_inodes,
            nr_istore_blocks: layout.nr_istore_blocks,
            nr_ifree_blocks: layout.nr_ifree_blocks,
            nr_bfree_blocks: layout.nr_bfree_blocks,
            nr_free_inodes: layout.nr_free_inodes(),
            nr_free_blocks: layout.nr_free_blocks(),
        }
    }

    /// The block that holds this superblock, little-endian whatever the host.
    pub fn to_bytes(&self) -> (r: Vec<u8>)
        ensures
            r@ == superblock_bytes(*self),
    {
        let mut out: Vec<u8> = Vec::new();
        push_le32(&mut out, MAGIC);
        push_le32(&mut out, self.nr_blocks);
        push_le32(&mut out, self.nr_inodes);
        push_le32(&mut out, self.nr_istore_blocks);
        push_le32(&mut out, self.nr_ifree_blocks);
        push_le32(&mut out, self.nr_bfree_blocks);
        push_le32(&mut out, self.nr_free_inodes);
        push_le32(&mut out, self.nr_free_blocks);
        push_zeros(&mut out, BLOCK_SIZE - SUPERBLOCK_FIELDS_SIZE);
        assert(out@ =~= superblock_bytes(*self));
        out
    }

    /// The superblock held by `bytes`, if it is one block long and starts with
    /// the tag.
    pub fn parse(bytes: &[u8]) -> (r: Option<Superblock>)
        ensures
            r == parse_superblock(bytes@),
    {
        if bytes.len() != BLOCK_SIZE as usize || read_le32(bytes, 0) != MAGIC {
            return None;
        }
        Some(
            Superblock {
                nr_blocks: read_le32(bytes, 4),
                nr_inodes: read_le32(bytes, 8),
                nr_istore_blocks: read_le32(bytes, 12),
                nr_ifree_blocks: read_le32(bytes, 16),
                nr_bfree_blocks: read_le32(bytes, 20),
                nr_free_inodes: read_le32(bytes, 24),
                nr_free_blocks: read_le32(bytes, 28),
            },
        )
    }

    /// The layout this superblock describes, if it is the superblock of a
    /// freshly formatted device.
    pub fn layout(&self) -> (r: Option<Layout>)
        ensures
            r matches Some(l) ==> l.wf() && superblock_of(l) == *self,
            (exists|l: Layout| l.wf() && superblock_of(l) == *self) ==> r is Some,
    {
        match plan_blocks(self.nr_blocks as u64) {
            Ok(l) => {
                if Superblock::from_layout(&l) == *self {
                    Some(l)
                } else {
                    None
                }
            },
            Err(e) => {
                proof {
                    assert forall|l: Layout| l.wf() implies superblock_of(l) != *self by {
                        if superblock_of(l) == *self {
                            assert(l.nr_blocks == self.nr_blocks);
                            assert(e == LayoutError::TooSmall || e == LayoutError::TooLarge);
                        }
                    }
                }
                None
            },
        }
    }
}

/// Block 0 of a device formatted with `layout`.
pub fn superblock_block(layout: &Layout) -> (r: Vec<u8>)
    requires
        layout.wf(),
    ensures
        r@ == superblock_bytes(superblock_of(*layout)),
        r@.len() == BLOCK_SIZE,
{
    let sb = Superblock::from_layout(layout);
    sb.to_bytes()
}

} // verus!
