//! The inode store: inode records of `INODE_SIZE` bytes, ten little-endian
//! 32-bit fields each, with the root directory in slot 0 and every other slot
//! zero (free).

use vstd::prelude::*;

use crate::codec::{le32, push_le32, push_zeros, zeros};
use crate::layout::{Layout, BLOCK_SIZE, INODE_SIZE};

verus! {

/// File type bits of a directory.
pub const S_IFDIR: u32 = 0o040000;

/// Read, write and search permission for the owner.
pub const S_IRWXU: u32 = 0o700;

/// Read, write and search permission for the group.
pub const S_IRWXG: u32 = 0o070;

/// Read permission for others.
pub const S_IROTH: u32 = 0o004;

/// Search permission for others.
pub const S_IXOTH: u32 = 0o001;

/// Mode of the root directory: a directory, `rwxrwxr-x`.
pub const ROOT_MODE: u32 = S_IFDIR | S_IRWXU | S_IRWXG | S_IROTH | S_IXOTH;

/// Link count of the root directory: its own entry and its parent's, which
/// is itself.
pub const ROOT_NLINK: u32 = 2;

/// One on-disk inode record, fields in on-disk order.
#[derive(Debug, Clone, Copy, PartialEq, Eq, Structural)]
pub struct Inode {
    pub mode: u32,
    pub uid: u32,
    pub gid: u32,
    pub size: u32,
    pub ctime: u32,
    pub atime: u32,
    pub mtime: u32,
    pub blocks: u32,
    pub nlink: u32,
    pub index_block: u32,
}

/// The root directory of a device formatted with `layout`: owned by root,
/// one block long, timestamps zero, its index block the first data block.
pub open spec fn root_inode(layout: Layout) -> Inode {
    Inode {
        mode: ROOT_MODE,
        uid: 0,
        gid: 0,
        size: BLOCK_SIZE,
        ctime: 0,
        atime: 0,
        mtime: 0,
        blocks: 1,
        nlink: ROOT_NLINK,
        index_block: layout.first_data() as u32,
    }
}

/// The bytes of one inode record.
pub open spec fn inode_bytes(i: Inode) -> Seq<u8> {
    le32(i.mode) + le32(i.uid) + le32(i.gid) + le32(i.size) + le32(i.ctime) + le32(i.atime) + le32(
        i.mtime,
    ) + le32(i.blocks) + le32(i.nlink) + le32(i.index_block)
}

/// Block `k` of the inode store: the root inode then zeros in block 0, zeros
/// in every other block.
pub open spec fn inode_store_block_bytes(layout: Layout, k: int) -> Seq<u8> {
    if k == 0 {
        inode_bytes(root_inode(layout)) + zeros(BLOCK_SIZE - INODE_SIZE)
    } else {
        zeros(BLOCK_SIZE as int)
    }
}

impl Inode {
    /// The root directory's inode for a device formatted with `layout`; its
    /// index block is the first block after the bitmaps.
    pub fn root(layout: &Layout) -> (r: Inode)
        requires
            layout.wf(),
        ensures
            r == root_inode(*layout),
            r.index_block == 1 + layout.nr_bfree_blocks + layout.nr_ifree_blocks
                + layout.nr_istore_blocks,
    {
        Inode {
            mode: ROOT_MODE,
            uid: 0,
            gid: 0,
            size: BLOCK_SIZE,
            ctime: 0,
            atime: 0,
            mtime: 0,
            blocks: 1,
            nlink: ROOT_NLINK,
            index_block: layout.first_data_block(),
        }
    }

    /// The record's bytes, little-endian whatever the host.
    pub fn to_bytes(&self) -> (r: Vec<u8>)
        ensures
            r@ == inode_bytes(*self),
            r@.len() == INODE_SIZE,
    {
        let mut out: Vec<u8> = Vec::new();
        push_le32(&mut out, self.mode);
        push_le32(&mut out, self.uid);
        push_le32(&mut out, self.gid);
        push_le32(&mut out, self.size);
        push_le32(&mut out, self.ctime);
        push_le32(&mut out, self.atime);
        push_le32(&mut out, self.mtime);
        push_le32(&mut out, self.blocks);
        push_le32(&mut out, self.nlink);
        push_le32(&mut out, self.index_block);
        out
    }
}

/// Block `k` of the inode store of a device formatted with `layout`.
pub fn inode_store_block(layout: &Layout, k: u32) -> (r: Vec<u8>)
    requires
        layout.wf(),
        k < layout.nr_istore_blocks,
    ensures
        r@ == inode_store_block_bytes(*layout, k as int),
        r@.len() == BLOCK_SIZE,
{
    if k == 0 {
        let mut out = Inode::root(layout).to_bytes();
        push_zeros(&mut out, BLOCK_SIZE - INODE_SIZE);
        out
    } else {
        let mut out: Vec<u8> = Vec::new();
        push_zeros(&mut out, BLOCK_SIZE);
        assert(out@ =~= zeros(BLOCK_SIZE as int));
        out
    }
}

} // verus!
