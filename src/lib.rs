//! Formatting of a block device with the on-disk layout of a small
//! filesystem: superblock, inode store, inode-free bitmap, block-free bitmap,
//! followed by the data region that starts with the root directory's block.
//!
//! Every block of the metadata region is computed here as a plain byte
//! vector; writing them out is left to the caller.

pub mod codec;
pub mod layout;
pub mod bitmap;
pub mod superblock;
pub mod inode;
pub mod image;
