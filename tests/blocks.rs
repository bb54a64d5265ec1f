use mkfs::codec::{push_le32, read_le32};
use mkfs::image::metadata_block;
use mkfs::inode::{inode_store_block, Inode, ROOT_MODE};
use mkfs::layout::plan_blocks;
use mkfs::superblock::{superblock_block, Superblock, MAGIC};

fn le32(b: &[u8], at: usize) -> u32 {
    u32::from_le_bytes([b[at], b[at + 1], b[at + 2], b[at + 3]])
}

#[test]
fn le32_encoding() {
    let mut v = vec![9u8];
    push_le32(&mut v, 0x1234_5678);
    assert_eq!(v, vec![9, 0x78, 0x56, 0x34, 0x12]);
    assert_eq!(read_le32(&v, 1), 0x1234_5678);
    assert_eq!(read_le32(&[0xFF, 0xFF, 0xFF, 0xFF], 0), u32::MAX);
}

#[test]
fn superblock_bytes_of_minimum_device() {
    let l = plan_blocks(100).unwrap();
    let b = superblock_block(&l);
    assert_eq!(b.len(), 4096);
    assert_eq!(&b[0..4], b"WICH");
    assert_eq!(le32(&b, 0), MAGIC);
    let fields: Vec<u32> = (1..8).map(|i| le32(&b, 4 * i)).collect();
    assert_eq!(fields, vec![100, 102, 1, 1, 1, 101, 95]);
    assert!(b[32..].iter().all(|&x| x == 0));
}

#[test]
fn superblock_round_trip() {
    for blocks in [100u64, 1000, 70_000, 4_000_000] {
        let l = plan_blocks(blocks).unwrap();
        let sb = Superblock::from_layout(&l);
        let parsed = Superblock::parse(&sb.to_bytes()).unwrap();
        assert_eq!(parsed, sb);
        assert_eq!(parsed.layout(), Some(l));
    }
}

#[test]
fn superblock_parse_rejects() {
    let l = plan_blocks(100).unwrap();
    let mut b = superblock_block(&l);
    assert!(Superblock::parse(&b[..4095]).is_none());
    b[0] = b'X';
    assert!(Superblock::parse(&b).is_none());
}

#[test]
fn superblock_layout_rejects_inconsistent_counts() {
    let l = plan_blocks(1000).unwrap();
    let mut sb = Superblock::from_layout(&l);
    sb.nr_free_blocks += 1;
    assert_eq!(sb.layout(), None);
    let mut sb = Superblock::from_layout(&l);
    sb.nr_blocks = 50;
    assert_eq!(sb.layout(), None);
}

#[test]
fn root_inode_fields() {
    let l = plan_blocks(100).unwrap();
    let root = Inode::root(&l);
    assert_eq!(root.mode, 0o040775);
    assert_eq!(root.mode, ROOT_MODE);
    assert_eq!((root.uid, root.gid), (0, 0));
    assert_eq!(root.size, 4096);
    assert_eq!((root.ctime, root.atime, root.mtime), (0, 0, 0));
    assert_eq!(root.blocks, 1);
    assert_eq!(root.nlink, 2);
    assert_eq!(root.index_block, 4);
    assert_eq!(
        root.index_block,
        1 + l.nr_bfree_blocks + l.nr_ifree_blocks + l.nr_istore_blocks
    );
}

#[test]
fn root_inode_bytes() {
    let l = plan_blocks(4_000_000).unwrap();
    let b = Inode::root(&l).to_bytes();
    assert_eq!(b.len(), 40);
    assert_eq!(&b[0..4], &[0xFD, 0x41, 0, 0]);
    assert_eq!(le32(&b, 12), 4096);
    assert_eq!(le32(&b, 28), 1);
    assert_eq!(le32(&b, 32), 2);
    assert_eq!(le32(&b, 36), 1 + 39_216 + 123 + 123);
}

#[test]
fn inode_store_blocks() {
    let l = plan_blocks(1000).unwrap();
    let first = inode_store_block(&l, 0);
    assert_eq!(first.len(), 4096);
    assert_eq!(&first[..40], &Inode::root(&l).to_bytes()[..]);
    assert!(first[40..].iter().all(|&x| x == 0));
    for k in 1..l.nr_istore_blocks {
        let b = inode_store_block(&l, k);
        assert_eq!(b.len(), 4096);
        assert!(b.iter().all(|&x| x == 0));
    }
}

#[test]
fn metadata_region_in_order() {
    let l = plan_blocks(100).unwrap();
    let n = l.first_data_block();
    assert_eq!(n, 4);
    let blocks: Vec<Vec<u8>> = (0..n).map(|i| metadata_block(&l, i)).collect();
    assert!(blocks.iter().all(|b| b.len() == 4096));
    assert_eq!(&blocks[0][0..4], b"WICH");
    assert_eq!(le32(&blocks[1], 36), 4);
    assert_eq!(blocks[2][0], 0xFC);
    assert_eq!(blocks[3][0], 0xE0);
}

#[test]
fn metadata_region_boundaries() {
    let l = plan_blocks(70_000).unwrap();
    let first_ifree = 1 + l.nr_istore_blocks;
    let first_bfree = first_ifree + l.nr_ifree_blocks;
    assert_eq!(metadata_block(&l, 1), inode_store_block(&l, 0));
    assert!(metadata_block(&l, first_ifree - 1).iter().all(|&x| x == 0));
    assert_eq!(metadata_block(&l, first_ifree)[0], 0xFC);
    assert_eq!(metadata_block(&l, first_ifree + 1)[0], 0xFF);
    assert_eq!(metadata_block(&l, first_bfree)[0], 0x00);
    let last = metadata_block(&l, l.first_data_block() - 1);
    assert!(last.iter().all(|&x| x == 0xFF));
}
