use mkfs::layout::{plan_blocks, plan_layout, Layout, LayoutError, BLOCK_SIZE, INODES_PER_BLOCK, MIN_BLOCKS};
use mkfs::superblock::Superblock;

fn check_partition(l: &Layout) {
    assert_eq!(
        1 + l.nr_istore_blocks as u64
            + l.nr_ifree_blocks as u64
            + l.nr_bfree_blocks as u64
            + l.nr_data_blocks as u64,
        l.nr_blocks as u64
    );
    assert!(l.nr_data_blocks >= 1);
    assert!(l.nr_istore_blocks as u64 * INODES_PER_BLOCK as u64 >= l.nr_inodes as u64);
    assert!(l.nr_inodes >= l.nr_blocks);
    assert_eq!(l.nr_inodes % INODES_PER_BLOCK, 0);
}

#[test]
fn minimum_device_layout() {
    let l = plan_layout(100 * 4096).unwrap();
    assert_eq!(l.nr_blocks, 100);
    assert_eq!(l.nr_inodes, 102);
    assert_eq!(l.nr_istore_blocks, 1);
    assert_eq!(l.nr_ifree_blocks, 1);
    assert_eq!(l.nr_bfree_blocks, 1);
    assert_eq!(l.nr_data_blocks, 96);
    assert_eq!(l.first_data_block(), 4);
    check_partition(&l);
    let sb = Superblock::from_layout(&l);
    assert_eq!(sb.nr_free_inodes, l.nr_inodes - 1);
    assert_eq!(sb.nr_free_blocks, l.nr_data_blocks - 1);
    assert_eq!(sb.nr_free_inodes, 101);
    assert_eq!(sb.nr_free_blocks, 95);
}

#[test]
fn below_minimum_is_refused() {
    assert_eq!(plan_layout(100 * 4096 - 1), Err(LayoutError::TooSmall));
    assert_eq!(plan_layout(99 * 4096), Err(LayoutError::TooSmall));
    assert_eq!(plan_layout(0), Err(LayoutError::TooSmall));
    assert_eq!(plan_blocks(MIN_BLOCKS as u64 - 1), Err(LayoutError::TooSmall));
}

#[test]
fn partial_block_is_ignored() {
    let l = plan_layout(100 * 4096 + 4095).unwrap();
    assert_eq!(l.nr_blocks, 100);
    assert_eq!(l, plan_layout(100 * 4096).unwrap());
}

#[test]
fn inode_count_rounds_up_to_whole_blocks() {
    let l = plan_blocks(1000).unwrap();
    assert_eq!(l.nr_inodes, 1020);
    assert_eq!(l.nr_istore_blocks, 10);
    let l = plan_blocks(102 * 7).unwrap();
    assert_eq!(l.nr_inodes, 714);
    assert_eq!(l.nr_istore_blocks, 7);
}

#[test]
fn bitmap_counts_use_ceiling_division() {
    let l = plan_blocks(32768).unwrap();
    assert_eq!(l.nr_bfree_blocks, 1);
    assert_eq!(l.nr_inodes, 32844);
    assert_eq!(l.nr_ifree_blocks, 2);
    let l = plan_blocks(32769).unwrap();
    assert_eq!(l.nr_bfree_blocks, 2);
    check_partition(&l);
}

#[test]
fn large_device_layout() {
    let l = plan_blocks(4_000_000).unwrap();
    assert_eq!(l.nr_inodes, 4_000_032);
    assert_eq!(l.nr_istore_blocks, 39_216);
    assert_eq!(l.nr_ifree_blocks, 123);
    assert_eq!(l.nr_bfree_blocks, 123);
    assert_eq!(l.nr_data_blocks, 4_000_000 - 1 - 39_216 - 123 - 123);
    check_partition(&l);
}

#[test]
fn partition_holds_for_many_sizes() {
    for blocks in [100u64, 101, 102, 103, 204, 205, 4096, 65536, 65537, 1 << 20, 12_345_678] {
        let l = plan_blocks(blocks).unwrap();
        assert_eq!(l.nr_blocks as u64, blocks);
        check_partition(&l);
    }
    let l = plan_layout(BLOCK_SIZE as u64 * 777).unwrap();
    check_partition(&l);
}

#[test]
fn largest_device_layout() {
    let l = plan_blocks(4_294_967_244).unwrap();
    assert_eq!(l.nr_inodes, 4_294_967_244);
    check_partition(&l);
    assert_eq!(plan_blocks(4_294_967_245), Err(LayoutError::TooLarge));
    assert_eq!(plan_blocks(u32::MAX as u64), Err(LayoutError::TooLarge));
    assert_eq!(plan_blocks(u64::MAX), Err(LayoutError::TooLarge));
    assert_eq!(plan_layout(u64::MAX), Err(LayoutError::TooLarge));
}

#[test]
fn free_counts() {
    let l = plan_blocks(1000).unwrap();
    assert_eq!(l.nr_free_inodes(), 1019);
    assert_eq!(l.nr_free_blocks(), l.nr_data_blocks - 1);
}
