//! Free bitmaps: one bit per resource, 1 meaning free, packed into 64-bit
//! words stored little-endian, so that bit `i` of a block is bit `i % 8` of
//! its byte `i / 8`.

use vstd::prelude::*;

use crate::layout::{lemma_ceil_div, lemma_layout_partition, Layout, BITS_PER_BLOCK, BLOCK_SIZE};
use vstd::set_lib::{lemma_int_range, set_int_range};

verus! {

/// Number of 64-bit words in one bitmap block.
pub const WORDS_PER_BLOCK: u32 = BLOCK_SIZE / 8;

/// Bit `p` of the word `x`.
pub open spec fn word_bit(x: u64, p: int) -> bool {
    (x >> (p as u64)) & 1u64 == 1u64
}

/// Bit `i` of a byte sequence: bit `i % 8` of byte `i / 8`.
pub open spec fn bit_of(bytes: Seq<u8>, i: int) -> bool {
    (bytes[i / 8] >> ((i % 8) as u8)) & 1u8 == 1u8
}

/// A word whose lowest `c` bits are cleared and whose other bits are set.
pub open spec fn word_with_cleared(c: int) -> u64 {
    if c <= 0 {
        u64::MAX
    } else if c >= 64 {
        0
    } else {
        u64::MAX << (c as u64)
    }
}

/// The words of a bitmap block whose lowest `cleared` bits are cleared and
/// whose other bits are set.
pub open spec fn bitmap_words(cleared: int) -> Seq<u64> {
    Seq::new(WORDS_PER_BLOCK as nat, |w: int| word_with_cleared(cleared - 64 * w))
}

/// The little-endian bytes of a sequence of words.
pub open spec fn le64_bytes(words: Seq<u64>) -> Seq<u8> {
    Seq::new(8 * words.len(), |i: int| (words[i / 8] >> ((8 * (i % 8)) as u64)) as u8)
}

/// The bytes of a bitmap block whose lowest `cleared` bits are cleared and
/// whose other bits are set.
pub open spec fn bitmap_block(cleared: int) -> Seq<u8> {
    le64_bytes(bitmap_words(cleared))
}

proof fn lemma_word_with_cleared_bit(c: int, p: int)
    requires
        0 <= p < 64,
    ensures
        word_bit(word_with_cleared(c), p) == (p >= c),
{
    let pp = p as u64;
    if c <= 0 {
        assert((u64::MAX >> pp) & 1u64 == 1u64) by (bit_vector)
            requires
                pp < 64,
        ;
    } else if c >= 64 {
        assert((0u64 >> pp) & 1u64 == 0u64) by (bit_vector);
    } else {
        let cc = c as u64;
        assert(((u64::MAX << cc) >> pp) & 1u64 == 1u64 <==> pp >= cc) by (bit_vector)
            requires
                pp < 64,
                0 < cc < 64,
        ;
    }
}

proof fn lemma_le64_bytes_bit(words: Seq<u64>, i: int)
    requires
        0 <= i < 64 * words.len(),
    ensures
        bit_of(le64_bytes(words), i) == word_bit(words[i / 64], i % 64),
{
    let bytes = le64_bytes(words);
    let x = words[i / 64];
    assert(i / 8 / 8 == i / 64);
    assert(8 * ((i / 8) % 8) + i % 8 == i % 64);
    let m = ((i / 8) % 8) as u64;
    let t = (i % 8) as u64;
    assert(bytes[i / 8] == (x >> (8 * m)) as u8);
    assert((((x >> (8 * m)) as u8) >> (t as u8)) & 1u8 == 1u8 <==> (x >> (8 * m + t)) & 1u64
        == 1u64) by (bit_vector)
        requires
            m < 8,
            t < 8,
    ;
}

/// Bit `i` of a bitmap block is clear exactly when `i < cleared`.
pub proof fn lemma_bitmap_block_bits(cleared: int)
    ensures
        bitmap_block(cleared).len() == BLOCK_SIZE,
        forall|i: int|
            0 <= i < BITS_PER_BLOCK ==> bit_of(bitmap_block(cleared), i) == (i >= cleared),
{
    assert forall|i: int| 0 <= i < BITS_PER_BLOCK implies bit_of(bitmap_block(cleared), i) == (i
        >= cleared) by {
        lemma_le64_bytes_bit(bitmap_words(cleared), i);
        lemma_word_with_cleared_bit(cleared - 64 * (i / 64), i % 64);
    }
}

/// Words of a bitmap block with its lowest `cleared` bits cleared, across
/// word boundaries, and all other bits set: whole words are cleared while 64
/// or more bits remain, then the low bits of one partial word.
pub fn low_cleared_words(cleared: u32) -> (r: Vec<u64>)
    ensures
        r@ == bitmap_words(cleared as int),
{
    let mut words: Vec<u64> = Vec::new();
    let mut remaining: u32 = cleared;
    let mut w: u32 = 0;
    while w < WORDS_PER_BLOCK
        invariant
            w <= WORDS_PER_BLOCK,
            words@.len() == w,
            remaining as int == if cleared >= 64 * w { cleared - 64 * w } else { 0 },
            forall|k: int| 0 <= k < w ==> words@[k] == word_with_cleared(cleared - 64 * k),
        decreases WORDS_PER_BLOCK - w,
    {
        let word: u64 = if remaining >= 64 {
            remaining = remaining - 64;
            0
        } else if remaining == 0 {
            u64::MAX
        } else {
            let partial = u64::MAX << (remaining as u64);
            remaining = 0;
            partial
        };
        words.push(word);
        w = w + 1;
    }
    assert(words@ =~= bitmap_words(cleared as int));
    words
}

/// The little-endian bytes of `words`.
pub fn words_to_le_bytes(words: &Vec<u64>) -> (r: Vec<u8>)
    requires
        8 * words@.len() <= usize::MAX,
    ensures
        r@ == le64_bytes(words@),
{
    let mut out: Vec<u8> = Vec::new();
    let mut w: usize = 0;
    while w < words.len()
        invariant
            w <= words@.len(),
            8 * words@.len() <= usize::MAX,
            out@.len() == 8 * w,
            forall|i: int|
                0 <= i < 8 * w ==> out@[i] == (words@[i / 8] >> ((8 * (i % 8)) as u64)) as u8,
        decreases words@.len() - w,
    {
        let x = words[w];
        let mut s: u64 = 0;
        while s < 8
            invariant
                w < words@.len(),
                x == words@[w as int],
                s <= 8,
                out@.len() == 8 * w + s,
                forall|i: int|
                    0 <= i < 8 * w + s ==> out@[i] == (words@[i / 8] >> ((8 * (i % 8)) as u64))
                        as u8,
            decreases 8 - s,
        {
            assert((8 * w + s) / 8 == w && (8 * w + s) % 8 == s);
            out.push((x >> (8 * s)) as u8);
            s = s + 1;
        }
        w = w + 1;
    }
    assert(out@ =~= le64_bytes(words@));
    out
}

/// A bitmap block whose lowest `cleared` bits are cleared and whose other
/// bits are set.
pub fn bitmap_block_bytes(cleared: u32) -> (r: Vec<u8>)
    ensures
        r@ == bitmap_block(cleared as int),
{
    let words = low_cleared_words(cleared);
    words_to_le_bytes(&words)
}


proof fn lemma_bitmap_block_clamp(c: int, d: int)
    requires
        c == d || (c <= 0 && d <= 0) || (c >= BITS_PER_BLOCK && d >= BITS_PER_BLOCK),
    ensures
        bitmap_block(c) == bitmap_block(d),
{
    assert(bitmap_words(c) =~= bitmap_words(d));
}

/// Number of inodes taken once formatted: the root (inode 0) and the reserved
/// inode 1.
pub const RESERVED_INODES: u32 = 2;

/// Block `k` of the inode-free bitmap.
pub open spec fn ifree_bitmap_block(k: int) -> Seq<u8> {
    bitmap_block(RESERVED_INODES - k * BITS_PER_BLOCK)
}

/// Block `k` of the block-free bitmap.
pub open spec fn bfree_bitmap_block(layout: Layout, k: int) -> Seq<u8> {
    bitmap_block(layout.used_blocks() - k * BITS_PER_BLOCK)
}

/// The blocks `0..n` of a bitmap region, one after the other.
pub open spec fn concat_blocks(n: int, block: spec_fn(int) -> Seq<u8>) -> Seq<u8> {
    Seq::new((n * BLOCK_SIZE) as nat, |b: int| block(b / BLOCK_SIZE as int)[b % BLOCK_SIZE as int])
}

/// The whole inode-free bitmap region.
pub open spec fn ifree_region(layout: Layout) -> Seq<u8> {
    concat_blocks(layout.nr_ifree_blocks as int, |k: int| ifree_bitmap_block(k))
}

/// The whole block-free bitmap region.
pub open spec fn bfree_region(layout: Layout) -> Seq<u8> {
    concat_blocks(layout.nr_bfree_blocks as int, |k: int| bfree_bitmap_block(layout, k))
}

/// Positions of the cleared bits of a region of `n` bitmap blocks.
pub open spec fn cleared_bits(region: Seq<u8>, n: int) -> Set<int> {
    Set::new(|i: int| 0 <= i < n * BITS_PER_BLOCK && !bit_of(region, i))
}

proof fn lemma_concat_bit(n: int, block: spec_fn(int) -> Seq<u8>, i: int)
    requires
        0 <= i < n * BITS_PER_BLOCK,
        forall|k: int| 0 <= k < n ==> #[trigger] block(k).len() == BLOCK_SIZE,
    ensures
        bit_of(concat_blocks(n, block), i) == bit_of(
            block(i / BITS_PER_BLOCK as int),
            i % BITS_PER_BLOCK as int,
        ),
{
    let j = i % BITS_PER_BLOCK as int;
    assert((i / 8) / 4096 == i / 32768);
    assert((i / 8) % 4096 == j / 8);
    assert(i % 8 == j % 8);
    assert(i / 32768 < n) by (nonlinear_arith)
        requires
            0 <= i < n * 32768,
    ;
}

/// Block `k` of the inode-free bitmap: bits 0 and 1 of block 0 cleared, all
/// others set.
pub fn ifree_block(layout: &Layout, k: u32) -> (r: Vec<u8>)
    requires
        layout.wf(),
        k < layout.nr_ifree_blocks,
    ensures
        r@ == ifree_bitmap_block(k as int),
{
    let cleared: u32 = if k == 0 {
        RESERVED_INODES
    } else {
        0
    };
    proof {
        lemma_bitmap_block_clamp(cleared as int, RESERVED_INODES - k * BITS_PER_BLOCK);
    }
    bitmap_block_bytes(cleared)
}

/// Block `k` of the block-free bitmap: the bits of the metadata blocks and of
/// the root directory's data block cleared, all others set.
pub fn bfree_block(layout: &Layout, k: u32) -> (r: Vec<u8>)
    requires
        layout.wf(),
        k < layout.nr_bfree_blocks,
    ensures
        r@ == bfree_bitmap_block(*layout, k as int),
{
    let used: u64 = layout.first_data_block() as u64 + 1;
    assert(k as u64 * 32768 <= u32::MAX as u64 * 32768) by (nonlinear_arith);
    let base: u64 = k as u64 * BITS_PER_BLOCK as u64;
    let cleared: u32 = if used <= base {
        0
    } else if used - base >= BITS_PER_BLOCK as u64 {
        BITS_PER_BLOCK
    } else {
        (used - base) as u32
    };
    proof {
        lemma_bitmap_block_clamp(cleared as int, layout.used_blocks() - k * BITS_PER_BLOCK);
    }
    bitmap_block_bytes(cleared)
}

/// The block-free bitmap clears exactly as many bits as blocks are in use
/// once formatted (the superblock, inode store, both bitmaps and the root's
/// data block), and those are its lowest-numbered bits.
pub proof fn lemma_bfree_marks_used_blocks(layout: Layout)
    requires
        layout.wf(),
    ensures
        layout.used_blocks() <= layout.nr_bfree_blocks * BITS_PER_BLOCK,
        bfree_region(layout).len() == layout.nr_bfree_blocks * BLOCK_SIZE,
        forall|i: int|
            0 <= i < layout.nr_bfree_blocks * BITS_PER_BLOCK ==> (bit_of(bfree_region(layout), i)
                <==> i >= layout.used_blocks()),
        cleared_bits(bfree_region(layout), layout.nr_bfree_blocks as int) == set_int_range(
            0,
            layout.used_blocks(),
        ),
        cleared_bits(bfree_region(layout), layout.nr_bfree_blocks as int).len()
            == layout.used_blocks(),
{
    let n = layout.nr_bfree_blocks as int;
    let used = layout.used_blocks();
    let block = |k: int| bfree_bitmap_block(layout, k);
    lemma_layout_partition(layout);
    lemma_ceil_div(layout.nr_blocks as int, BITS_PER_BLOCK as int);
    assert(used <= n * BITS_PER_BLOCK);
    assert forall|k: int| 0 <= k < n implies #[trigger] block(k).len() == BLOCK_SIZE by {
        lemma_bitmap_block_bits(used - k * BITS_PER_BLOCK);
    }
    assert forall|i: int| 0 <= i < n * BITS_PER_BLOCK implies (bit_of(bfree_region(layout), i)
        <==> i >= used) by {
        lemma_concat_bit(n, block, i);
        let k = i / BITS_PER_BLOCK as int;
        let j = i % BITS_PER_BLOCK as int;
        lemma_bitmap_block_bits(used - k * BITS_PER_BLOCK);
        assert(i == k * BITS_PER_BLOCK + j);
    }
    assert(cleared_bits(bfree_region(layout), n) =~= set_int_range(0, used));
    lemma_int_range(0, used);
}

/// The inode-free bitmap clears exactly two bits, bits 0 and 1 of its first
/// block: the root inode and the reserved inode.
pub proof fn lemma_ifree_marks_reserved_inodes(layout: Layout)
    requires
        layout.wf(),
    ensures
        ifree_region(layout).len() == layout.nr_ifree_blocks * BLOCK_SIZE,
        forall|i: int|
            0 <= i < layout.nr_ifree_blocks * BITS_PER_BLOCK ==> (bit_of(ifree_region(layout), i)
                <==> i >= RESERVED_INODES),
        cleared_bits(ifree_region(layout), layout.nr_ifree_blocks as int) == set![0int, 1int],
        cleared_bits(ifree_region(layout), layout.nr_ifree_blocks as int).len() == 2,
        !bit_of(ifree_bitmap_block(0), 0),
        !bit_of(ifree_bitmap_block(0), 1),
{
    let n = layout.nr_ifree_blocks as int;
    let block = |k: int| ifree_bitmap_block(k);
    lemma_layout_partition(layout);
    lemma_ceil_div(layout.nr_inodes as int, BITS_PER_BLOCK as int);
    assert forall|k: int| 0 <= k < n implies #[trigger] block(k).len() == BLOCK_SIZE by {
        lemma_bitmap_block_bits(RESERVED_INODES - k * BITS_PER_BLOCK);
    }
    assert forall|i: int| 0 <= i < n * BITS_PER_BLOCK implies (bit_of(ifree_region(layout), i)
        <==> i >= RESERVED_INODES) by {
        lemma_concat_bit(n, block, i);
        let k = i / BITS_PER_BLOCK as int;
        let j = i % BITS_PER_BLOCK as int;
        lemma_bitmap_block_bits(RESERVED_INODES - k * BITS_PER_BLOCK);
        assert(i == k * BITS_PER_BLOCK + j);
    }
    lemma_bitmap_block_bits(RESERVED_INODES as int);
    assert(cleared_bits(ifree_region(layout), n) =~= set_int_range(0, 2));
    assert(set_int_range(0, 2) =~= set![0int, 1int]);
    lemma_int_range(0, 2);
}

} // verus!
