//! Laying out a fresh volume: the region plan, the occupancy bitmaps, the
//! root inode and root directory, and the superblock that describes them.

use vstd::prelude::*;
use crate::arith::{ceil_div, ceil_div_spec};
use crate::dir::{build_root_dir_block, is_root_dir_bytes};
use crate::error::FormatError;
use crate::inode::{encodes_inode, inode_serialize128, DiskInode, INODE_RECORD_LEN};
use crate::superblock::{encodes, write_superblock_with_offsets, Superblock, BITMAP_LEN};

verus! {

/// Most blocks, and most inodes, that the one-block bitmaps can track.
pub const MAX_ENTRIES: u32 = 128;

/// Smallest block size supported.
pub const MIN_BLOCK_SIZE: u32 = 512;

/// Largest block size supported.
pub const MAX_BLOCK_SIZE: u32 = 65536;

/// Mode of the root directory: a directory with permissions `0755`.
pub const ROOT_MODE: u32 = 0o040755;

/// Size recorded for the root directory: its two entries of 260 bytes.
pub const ROOT_DIR_SIZE: u32 = 520;

/// Occupancy marker of a used slot, ASCII `'1'`.
pub const USED: u8 = 49;

/// Occupancy marker of a free slot, ASCII `'0'`.
pub const FREE: u8 = 48;

/// Where each region of a fresh volume goes, in blocks.
#[derive(Clone, Copy, Debug)]
pub struct Layout {
    pub block_size: u32,
    pub total_blocks: u32,
    pub total_inodes: u32,
    pub inode_bitmap_start: u32,
    pub inode_bitmap_blocks: u32,
    pub data_bitmap_start: u32,
    pub data_bitmap_blocks: u32,
    pub inode_table_start: u32,
    pub inode_table_blocks: u32,
    pub data_region_start: u32,
    /// Inode number of the root directory.
    pub root_inode: u32,
    /// The data block that holds the root directory's entries.
    pub root_dir_block: u32,
}

/// The requested capacity can be laid out: why not, if not.
pub open spec fn layout_error(block_size: u32, total_blocks: u32, total_inodes: u32) -> Option<
    FormatError,
> {
    if total_blocks > MAX_ENTRIES || total_inodes > MAX_ENTRIES {
        Some(FormatError::CapacityOutOfRange)
    } else if block_size < MIN_BLOCK_SIZE || block_size > MAX_BLOCK_SIZE {
        Some(FormatError::BlockSizeOutOfRange)
    } else if 3 + ceil_div_spec(total_inodes * 128, block_size as int) >= total_blocks {
        Some(FormatError::NoDataRegion)
    } else {
        None
    }
}

/// The fixed plan: superblock in block 0, one block for each bitmap, the
/// inode table next, then the data region, whose first block holds the root
/// directory.
pub open spec fn is_layout_of(l: Layout, block_size: u32, total_blocks: u32, total_inodes: u32) -> bool {
    &&& l.block_size == block_size
    &&& l.total_blocks == total_blocks
    &&& l.total_inodes == total_inodes
    &&& l.inode_bitmap_start == 1
    &&& l.inode_bitmap_blocks == 1
    &&& l.data_bitmap_start == 2
    &&& l.data_bitmap_blocks == 1
    &&& l.inode_table_start == 3
    &&& l.inode_table_blocks == ceil_div_spec(total_inodes * 128, block_size as int)
    &&& l.data_region_start == 3 + l.inode_table_blocks
    &&& l.root_inode == 0
    &&& l.root_dir_block == l.data_region_start
}

/// Checks the requested capacity and places the regions.
pub fn plan_layout(block_size: u32, total_blocks: u32, total_inodes: u32) -> (r: Result<Layout, FormatError>)
    ensures
        layout_error(block_size, total_blocks, total_inodes) matches Some(e) ==> r == Err::<
            Layout,
            FormatError,
        >(e),
        layout_error(block_size, total_blocks, total_inodes) is None ==> r is Ok && is_layout_of(
            r->Ok_0,
            block_size,
            total_blocks,
            total_inodes,
        ),
{
    if total_blocks > MAX_ENTRIES || total_inodes > MAX_ENTRIES {
        return Err(FormatError::CapacityOutOfRange);
    }
    if block_size < MIN_BLOCK_SIZE || block_size > MAX_BLOCK_SIZE {
        return Err(FormatError::BlockSizeOutOfRange);
    }
    let inode_bitmap_start: u32 = 1;
    let inode_bitmap_blocks: u32 = 1;
    let data_bitmap_start: u32 = inode_bitmap_start + inode_bitmap_blocks;
    let data_bitmap_blocks: u32 = 1;
    let inode_table_start: u32 = data_bitmap_start + data_bitmap_blocks;
    let inode_table_blocks = ceil_div(total_inodes * 128, block_size);
    assert(inode_table_blocks <= total_inodes * 128) by (nonlinear_arith)
        requires
            inode_table_blocks == (total_inodes * 128 + block_size - 1) / block_size as int,
            block_size >= 512,
    ;
    let data_region_start = inode_table_start + inode_table_blocks;
    if data_region_start >= total_blocks {
        return Err(FormatError::NoDataRegion);
    }
    Ok(Layout {
        block_size,
        total_blocks,
        total_inodes,
        inode_bitmap_start,
        inode_bitmap_blocks,
        data_bitmap_start,
        data_bitmap_blocks,
        inode_table_start,
        inode_table_blocks,
        data_region_start,
        root_inode: 0,
        root_dir_block: data_region_start,
    })
}

/// The inode bitmap of a fresh volume: only the root inode's slot is used.
pub fn build_inode_bitmap(root_inode: u32) -> (r: [u8; 128])
    requires
        root_inode < BITMAP_LEN,
    ensures
        forall|i: int| 0 <= i < BITMAP_LEN ==> r@[i] == if i == root_inode { USED } else { FREE },
{
    let mut bm = [FREE; 128];
    bm[root_inode as usize] = USED;
    bm
}

/// The data bitmap of a fresh volume: the superblock, both bitmaps, the
/// inode table and the root directory's block are used. With the regions
/// packed from block 0 those are exactly the blocks up to the root
/// directory's.
pub fn build_data_bitmap(l: &Layout) -> (r: [u8; 128])
    requires
        l.inode_bitmap_start == 1,
        l.inode_bitmap_blocks == 1,
        l.data_bitmap_start == 2,
        l.data_bitmap_blocks == 1,
        l.inode_table_start == 3,
        l.data_region_start == 3 + l.inode_table_blocks,
        l.root_dir_block == l.data_region_start,
        l.data_region_start < BITMAP_LEN,
    ensures
        forall|i: int| 0 <= i < BITMAP_LEN ==> r@[i] == if i <= l.data_region_start { USED } else { FREE },
{
    let mut bm = [FREE; 128];
    bm[0] = USED;
    mark_used(&mut bm, l.inode_bitmap_start, l.inode_bitmap_start + l.inode_bitmap_blocks);
    mark_used(&mut bm, l.data_bitmap_start, l.data_bitmap_start + l.data_bitmap_blocks);
    mark_used(&mut bm, l.inode_table_start, l.inode_table_start + l.inode_table_blocks);
    bm[l.root_dir_block as usize] = USED;
    bm
}

/// Marks the blocks `lo..hi` used, leaving every other entry as it was.
fn mark_used(bm: &mut [u8; 128], lo: u32, hi: u32)
    requires
        lo <= hi <= BITMAP_LEN,
    ensures
        forall|i: int|
            0 <= i < BITMAP_LEN ==> final(bm)@[i] == if lo <= i < hi { USED } else { old(bm)@[i] },
{
    let mut b = lo;
    while b < hi
        invariant
            lo <= b <= hi <= BITMAP_LEN,
            forall|i: int|
                0 <= i < BITMAP_LEN ==> bm@[i] == if lo <= i < b { USED } else { old(bm)@[i] },
        decreases hi - b,
    {
        bm[b as usize] = USED;
        b = b + 1;
    }
}

/// A whole block whose first bytes are `prefix` and the rest zero.
fn block_with_prefix(block_size: u32, prefix: &[u8]) -> (r: Vec<u8>)
    requires
        prefix@.len() <= block_size,
    ensures
        r@.len() == block_size,
        r@.subrange(0, prefix@.len() as int) == prefix@,
        forall|i: int| prefix@.len() <= i < block_size ==> r@[i] == 0u8,
{
    let mut buf: Vec<u8> = vec![0u8; block_size as usize];
    let n = prefix.len();
    let mut i: usize = 0;
    while i < n
        invariant
            i <= n,
            n == prefix@.len(),
            n <= block_size,
            buf@.len() == block_size,
            forall|k: int| 0 <= k < i ==> buf@[k] == prefix@[k],
            forall|k: int| n <= k < block_size ==> buf@[k] == 0u8,
        decreases n - i,
    {
        buf.set(i, prefix[i]);
        i = i + 1;
    }
    assert(buf@.subrange(0, n as int) =~= prefix@);
    buf
}

/// One block to store on the new volume.
pub struct BlockWrite {
    pub index: u32,
    pub bytes: Vec<u8>,
}

/// A fresh volume: its plan, and the blocks to store over zero-filled
/// blocks, in the order they are to be written (the superblock last).
pub struct FormattedVolume {
    pub layout: Layout,
    pub inode_bitmap: [u8; 128],
    pub data_bitmap: [u8; 128],
    pub writes: Vec<BlockWrite>,
}

/// The root inode of a fresh volume.
pub open spec fn is_root_inode(d: DiskInode, l: Layout) -> bool {
    &&& d.inode_number == l.root_inode
    &&& d.inode_mode == ROOT_MODE
    &&& d.user_id == 0
    &&& d.group_id == 0
    &&& d.links == 2
    &&& d.size == ROOT_DIR_SIZE
    &&& d.direct@[0] == l.root_dir_block
    &&& forall|k: int| 1 <= k < 12 ==> d.direct@[k] == 0
    &&& d.indirect1 == 0
}

/// `b` is a block of `l.block_size` bytes whose first 128 are `bm` and the
/// rest zero.
pub open spec fn is_bitmap_block(b: Seq<u8>, bm: Seq<u8>, l: Layout) -> bool {
    &&& b.len() == l.block_size
    &&& b.subrange(0, 128) == bm
    &&& forall|i: int| 128 <= i < b.len() ==> b[i] == 0u8
}

/// `b` is the root directory's block: `"."` and `".."` in its first two
/// slots, both naming the root inode, the rest zero.
pub open spec fn is_root_dir_block(b: Seq<u8>, l: Layout) -> bool {
    &&& b.len() == l.block_size
    &&& is_root_dir_bytes(b, l.block_size as int, l.root_inode)
}

/// The superblock of the fresh volume laid out by `l`.
pub open spec fn fresh_superblock(sb: Superblock, l: Layout, ib: Seq<u8>, db: Seq<u8>) -> bool {
    &&& sb.version == 1
    &&& sb.block_size == l.block_size
    &&& sb.total_blocks == l.total_blocks
    &&& sb.total_inodes == l.total_inodes
    &&& sb.inode_bitmap@ == ib
    &&& sb.data_bitmap@ == db
    &&& sb.root_inode == l.root_inode
    &&& sb.inode_bitmap_start == l.inode_bitmap_start
    &&& sb.inode_bitmap_blocks == l.inode_bitmap_blocks
    &&& sb.data_bitmap_start == l.data_bitmap_start
    &&& sb.data_bitmap_blocks == l.data_bitmap_blocks
    &&& sb.inode_table_start == l.inode_table_start
    &&& sb.inode_table_blocks == l.inode_table_blocks
    &&& sb.data_region_start == l.data_region_start
}

/// Lays out a fresh volume of `total_blocks` blocks of `block_size` bytes
/// with `total_inodes` inode slots: the inode bitmap, the data bitmap, the
/// first block of the inode table holding the root inode, the root
/// directory's block and, last, the superblock.
pub fn format_volume(block_size: u32, total_blocks: u32, total_inodes: u32) -> (r: Result<FormattedVolume, FormatError>)
    ensures
        layout_error(block_size, total_blocks, total_inodes) matches Some(e) ==> r matches Err(x)
            && x == e,
        layout_error(block_size, total_blocks, total_inodes) is None ==> r is Ok && {
            let v = r->Ok_0;
            let l = v.layout;
            let w = v.writes@;
            &&& is_layout_of(l, block_size, total_blocks, total_inodes)
            &&& forall|i: int|
                0 <= i < BITMAP_LEN ==> v.inode_bitmap@[i] == if i == 0 { USED } else { FREE }
            &&& forall|i: int|
                0 <= i < BITMAP_LEN ==> v.data_bitmap@[i] == if i <= l.data_region_start {
                    USED
                } else {
                    FREE
                }
            &&& w.len() == 5
            &&& w[0].index == l.inode_bitmap_start
            &&& is_bitmap_block(w[0].bytes@, v.inode_bitmap@, l)
            &&& w[1].index == l.data_bitmap_start
            &&& is_bitmap_block(w[1].bytes@, v.data_bitmap@, l)
            &&& w[2].index == l.inode_table_start
            &&& w[2].bytes@.len() == block_size
            &&& exists|d: DiskInode|
                is_root_inode(d, l) && encodes_inode(#[trigger] w[2].bytes@.subrange(0, 128), d)
            &&& forall|i: int| 128 <= i < block_size ==> w[2].bytes@[i] == 0u8
            &&& w[3].index == l.root_dir_block
            &&& is_root_dir_block(w[3].bytes@, l)
            &&& w[4].index == 0
            &&& exists|sb: Superblock|
                fresh_superblock(sb, l, v.inode_bitmap@, v.data_bitmap@) && encodes(
                    #[trigger] w[4].bytes@,
                    sb,
                )
        },
{
    let l = plan_layout(block_size, total_blocks, total_inodes)?;
    let inode_bitmap = build_inode_bitmap(l.root_inode);
    let data_bitmap = build_data_bitmap(&l);
    let mut writes: Vec<BlockWrite> = Vec::new();
    writes.push(
        BlockWrite { index: l.inode_bitmap_start, bytes: block_with_prefix(block_size, &inode_bitmap) },
    );
    writes.push(
        BlockWrite { index: l.data_bitmap_start, bytes: block_with_prefix(block_size, &data_bitmap) },
    );
    let mut direct = [0u32; 12];
    direct[0] = l.root_dir_block;
    let mut rec: Vec<u8> = vec![0u8; INODE_RECORD_LEN];
    inode_serialize128(&mut rec, l.root_inode, ROOT_MODE, 0, 0, 2, ROOT_DIR_SIZE, &direct, 0);
    let ghost root = DiskInode {
        inode_number: l.root_inode,
        inode_mode: ROOT_MODE,
        user_id: 0,
        group_id: 0,
        links: 2,
        size: ROOT_DIR_SIZE,
        direct,
        indirect1: 0,
    };
    let table0 = block_with_prefix(block_size, rec.as_slice());
    assert(is_root_inode(root, l));
    assert(encodes_inode(table0@.subrange(0, 128), root));
    writes.push(BlockWrite { index: l.inode_table_start, bytes: table0 });
    let mut dirblk: Vec<u8> = vec![0u8; block_size as usize];
    build_root_dir_block(&mut dirblk, block_size as usize, l.root_inode);
    writes.push(BlockWrite { index: l.root_dir_block, bytes: dirblk });
    let sbb = write_superblock_with_offsets(
        block_size,
        total_blocks,
        total_inodes,
        &inode_bitmap,
        &data_bitmap,
        l.root_inode,
        l.inode_bitmap_start,
        l.inode_bitmap_blocks,
        l.data_bitmap_start,
        l.data_bitmap_blocks,
        l.inode_table_start,
        l.inode_table_blocks,
        l.data_region_start,
    );
    let ghost sb = Superblock {
        version: 1,
        block_size,
        total_blocks,
        total_inodes,
        inode_bitmap,
        data_bitmap,
        root_inode: l.root_inode,
        inode_bitmap_start: l.inode_bitmap_start,
        inode_bitmap_blocks: l.inode_bitmap_blocks,
        data_bitmap_start: l.data_bitmap_start,
        data_bitmap_blocks: l.data_bitmap_blocks,
        inode_table_start: l.inode_table_start,
        inode_table_blocks: l.inode_table_blocks,
        data_region_start: l.data_region_start,
    };
    assert(fresh_superblock(sb, l, inode_bitmap@, data_bitmap@));
    writes.push(BlockWrite { index: 0, bytes: sbb });
    assert(writes@.len() == 5);
    assert(is_bitmap_block(writes@[0].bytes@, inode_bitmap@, l));
    assert(is_bitmap_block(writes@[1].bytes@, data_bitmap@, l));
    assert(encodes_inode(writes@[2].bytes@.subrange(0, 128), root));
    assert(is_root_dir_block(writes@[3].bytes@, l));
    assert(encodes(writes@[4].bytes@, sb));
    Ok(FormattedVolume { layout: l, inode_bitmap, data_bitmap, writes })
}

} // verus!
