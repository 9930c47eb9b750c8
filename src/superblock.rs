//! Block 0: the volume-wide descriptor and its byte layout.

use vstd::prelude::*;
use crate::bytes::{holds_u32, lemma_u32_round_trip, u32_at, u32le_from, u32le_write};
use crate::error::FormatError;

verus! {

/// Bytes that the fixed fields of the superblock occupy.
pub const SUPERBLOCK_LEN: usize = 308;

/// Entries in each occupancy bitmap.
pub const BITMAP_LEN: usize = 128;

/// The volume descriptor stored in block 0. All offsets and sizes count blocks.
#[derive(Clone, Copy, Debug)]
pub struct Superblock {
    pub version: u32,
    pub block_size: u32,
    pub total_blocks: u32,
    pub total_inodes: u32,
    /// One ASCII `'0'` or `'1'` per inode slot.
    pub inode_bitmap: [u8; 128],
    /// One ASCII `'0'` or `'1'` per block.
    pub data_bitmap: [u8; 128],
    pub root_inode: u32,
    pub inode_bitmap_start: u32,
    pub inode_bitmap_blocks: u32,
    pub data_bitmap_start: u32,
    pub data_bitmap_blocks: u32,
    pub inode_table_start: u32,
    pub inode_table_blocks: u32,
    pub data_region_start: u32,
}

/// `b` starts with the tag `"QRFS"`.
pub open spec fn has_magic(b: Seq<u8>) -> bool {
    &&& b.len() >= 4
    &&& b[0] == 81u8
    &&& b[1] == 82u8
    &&& b[2] == 70u8
    &&& b[3] == 83u8
}

/// Every field of `sb` is the one stored at its offset in `b`.
pub open spec fn describes(sb: Superblock, b: Seq<u8>) -> bool {
    &&& b.len() >= SUPERBLOCK_LEN
    &&& sb.version == u32_at(b, 4)
    &&& sb.block_size == u32_at(b, 8)
    &&& sb.total_blocks == u32_at(b, 12)
    &&& sb.total_inodes == u32_at(b, 16)
    &&& sb.inode_bitmap@ == b.subrange(20, 148)
    &&& sb.data_bitmap@ == b.subrange(148, 276)
    &&& sb.root_inode == u32_at(b, 276)
    &&& sb.inode_bitmap_start == u32_at(b, 280)
    &&& sb.inode_bitmap_blocks == u32_at(b, 284)
    &&& sb.data_bitmap_start == u32_at(b, 288)
    &&& sb.data_bitmap_blocks == u32_at(b, 292)
    &&& sb.inode_table_start == u32_at(b, 296)
    &&& sb.inode_table_blocks == u32_at(b, 300)
    &&& sb.data_region_start == u32_at(b, 304)
}

/// `b` is the stored form of `sb`: one zero-filled block holding the magic
/// tag and every field at its offset.
pub open spec fn encodes(b: Seq<u8>, sb: Superblock) -> bool {
    &&& b.len() == sb.block_size
    &&& has_magic(b)
    &&& holds_u32(b, 4, sb.version)
    &&& holds_u32(b, 8, sb.block_size)
    &&& holds_u32(b, 12, sb.total_blocks)
    &&& holds_u32(b, 16, sb.total_inodes)
    &&& b.subrange(20, 148) == sb.inode_bitmap@
    &&& b.subrange(148, 276) == sb.data_bitmap@
    &&& holds_u32(b, 276, sb.root_inode)
    &&& holds_u32(b, 280, sb.inode_bitmap_start)
    &&& holds_u32(b, 284, sb.inode_bitmap_blocks)
    &&& holds_u32(b, 288, sb.data_bitmap_start)
    &&& holds_u32(b, 292, sb.data_bitmap_blocks)
    &&& holds_u32(b, 296, sb.inode_table_start)
    &&& holds_u32(b, 300, sb.inode_table_blocks)
    &&& holds_u32(b, 304, sb.data_region_start)
    &&& forall|i: int| SUPERBLOCK_LEN <= i < b.len() ==> b[i] == 0u8
}

/// Copies the 128 bytes at `at` into a bitmap.
fn copy_bitmap(b: &[u8], at: usize) -> (r: [u8; 128])
    requires
        at + BITMAP_LEN <= b@.len(),
    ensures
        r@ == b@.subrange(at as int, at + BITMAP_LEN),
{
    let n = b.len();
    let mut r = [0u8; 128];
    let mut i: usize = 0;
    while i < BITMAP_LEN
        invariant
            i <= BITMAP_LEN,
            at + BITMAP_LEN <= n,
            n == b@.len(),
            r@.len() == BITMAP_LEN,
            forall|k: int| 0 <= k < i ==> r@[k] == b@[at + k],
        decreases BITMAP_LEN - i,
    {
        r[i] = b[at + i];
        i = i + 1;
    }
    assert(r@ =~= b@.subrange(at as int, at + BITMAP_LEN));
    r
}

/// Reads a field of the superblock.
fn field_at(b: &[u8], at: usize) -> (r: u32)
    requires
        at + 4 <= b.len(),
    ensures
        r == u32_at(b@, at as int),
{
    u32le_from(&b[at..at + 4])
}

impl Superblock {
    /// Decodes block 0. Only the size and the magic tag are checked: the
    /// layout offsets are taken as stored.
    pub fn parse(b: &[u8]) -> (r: Result<Superblock, FormatError>)
        ensures
            b@.len() < SUPERBLOCK_LEN ==> r == Err::<Superblock, FormatError>(FormatError::TooSmall),
            b@.len() >= SUPERBLOCK_LEN && !has_magic(b@) ==> r == Err::<Superblock, FormatError>(
                FormatError::BadMagic,
            ),
            b@.len() >= SUPERBLOCK_LEN && has_magic(b@) ==> r is Ok && describes(r->Ok_0, b@),
    {
        if b.len() < SUPERBLOCK_LEN {
            return Err(FormatError::TooSmall);
        }
        if !(b[0] == 81u8 && b[1] == 82u8 && b[2] == 70u8 && b[3] == 83u8) {
            return Err(FormatError::BadMagic);
        }
        let sb = Superblock {
            version: field_at(b, 4),
            block_size: field_at(b, 8),
            total_blocks: field_at(b, 12),
            total_inodes: field_at(b, 16),
            inode_bitmap: copy_bitmap(b, 20),
            data_bitmap: copy_bitmap(b, 148),
            root_inode: field_at(b, 276),
            inode_bitmap_start: field_at(b, 280),
            inode_bitmap_blocks: field_at(b, 284),
            data_bitmap_start: field_at(b, 288),
            data_bitmap_blocks: field_at(b, 292),
            inode_table_start: field_at(b, 296),
            inode_table_blocks: field_at(b, 300),
            data_region_start: field_at(b, 304),
        };
        Ok(sb)
    }

    /// Encodes the descriptor into one zero-filled block of `block_size` bytes.
    pub fn serialize(&self) -> (r: Vec<u8>)
        requires
            self.block_size >= SUPERBLOCK_LEN,
        ensures
            encodes(r@, *self),
    {
        let mut buf: Vec<u8> = vec![0u8; self.block_size as usize];
        buf.set(0, 81u8);
        buf.set(1, 82u8);
        buf.set(2, 70u8);
        buf.set(3, 83u8);
        u32le_write(self.version, &mut buf, 4);
        u32le_write(self.block_size, &mut buf, 8);
        u32le_write(self.total_blocks, &mut buf, 12);
        u32le_write(self.total_inodes, &mut buf, 16);
        write_bitmap(&mut buf, 20, &self.inode_bitmap);
        write_bitmap(&mut buf, 148, &self.data_bitmap);
        u32le_write(self.root_inode, &mut buf, 276);
        u32le_write(self.inode_bitmap_start, &mut buf, 280);
        u32le_write(self.inode_bitmap_blocks, &mut buf, 284);
        u32le_write(self.data_bitmap_start, &mut buf, 288);
        u32le_write(self.data_bitmap_blocks, &mut buf, 292);
        u32le_write(self.inode_table_start, &mut buf, 296);
        u32le_write(self.inode_table_blocks, &mut buf, 300);
        u32le_write(self.data_region_start, &mut buf, 304);
        assert(buf@.subrange(20, 148) =~= self.inode_bitmap@);
        assert(buf@.subrange(148, 276) =~= self.data_bitmap@);
        buf
    }
}

/// Copies a bitmap into `buf[at..at + 128]`, leaving every other byte as it was.
fn write_bitmap(buf: &mut Vec<u8>, at: usize, bm: &[u8; 128])
    requires
        at + BITMAP_LEN <= old(buf)@.len(),
    ensures
        final(buf)@.len() == old(buf)@.len(),
        forall|k: int| 0 <= k < BITMAP_LEN ==> final(buf)@[at + k] == bm@[k],
        forall|i: int|
            0 <= i < old(buf)@.len() && !(at <= i < at + BITMAP_LEN) ==> final(buf)@[i] == old(
                buf,
            )@[i],
{
    let n = buf.len();
    let mut i: usize = 0;
    while i < BITMAP_LEN
        invariant
            i <= BITMAP_LEN,
            at + BITMAP_LEN <= n,
            n == old(buf)@.len(),
            buf@.len() == old(buf)@.len(),
            forall|k: int| 0 <= k < i ==> buf@[at + k] == bm@[k],
            forall|j: int|
                0 <= j < old(buf)@.len() && !(at <= j < at + BITMAP_LEN) ==> buf@[j] == old(
                    buf,
                )@[j],
        decreases BITMAP_LEN - i,
    {
        buf.set(at + i, bm[i]);
        i = i + 1;
    }
}

/// Serialises the superblock of a freshly laid out volume (format version 1)
/// into block 0's bytes.
pub fn write_superblock_with_offsets(
    block_size: u32,
    total_blocks: u32,
    total_inodes: u32,
    inode_bitmap_128: &[u8; 128],
    data_bitmap_128: &[u8; 128],
    root_inode: u32,
    inode_bitmap_start: u32,
    inode_bitmap_blocks: u32,
    data_bitmap_start: u32,
    data_bitmap_blocks: u32,
    inode_table_start: u32,
    inode_table_blocks: u32,
    data_region_start: u32,
) -> (r: Vec<u8>)
    requires
        block_size >= SUPERBLOCK_LEN,
    ensures
        encodes(
            r@,
            (Superblock {
                version: 1,
                block_size,
                total_blocks,
                total_inodes,
                inode_bitmap: *inode_bitmap_128,
                data_bitmap: *data_bitmap_128,
                root_inode,
                inode_bitmap_start,
                inode_bitmap_blocks,
                data_bitmap_start,
                data_bitmap_blocks,
                inode_table_start,
                inode_table_blocks,
                data_region_start,
            }),
        ),
{
    let sb = Superblock {
        version: 1,
        block_size,
        total_blocks,
        total_inodes,
        inode_bitmap: *inode_bitmap_128,
        data_bitmap: *data_bitmap_128,
        root_inode,
        inode_bitmap_start,
        inode_bitmap_blocks,
        data_bitmap_start,
        data_bitmap_blocks,
        inode_table_start,
        inode_table_blocks,
        data_region_start,
    };
    sb.serialize()
}

/// Parsing what `serialize` wrote yields the same descriptor: the bytes pass
/// the size and magic checks, and the only descriptor they describe is the
/// one that was written.
pub proof fn lemma_superblock_round_trip(sb: Superblock, b: Seq<u8>, parsed: Superblock)
    requires
        sb.block_size >= SUPERBLOCK_LEN,
        encodes(b, sb),
        describes(parsed, b),
    ensures
        b.len() >= SUPERBLOCK_LEN,
        has_magic(b),
        parsed == sb,
{
    lemma_u32_round_trip(b, 4, sb.version);
    lemma_u32_round_trip(b, 8, sb.block_size);
    lemma_u32_round_trip(b, 12, sb.total_blocks);
    lemma_u32_round_trip(b, 16, sb.total_inodes);
    lemma_u32_round_trip(b, 276, sb.root_inode);
    lemma_u32_round_trip(b, 280, sb.inode_bitmap_start);
    lemma_u32_round_trip(b, 284, sb.inode_bitmap_blocks);
    lemma_u32_round_trip(b, 288, sb.data_bitmap_start);
    lemma_u32_round_trip(b, 292, sb.data_bitmap_blocks);
    lemma_u32_round_trip(b, 296, sb.inode_table_start);
    lemma_u32_round_trip(b, 300, sb.inode_table_blocks);
    lemma_u32_round_trip(b, 304, sb.data_region_start);
    assert(parsed.inode_bitmap =~= sb.inode_bitmap);
    assert(parsed.data_bitmap =~= sb.data_bitmap);
}

} // verus!
