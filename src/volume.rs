//! A mounted volume: the block store, the superblock and the decoded inode
//! table, and the queries answered from them.

use vstd::prelude::*;
use crate::arith::{ceil_div_spec, lemma_ceil_div_bound};
use crate::dir::{decode_entries, dir_entries, is_root_dir_bytes, lemma_root_dir_entries, DirEntry};
use crate::error::{FormatError, FsError, MountError};
use crate::inode::{decoded_record, is_free_slot, DiskInode, INODE_RECORD_LEN, S_IFDIR};
use crate::bytes::u32_at;
use crate::superblock::{describes, has_magic, Superblock, SUPERBLOCK_LEN};

verus! {

/// The blocks of a volume by index: the bytes held for each block, or
/// nothing where the block cannot be read.
pub struct BlockStore {
    pub blocks: Vec<Option<Vec<u8>>>,
}

/// A mounted volume. The superblock and the inode table are decoded once at
/// mount and never change; directory and file blocks are read on demand.
pub struct QRFileSystem {
    pub sb: Superblock,
    pub inodes: Vec<DiskInode>,
    pub store: BlockStore,
}

/// Appends `src[lo..hi]` to `out`.
fn append_range(out: &mut Vec<u8>, src: &[u8], lo: usize, hi: usize)
    requires
        lo <= hi <= src@.len(),
    ensures
        final(out)@ == old(out)@ + src@.subrange(lo as int, hi as int),
{
    let mut i: usize = lo;
    while i < hi
        invariant
            lo <= i <= hi,
            hi <= src@.len(),
            out@ == old(out)@ + src@.subrange(lo as int, i as int),
        decreases hi - i,
    {
        out.push(src[i]);
        i = i + 1;
        assert(out@ =~= old(out)@ + src@.subrange(lo as int, i as int));
    }
}

impl BlockStore {
    /// Whether block `b` can be read with `block_size` bytes.
    pub open spec fn holds(&self, b: int, block_size: int) -> bool {
        &&& 0 <= b < self.blocks@.len()
        &&& self.blocks@[b] is Some
        &&& self.blocks@[b]->Some_0@.len() >= block_size
    }

    /// The first `block_size` bytes of block `b`.
    pub open spec fn data(&self, b: int, block_size: int) -> Seq<u8> {
        self.blocks@[b]->Some_0@.subrange(0, block_size)
    }

    /// Reads block `b` with `block_size` bytes, if the store holds that many.
    pub fn read(&self, b: u64, block_size: u32) -> (r: Option<Vec<u8>>)
        ensures
            self.holds(b as int, block_size as int) ==> r is Some && r->Some_0@ == self.data(
                b as int,
                block_size as int,
            ),
            !self.holds(b as int, block_size as int) ==> r is None,
    {
        if b >= self.blocks.len() as u64 {
            return None;
        }
        match &self.blocks[b as usize] {
            Some(data) => {
                let bs = block_size as usize;
                if data.len() < bs {
                    return None;
                }
                let mut out: Vec<u8> = Vec::new();
                append_range(&mut out, data.as_slice(), 0, bs);
                assert(out@ =~= self.data(b as int, block_size as int));
                Some(out)
            },
            None => None,
        }
    }
}

/// Whether block `b` lies on the volume described by `sb` and `store` holds it.
pub open spec fn block_readable(sb: Superblock, store: &BlockStore, b: int) -> bool {
    &&& b < sb.total_blocks
    &&& store.holds(b, sb.block_size as int)
}

/// Blocks of the inode table that the volume has room for: enough for
/// `total_inodes` records from `inode_table_start`, cut at the last block.
pub open spec fn table_blocks_present(sb: Superblock) -> int {
    let want = ceil_div_spec(sb.total_inodes * 128, sb.block_size as int);
    let room = sb.total_blocks - sb.inode_table_start;
    if room <= 0 {
        0
    } else if want <= room {
        want
    } else {
        room
    }
}

/// The first `k` blocks of the inode table, back to back.
pub open spec fn table_bytes(sb: Superblock, store: &BlockStore, k: int) -> Seq<u8>
    decreases k,
{
    if k <= 0 {
        seq![]
    } else {
        table_bytes(sb, store, k - 1) + store.data(sb.inode_table_start + k - 1, sb.block_size as int)
    }
}

/// Every block of the inode table that the volume has can be read.
pub open spec fn table_readable(sb: Superblock, store: &BlockStore) -> bool {
    forall|j: int|
        0 <= j < table_blocks_present(sb) ==> #[trigger] block_readable(
            sb,
            store,
            sb.inode_table_start + j,
        )
}

/// `inodes` is the table decoded from the byte stream `t`: slot `i` is the
/// record at `128 * i` where the stream holds it whole, a free slot past its end.
pub open spec fn table_decodes(inodes: Seq<DiskInode>, t: Seq<u8>) -> bool {
    forall|i: int|
        0 <= i < inodes.len() ==> if 128 * i + 128 <= t.len() {
            decoded_record(#[trigger] inodes[i], t.subrange(128 * i, 128 * i + 128), i as u32)
        } else {
            is_free_slot(inodes[i], i as u32)
        }
}

/// Reads the blocks of the inode table that the volume has, back to back.
fn read_table_bytes(sb: &Superblock, store: &BlockStore) -> (r: Option<Vec<u8>>)
    requires
        sb.block_size > 0,
    ensures
        r is Some <==> table_readable(*sb, store),
        r is Some ==> r->Some_0@ == table_bytes(*sb, store, table_blocks_present(*sb)),
{
    let bs = sb.block_size as u64;
    let want = (sb.total_inodes as u64 * 128 + (bs - 1)) / bs;
    let mut table: Vec<u8> = Vec::new();
    let mut bi: u64 = 0;
    while bi < want
        invariant
            bs == sb.block_size,
            bs > 0,
            want == ceil_div_spec(sb.total_inodes * 128, bs as int),
            bi <= want,
            bi == 0 || sb.inode_table_start + bi <= sb.total_blocks,
            forall|j: int| 0 <= j < bi ==> #[trigger] block_readable(*sb, store, sb.inode_table_start + j),
            table@ == table_bytes(*sb, store, bi as int),
        ensures
            bi == table_blocks_present(*sb),
            forall|j: int| 0 <= j < bi ==> #[trigger] block_readable(*sb, store, sb.inode_table_start + j),
            table@ == table_bytes(*sb, store, bi as int),
        decreases want - bi,
    {
        let idx = sb.inode_table_start as u64 + bi;
        if idx >= sb.total_blocks as u64 {
            break;
        }
        match store.read(idx, sb.block_size) {
            Some(b) => {
                append_range(&mut table, b.as_slice(), 0, b.len());
                assert(b@.subrange(0, b@.len() as int) =~= b@);
            },
            None => {
                assert(!block_readable(*sb, store, sb.inode_table_start + bi));
                return None;
            },
        }
        bi = bi + 1;
    }
    Some(table)
}

/// Reads and decodes the inode table of the volume that `sb` describes:
/// `total_inodes` slots, decoded from its blocks as one byte stream, free
/// slots past what the volume holds.
pub fn load_table(sb: &Superblock, store: &BlockStore) -> (r: Result<Vec<DiskInode>, FsError>)
    requires
        sb.block_size > 0,
    ensures
        r is Ok <==> table_readable(*sb, store),
        r is Err ==> r->Err_0 == FsError::Io,
        r is Ok ==> r->Ok_0@.len() == sb.total_inodes && table_decodes(
            r->Ok_0@,
            table_bytes(*sb, store, table_blocks_present(*sb)),
        ),
{
    match read_table_bytes(sb, store) {
        Some(t) => Ok(decode_table(t.as_slice(), sb.total_inodes)),
        None => Err(FsError::Io),
    }
}

/// Decodes `total_inodes` slots from the byte stream of the inode table.
fn decode_table(t: &[u8], total_inodes: u32) -> (r: Vec<DiskInode>)
    ensures
        r@.len() == total_inodes,
        table_decodes(r@, t@),
{
    let tl: usize = t.len();
    let n = tl as u64;
    let mut inodes: Vec<DiskInode> = Vec::new();
    let mut i: u32 = 0;
    while i < total_inodes
        invariant
            i <= total_inodes,
            n == t@.len(),
            tl == t@.len(),
            inodes@.len() == i,
            table_decodes(inodes@, t@),
        decreases total_inodes - i,
    {
        let off = i as u64 * 128;
        let ghost prev = inodes@;
        let d = if off + 128 <= n {
            let lo = off as usize;
            let hi = (off + 128) as usize;
            let rec = &t[lo..hi];
            assert(rec@ == t@.subrange(128 * i, 128 * i + 128));
            DiskInode::decode_record(rec, i)
        } else {
            DiskInode::free_slot(i)
        };
        inodes.push(d);
        proof {
            assert forall|k: int| 0 <= k < inodes@.len() implies if 128 * k + 128 <= t@.len() {
                decoded_record(#[trigger] inodes@[k], t@.subrange(128 * k, 128 * k + 128), k as u32)
            } else {
                is_free_slot(inodes@[k], k as u32)
            } by {
                if k < i {
                    assert(inodes@[k] == prev[k]);
                }
            }
        }
        i = i + 1;
    }
    inodes
}


/// The index of the first zero pointer at or after `i`, or 12 when there is none.
pub open spec fn first_hole(d: Seq<u32>, i: int) -> int
    decreases 12 - i,
{
    if i < 0 || i >= 12 {
        i
    } else if d[i] == 0 {
        i
    } else {
        first_hole(d, i + 1)
    }
}

/// How many blocks from the first one a read of `to_read` bytes starting
/// `skip` bytes into that first block touches; none for an empty read.
pub open spec fn blocks_needed(block_size: int, skip: int, to_read: int) -> int {
    if to_read == 0 {
        0
    } else {
        ceil_div_spec(skip + to_read, block_size)
    }
}

/// Only one descriptor fits the bytes of a block 0.
proof fn lemma_describes_unique(a: Superblock, b: Superblock, s: Seq<u8>)
    requires
        describes(a, s),
        describes(b, s),
    ensures
        a == b,
{
    assert(a.inode_bitmap =~= b.inode_bitmap);
    assert(a.data_bitmap =~= b.data_bitmap);
}

impl QRFileSystem {
    /// The volume is consistent with itself: a usable block size and one
    /// table slot per inode.
    pub open spec fn wf(&self) -> bool {
        &&& self.sb.block_size > 0
        &&& self.inodes@.len() == self.sb.total_inodes
    }

    /// Whether block `b` exists on the volume and can be read.
    pub open spec fn readable(&self, b: int) -> bool {
        block_readable(self.sb, &self.store, b)
    }

    /// Mounts the volume held by `store`: decodes the superblock from block
    /// 0, then the inode table, which has one slot per inode.
    pub fn mount(store: BlockStore) -> (r: Result<QRFileSystem, MountError>)
        ensures
            (store.blocks@.len() == 0 || store.blocks@[0] is None) ==> r == Err::<QRFileSystem, MountError>(
                MountError::Io,
            ),
            store.blocks@.len() > 0 && store.blocks@[0] is Some ==> {
                let b0 = store.blocks@[0]->Some_0@;
                &&& b0.len() < SUPERBLOCK_LEN ==> r == Err::<QRFileSystem, MountError>(
                    MountError::Format(FormatError::TooSmall),
                )
                &&& b0.len() >= SUPERBLOCK_LEN && !has_magic(b0) ==> r == Err::<QRFileSystem, MountError>(
                    MountError::Format(FormatError::BadMagic),
                )
                &&& b0.len() >= SUPERBLOCK_LEN && has_magic(b0) ==> {
                    &&& u32_at(b0, 8) == 0 ==> r == Err::<QRFileSystem, MountError>(
                        MountError::Format(FormatError::ZeroBlockSize),
                    )
                    &&& u32_at(b0, 8) != 0 ==> (r is Ok <==> exists|sb: Superblock|
                        describes(sb, b0) && table_readable(sb, &store))
                    &&& r is Err && u32_at(b0, 8) != 0 ==> r == Err::<QRFileSystem, MountError>(MountError::Io)
                }
            },
            r is Ok ==> {
                let fs = r->Ok_0;
                &&& fs.wf()
                &&& describes(fs.sb, store.blocks@[0]->Some_0@)
                &&& fs.store.blocks@ == store.blocks@
                &&& table_decodes(fs.inodes@, table_bytes(fs.sb, &store, table_blocks_present(fs.sb)))
            },
    {
        if store.blocks.len() == 0 {
            return Err(MountError::Io);
        }
        let sb = match &store.blocks[0] {
            None => {
                return Err(MountError::Io);
            },
            Some(b0) => match Superblock::parse(b0.as_slice()) {
                Ok(sb) => sb,
                Err(e) => {
                    return Err(MountError::Format(e));
                },
            },
        };
        if sb.block_size == 0 {
            return Err(MountError::Format(FormatError::ZeroBlockSize));
        }
        let inodes = match load_table(&sb, &store) {
            Ok(t) => t,
            Err(_) => {
                proof {
                    assert forall|x: Superblock| describes(x, store.blocks@[0]->Some_0@) implies !table_readable(x, &store) by {
                        lemma_describes_unique(x, sb, store.blocks@[0]->Some_0@);
                    }
                }
                return Err(MountError::Io);
            },
        };
        Ok(QRFileSystem { sb, inodes, store })
    }

    /// The bytes of block `b`.
    pub open spec fn block(&self, b: int) -> Seq<u8> {
        self.store.data(b, self.sb.block_size as int)
    }

    /// Reads block `block_index`: exactly `block_size` bytes.
    pub fn read_block_bytes(&self, block_index: u32) -> (r: Result<Vec<u8>, FsError>)
        ensures
            self.readable(block_index as int) ==> r is Ok && r->Ok_0@ == self.block(
                block_index as int,
            ),
            !self.readable(block_index as int) ==> r == Err::<Vec<u8>, FsError>(FsError::Io),
    {
        if block_index >= self.sb.total_blocks {
            return Err(FsError::Io);
        }
        match self.store.read(block_index as u64, self.sb.block_size) {
            Some(b) => Ok(b),
            None => Err(FsError::Io),
        }
    }

    /// The slot of inode `inode_number`, if the table has one.
    pub fn get_inode(&self, inode_number: u32) -> (r: Option<DiskInode>)
        ensures
            inode_number < self.inodes@.len() ==> r == Some(self.inodes@[inode_number as int]),
            inode_number >= self.inodes@.len() ==> r is None,
    {
        if (inode_number as usize) < self.inodes.len() {
            Some(self.inodes[inode_number as usize])
        } else {
            None
        }
    }

    /// The non-empty entries of the directory block `block_index`.
    pub fn read_dir_entries_from_block(&self, block_index: u32) -> (r: Result<Vec<DirEntry>, FsError>)
        ensures
            !self.readable(block_index as int) ==> r == Err::<Vec<DirEntry>, FsError>(FsError::Io),
            self.readable(block_index as int) ==> r is Ok && r->Ok_0@.len() == dir_entries(
                self.block(block_index as int),
            ).len() && forall|i: int|
                0 <= i < r->Ok_0@.len() ==> #[trigger] r->Ok_0@[i]@ == dir_entries(
                    self.block(block_index as int),
                )[i],
    {
        let blk = self.read_block_bytes(block_index)?;
        Ok(decode_entries(blk.as_slice()))
    }
}


/// Scanning for a hole from `s` finds the same one as from `i` when the
/// pointers between are all in use.
proof fn lemma_first_hole_from(d: Seq<u32>, s: int, i: int)
    requires
        0 <= s <= i <= 12,
        forall|j: int| s <= j < i ==> d[j] != 0,
    ensures
        first_hole(d, s) == first_hole(d, i),
    decreases i - s,
{
    if s < i {
        lemma_first_hole_from(d, s + 1, i);
    }
}

/// The hole found from `i` lies at or after `i`.
proof fn lemma_first_hole_ge(d: Seq<u32>, i: int)
    requires
        0 <= i,
    ensures
        first_hole(d, i) >= i,
    decreases 12 - i,
{
    if i < 12 && d[i] != 0 {
        lemma_first_hole_ge(d, i + 1);
    }
}

impl QRFileSystem {
    /// The blocks that `d` points at from index `start`, the first `k` of
    /// them, back to back.
    pub open spec fn run_bytes(&self, d: Seq<u32>, start: int, k: int) -> Seq<u8>
        decreases k,
    {
        if k <= 0 {
            seq![]
        } else {
            self.run_bytes(d, start, k - 1) + self.block(d[start + k - 1] as int)
        }
    }

    /// Bytes that a read of `size` bytes at `offset` asks for, cut at the
    /// end of the file.
    pub open spec fn to_read(inode: DiskInode, offset: u64, size: usize) -> int {
        if size as int <= inode.size as int - offset as int {
            size as int
        } else {
            inode.size as int - offset as int
        }
    }

    /// How many blocks, from the one that holds `offset`, a read visits: up
    /// to the first unused pointer, and no further than the request needs.
    pub open spec fn blocks_visited(&self, inode: DiskInode, offset: u64, size: usize) -> int {
        let bs = self.sb.block_size as int;
        let start = offset as int / bs;
        let skip = offset as int % bs;
        let avail = first_hole(inode.direct@, start) - start;
        let need = blocks_needed(bs, skip, Self::to_read(inode, offset, size));
        if avail <= need {
            avail
        } else {
            need
        }
    }

    /// Every block that a read visits can be read.
    pub open spec fn visited_readable(&self, inode: DiskInode, offset: u64, size: usize) -> bool {
        let start = offset as int / (self.sb.block_size as int);
        forall|j: int|
            0 <= j < self.blocks_visited(inode, offset, size) ==> #[trigger] self.readable(
                inode.direct@[start + j] as int,
            )
    }

    /// What a read returns: the visited blocks back to back, from `offset`
    /// on, as many bytes as were asked for and they hold.
    pub open spec fn range_bytes(&self, inode: DiskInode, offset: u64, size: usize) -> Seq<u8> {
        let bs = self.sb.block_size as int;
        let start = offset as int / bs;
        let skip = offset as int % bs;
        let n = self.blocks_visited(inode, offset, size);
        let run = self.run_bytes(inode.direct@, start, n);
        let want = Self::to_read(inode, offset, size);
        if n == 0 {
            seq![]
        } else if want <= run.len() - skip {
            run.subrange(skip, skip + want)
        } else {
            run.subrange(skip, run.len() as int)
        }
    }

    /// Reads `size` bytes at `offset` of the file `inode`, following its
    /// direct pointers from the block that holds `offset` up to the first
    /// unused one. Past the end of the file, or for an empty request, the
    /// result is empty and no block is read.
    pub fn read_file_range(&self, inode: &DiskInode, offset: u64, size: usize) -> (r: Result<Vec<u8>, FsError>)
        requires
            self.wf(),
        ensures
            offset >= inode.size ==> r is Ok && r->Ok_0@.len() == 0,
            offset < inode.size && size == 0 ==> r is Ok && r->Ok_0@.len() == 0,
            offset < inode.size ==> (r is Ok <==> self.visited_readable(*inode, offset, size)),
            offset < inode.size && r is Ok ==> r->Ok_0@ == self.range_bytes(*inode, offset, size),
            r is Err ==> r->Err_0 == FsError::Io,
    {
        let block_size = self.sb.block_size as u64;
        let bsz = self.sb.block_size as usize;
        let file_size = inode.size as u64;
        if offset >= file_size {
            return Ok(Vec::new());
        }
        let to_read: usize = if (size as u64) <= file_size - offset {
            size
        } else {
            (file_size - offset) as usize
        };
        if to_read == 0 {
            proof {
                lemma_first_hole_ge(inode.direct@, offset as int / (block_size as int));
            }
            return Ok(Vec::new());
        }
        let ghost bs = block_size as int;
        let ghost d = inode.direct@;
        let mut result: Vec<u8> = Vec::new();
        let start_block_idx = offset / block_size;
        let offset_in_first = (offset % block_size) as usize;
        let ghost start = start_block_idx as int;
        let ghost skip = offset_in_first as int;
        let ghost need = blocks_needed(bs, skip, to_read as int);
        let mut remaining: usize = to_read;
        if start_block_idx >= 12 {
            proof {
                lemma_first_hole_ge(d, start);
            }
            return Ok(result);
        }
        let mut i: usize = start_block_idx as usize;
        while i < 12 && (i as u64 == start_block_idx || remaining > 0)
            invariant
                self.wf(),
                bs == self.sb.block_size,
                bsz == bs,
                offset < inode.size,
                i == start ==> remaining == to_read,
                block_size == bs,
                offset_in_first == skip,
                start_block_idx == start,
                d == inode.direct@,
                start <= i <= 12,
                0 <= skip < bs,
                start == offset as int / bs,
                skip == offset as int % bs,
                to_read == Self::to_read(*inode, offset, size),
                need == blocks_needed(bs, skip, to_read as int),
                remaining <= to_read,
                to_read > 0,
                forall|j: int| start <= j < i ==> d[j] != 0,
                forall|j: int| 0 <= j < i - start ==> #[trigger] self.readable(d[start + j] as int),
                self.run_bytes(d, start, i - start).len() == (i - start) * bs,
                i > start && remaining > 0 ==> to_read - remaining == (i - start) * bs - skip,
                i > start ==> to_read - remaining <= (i - start) * bs - skip,
                i - start <= need,
                i > start ==> result@ == self.run_bytes(d, start, i - start).subrange(
                    skip,
                    skip + (to_read - remaining),
                ),
                i == start ==> result@.len() == 0,
            ensures
                i == 12 || (i < 12 && d[i as int] == 0) || (remaining == 0 && i > start),
                start <= i <= 12,
                i > start ==> to_read - remaining <= (i - start) * bs - skip,
                i > start && remaining > 0 ==> to_read - remaining == (i - start) * bs - skip,
                i - start <= need,
                forall|j: int| start <= j < i ==> d[j] != 0,
                forall|j: int| 0 <= j < i - start ==> #[trigger] self.readable(d[start + j] as int),
                self.run_bytes(d, start, i - start).len() == (i - start) * bs,
                i > start ==> result@ == self.run_bytes(d, start, i - start).subrange(
                    skip,
                    skip + (to_read - remaining),
                ),
                i == start ==> result@.len() == 0,
            decreases 12 - i,
        {
            let bnum = inode.direct[i];
            if bnum == 0 {
                break;
            }
            let ghost k = i - start;
            proof {
                lemma_ceil_div_bound(skip + to_read, bs, k);
            }
            let block_bytes = match self.read_block_bytes(bnum) {
                Ok(b) => b,
                Err(e) => {
                    proof {
                        lemma_first_hole_from(d, start, i as int);
                        lemma_first_hole_ge(d, i as int + 1);
                        assert(self.blocks_visited(*inode, offset, size) > k);
                        assert(!self.readable(d[start + k] as int));
                    }
                    return Err(e);
                }
            };
            let ghost run = self.run_bytes(d, start, k);
            assert(self.run_bytes(d, start, k + 1) == run + block_bytes@);
            assert((k + 1) * bs == k * bs + bs) by (nonlinear_arith);
            let take: usize;
            if i as u64 == start_block_idx {
                take = if remaining <= bsz - offset_in_first {
                    remaining
                } else {
                    bsz - offset_in_first
                };
                append_range(&mut result, block_bytes.as_slice(), offset_in_first, offset_in_first + take);
                assert(result@ =~= self.run_bytes(d, start, k + 1).subrange(skip, skip + take));
            } else {
                take = if remaining <= bsz {
                    remaining
                } else {
                    bsz
                };
                append_range(&mut result, block_bytes.as_slice(), 0, take);
                assert(result@ =~= self.run_bytes(d, start, k + 1).subrange(
                    skip,
                    skip + (to_read - remaining) + take,
                ));
            }
            remaining = remaining - take;
            i = i + 1;
            proof {
                lemma_ceil_div_bound(skip + to_read, bs, k + 1);
            }
        }
        proof {
            let k = i - start;
            lemma_first_hole_from(d, start, i as int);
            lemma_first_hole_ge(d, i as int);
            if remaining == 0 && k > 0 {
                lemma_ceil_div_bound(skip + to_read, bs, k);
                if k > 1 {
                    lemma_ceil_div_bound(skip + to_read, bs, k - 1);
                }
            } else if k > 0 {
                lemma_ceil_div_bound(skip + to_read, bs, k);
            }
            assert(self.blocks_visited(*inode, offset, size) == k);
        }
        Ok(result)
    }
}


/// The inode number of the first entry from position `i` on whose name is
/// `name`.
pub open spec fn first_match(es: Seq<(u32, Seq<char>)>, name: Seq<char>, i: int) -> Option<u32>
    decreases es.len() - i,
{
    if i < 0 || i >= es.len() {
        None
    } else if es[i].1 == name {
        Some(es[i].0)
    } else {
        first_match(es, name, i + 1)
    }
}

/// Whether the mode of `d` marks a directory.
pub open spec fn is_directory(d: DiskInode) -> bool {
    d.inode_mode & S_IFDIR == S_IFDIR
}

impl QRFileSystem {
    /// The entries of the directory `d`: those of the block its first
    /// pointer names.
    pub open spec fn entries_of(&self, d: DiskInode) -> Seq<(u32, Seq<char>)> {
        dir_entries(self.block(d.direct@[0] as int))
    }

    /// Resolves `name` in the directory `parent` to the inode number of its
    /// first entry of that name, compared character for character.
    pub fn lookup_child(&self, parent: &DiskInode, name: &str) -> (r: Result<u32, FsError>)
        ensures
            !is_directory(*parent) ==> r == Err::<u32, FsError>(FsError::NotFound),
            is_directory(*parent) && !self.readable(parent.direct@[0] as int) ==> r == Err::<
                u32,
                FsError,
            >(FsError::Io),
            is_directory(*parent) && self.readable(parent.direct@[0] as int) ==> r == match first_match(
                self.entries_of(*parent),
                name@,
                0,
            ) {
                Some(n) => Ok::<u32, FsError>(n),
                None => Err(FsError::NotFound),
            },
    {
        if !parent.is_dir() {
            return Err(FsError::NotFound);
        }
        let entries = self.read_dir_entries_from_block(parent.direct[0])?;
        let ghost es = self.entries_of(*parent);
        let query = name.to_owned();
        let mut j: usize = 0;
        while j < entries.len()
            invariant
                j <= entries@.len(),
                entries@.len() == es.len(),
                forall|i: int| 0 <= i < entries@.len() ==> #[trigger] entries@[i]@ == es[i],
                query@ == name@,
                is_directory(*parent),
                self.readable(parent.direct@[0] as int),
                es == self.entries_of(*parent),
                first_match(es, name@, 0) == first_match(es, name@, j as int),
            decreases entries@.len() - j,
        {
            assert(entries@[j as int]@ == es[j as int]);
            if entries[j].name == query {
                return Ok(entries[j].inode);
            }
            j = j + 1;
        }
        Err(FsError::NotFound)
    }

    /// The slot of inode `inode_number`.
    pub fn attributes(&self, inode_number: u32) -> (r: Result<DiskInode, FsError>)
        ensures
            inode_number < self.inodes@.len() ==> r == Ok::<DiskInode, FsError>(
                self.inodes@[inode_number as int],
            ),
            inode_number >= self.inodes@.len() ==> r == Err::<DiskInode, FsError>(FsError::NotFound),
    {
        match self.get_inode(inode_number) {
            Some(d) => Ok(d),
            None => Err(FsError::NotFound),
        }
    }

    /// The entries of the directory `inode_number`, in slot order.
    pub fn list_directory(&self, inode_number: u32) -> (r: Result<Vec<DirEntry>, FsError>)
        ensures
            inode_number >= self.inodes@.len() ==> r == Err::<Vec<DirEntry>, FsError>(FsError::NotFound),
            inode_number < self.inodes@.len() ==> {
                let d = self.inodes@[inode_number as int];
                &&& !is_directory(d) ==> r == Err::<Vec<DirEntry>, FsError>(FsError::NotADirectory)
                &&& is_directory(d) && !self.readable(d.direct@[0] as int) ==> r == Err::<
                    Vec<DirEntry>,
                    FsError,
                >(FsError::Io)
                &&& is_directory(d) && self.readable(d.direct@[0] as int) ==> r is Ok
                    && r->Ok_0@.len() == self.entries_of(d).len() && forall|i: int|
                    0 <= i < r->Ok_0@.len() ==> #[trigger] r->Ok_0@[i]@ == self.entries_of(d)[i]
            },
    {
        let d = self.attributes(inode_number)?;
        if !d.is_dir() {
            return Err(FsError::NotADirectory);
        }
        self.read_dir_entries_from_block(d.direct[0])
    }
}


impl QRFileSystem {
    /// Every block that a read of `size` bytes at `offset` needs has a
    /// pointer in use.
    pub open spec fn blocks_in_use(&self, inode: DiskInode, offset: u64, size: usize) -> bool {
        let bs = self.sb.block_size as int;
        let start = offset as int / bs;
        let skip = offset as int % bs;
        first_hole(inode.direct@, start) - start >= blocks_needed(
            bs,
            skip,
            Self::to_read(inode, offset, size),
        )
    }
}

/// Readable blocks put back to back hold `block_size` bytes each.
proof fn lemma_run_len(fs: QRFileSystem, d: Seq<u32>, start: int, k: int)
    requires
        0 <= k,
        forall|j: int| 0 <= j < k ==> #[trigger] fs.readable(d[start + j] as int),
    ensures
        fs.run_bytes(d, start, k).len() == k * fs.sb.block_size,
    decreases k,
{
    if k > 0 {
        let j = k - 1;
        assert(fs.readable(d[start + j] as int));
        let b = d[start + k - 1] as int;
        assert(fs.block(b).len() == fs.sb.block_size);
        lemma_run_len(fs, d, start, k - 1);
        assert(fs.run_bytes(d, start, k) == fs.run_bytes(d, start, k - 1) + fs.block(b));
        assert(k * fs.sb.block_size == (k - 1) * fs.sb.block_size + fs.sb.block_size) by (
        nonlinear_arith);
    } else {
        assert(k * fs.sb.block_size == 0) by (nonlinear_arith)
            requires
                k == 0,
        ;
    }
}

/// A read that starts inside the file, whose blocks all have pointers in use
/// and can be read, returns as many bytes as were asked for, or as the file
/// holds past `offset` if that is fewer.
pub proof fn lemma_read_length(fs: QRFileSystem, inode: DiskInode, offset: u64, size: usize)
    requires
        fs.wf(),
        offset < inode.size,
        fs.blocks_in_use(inode, offset, size),
        fs.visited_readable(inode, offset, size),
    ensures
        fs.range_bytes(inode, offset, size).len() == QRFileSystem::to_read(inode, offset, size),
{
    let bs = fs.sb.block_size as int;
    let start = offset as int / bs;
    let skip = offset as int % bs;
    let want = QRFileSystem::to_read(inode, offset, size);
    let n = fs.blocks_visited(inode, offset, size);
    assert(n == blocks_needed(bs, skip, want));
    lemma_run_len(fs, inode.direct@, start, n);
    if want > 0 {
        lemma_ceil_div_bound(skip + want, bs, n);
        lemma_ceil_div_bound(skip + want, bs, 0);
        assert(n >= 1);
        assert(n * bs >= skip + want);
    } else {
        lemma_first_hole_ge(inode.direct@, start);
    }
}

/// The root directory of a freshly formatted volume, whose block holds at
/// least 520 bytes, lists exactly `"."` and `".."`, both naming the root, and
/// looking up either name resolves to the root.
pub proof fn lemma_fresh_root_directory(fs: QRFileSystem, root_dir: DiskInode, root: u32)
    requires
        fs.readable(root_dir.direct@[0] as int),
        fs.sb.block_size >= 520,
        is_root_dir_bytes(fs.block(root_dir.direct@[0] as int), fs.sb.block_size as int, root),
    ensures
        fs.entries_of(root_dir) == seq![(root, seq!['.']), (root, seq!['.', '.'])],
        first_match(fs.entries_of(root_dir), seq!['.'], 0) == Some(root),
        first_match(fs.entries_of(root_dir), seq!['.', '.'], 0) == Some(root),
{
    let blk = fs.block(root_dir.direct@[0] as int);
    lemma_root_dir_entries(blk, fs.sb.block_size as int, root);
    let es = fs.entries_of(root_dir);
    assert(es[0].1 == seq!['.']);
    assert(es[1].1 == seq!['.', '.']);
    assert(es[0].1 != seq!['.', '.']) by {
        assert(es[0].1.len() != 2);
    }
    assert(first_match(es, seq!['.', '.'], 1) == Some(root));
}

} // verus!
