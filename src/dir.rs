//! Directory blocks: fixed-size entries of an inode number and a name.

use vstd::prelude::*;
use crate::bytes::{holds_u32, lemma_u32_round_trip, u32_at, u32le_from, u32le_write};

verus! {

/// Bytes of one directory entry: a 4-byte inode number and a 256-byte name field.
pub const DIR_ENTRY_LEN: usize = 260;

/// Bytes of the NUL-padded name field.
pub const NAME_FIELD_LEN: usize = 256;

/// The characters that `String::from_utf8_lossy` makes of `b`.
pub uninterp spec fn lossy_utf8(b: Seq<u8>) -> Seq<char>;

/// Every byte of `b` is ASCII.
pub open spec fn is_ascii_bytes(b: Seq<u8>) -> bool {
    forall|i: int| 0 <= i < b.len() ==> b[i] < 128u8
}

/// The characters of ASCII bytes, one per byte.
pub open spec fn ascii_chars(b: Seq<u8>) -> Seq<char> {
    b.map_values(|c: u8| c as char)
}

/// The characters that the name bytes `b` decode to: ASCII bytes stand for
/// themselves, anything else goes through lossy UTF-8 decoding.
pub open spec fn name_chars(b: Seq<u8>) -> Seq<char> {
    if is_ascii_bytes(b) {
        ascii_chars(b)
    } else {
        lossy_utf8(b)
    }
}

/// Relies on `String::from_utf8_lossy`: the name bytes decoded as UTF-8, each
/// invalid sequence replaced; the result depends on the bytes alone. Empty
/// bytes give an empty string and only they do (every byte yields a
/// character or a replacement character); ASCII is valid UTF-8 and decodes
/// to the same characters.
#[verifier::external_body]
fn decode_name(b: &[u8]) -> (r: String)
    ensures
        r@ == lossy_utf8(b@),
        b@.len() == 0 <==> r@.len() == 0,
        is_ascii_bytes(b@) ==> r@ == ascii_chars(b@),
{
    String::from_utf8_lossy(b).into_owned()
}

/// One decoded directory entry.
#[derive(Debug)]
pub struct DirEntry {
    /// Inode number that the entry names.
    pub inode: u32,
    pub name: String,
}

impl View for DirEntry {
    type V = (u32, Seq<char>);

    open spec fn view(&self) -> (u32, Seq<char>) {
        (self.inode, self.name@)
    }
}

/// Position of the first NUL byte of `f` at or after `i`, or its length when
/// there is none.
pub open spec fn first_nul(f: Seq<u8>, i: int) -> int
    decreases f.len() - i,
{
    if i >= f.len() {
        f.len() as int
    } else if f[i] == 0u8 {
        i
    } else {
        first_nul(f, i + 1)
    }
}

/// The name field of slot `j` of a directory block.
pub open spec fn name_field(blk: Seq<u8>, j: int) -> Seq<u8> {
    blk.subrange(j * 260 + 4, j * 260 + 260)
}

/// The decoded name of slot `j`: the field up to its first NUL.
pub open spec fn slot_name(blk: Seq<u8>, j: int) -> Seq<char> {
    name_chars(name_field(blk, j).subrange(0, first_nul(name_field(blk, j), 0)))
}

/// The entries of the first `n` slots of a directory block, in slot order,
/// leaving out those whose decoded name is empty.
pub open spec fn entries_upto(blk: Seq<u8>, n: int) -> Seq<(u32, Seq<char>)>
    decreases n,
{
    if n <= 0 {
        seq![]
    } else if slot_name(blk, n - 1).len() == 0 {
        entries_upto(blk, n - 1)
    } else {
        entries_upto(blk, n - 1).push((u32_at(blk, (n - 1) * 260), slot_name(blk, n - 1)))
    }
}

/// The entries of a directory block: every whole slot packed from offset 0.
pub open spec fn dir_entries(blk: Seq<u8>) -> Seq<(u32, Seq<char>)> {
    entries_upto(blk, blk.len() as int / 260)
}

/// The length of the name in `f`: up to the first NUL, or the whole field.
fn name_len(f: &[u8]) -> (r: usize)
    ensures
        r == first_nul(f@, 0),
        r <= f@.len(),
{
    let n = f.len();
    let mut i: usize = 0;
    while i < n
        invariant
            i <= n,
            n == f@.len(),
            first_nul(f@, 0) == first_nul(f@, i as int),
        decreases n - i,
    {
        if f[i] == 0 {
            return i;
        }
        i = i + 1;
    }
    i
}

/// Decodes every non-empty entry of a directory block, in slot order.
pub fn decode_entries(blk: &[u8]) -> (r: Vec<DirEntry>)
    ensures
        r@.len() == dir_entries(blk@).len(),
        forall|i: int| 0 <= i < r@.len() ==> #[trigger] r@[i]@ == dir_entries(blk@)[i],
{
    let n = blk.len();
    let slots = n / DIR_ENTRY_LEN;
    let mut res: Vec<DirEntry> = Vec::new();
    let mut j: usize = 0;
    while j < slots
        invariant
            j <= slots,
            n == blk@.len(),
            slots == n / 260,
            res@.len() == entries_upto(blk@, j as int).len(),
            forall|i: int| 0 <= i < res@.len() ==> #[trigger] res@[i]@ == entries_upto(blk@, j as int)[i],
        decreases slots - j,
    {
        assert(j * 260 + 260 <= n) by (nonlinear_arith)
            requires
                j < slots,
                slots == n / 260,
        ;
        let off = j * DIR_ENTRY_LEN;
        let inode = u32le_from(&blk[off..off + 4]);
        let field = &blk[off + 4..off + DIR_ENTRY_LEN];
        assert(field@ == name_field(blk@, j as int));
        let len = name_len(field);
        let bytes = &field[0..len];
        let name = decode_name(bytes);
        assert(name@ == name_chars(bytes@));
        if !name.as_str().is_empty() {
            res.push(DirEntry { inode, name });
        }
        assert(inode == u32_at(blk@, j * 260));
        j = j + 1;
    }
    res
}

/// `b` starts with the root directory's two entries, packed from offset 0
/// at the 260-byte stride: `"."` then `".."`, both naming `root`, with every
/// other byte of the first `block_size` zero.
pub open spec fn is_root_dir_bytes(b: Seq<u8>, block_size: int, root: u32) -> bool {
    &&& block_size <= b.len()
    &&& holds_u32(b, 0, root)
    &&& b[4] == 46u8
    &&& holds_u32(b, 260, root)
    &&& b[264] == 46u8
    &&& b[265] == 46u8
    &&& forall|i: int| 5 <= i < block_size && !(260 <= i < 266) ==> b[i] == 0u8
}

/// Lays out the root directory's block: entry `"."` in slot 0 and entry
/// `".."` in slot 1, both naming `root_inode`, the rest of the first
/// `block_size` bytes zero. Bytes past `block_size` are left as they were.
pub fn build_root_dir_block(block: &mut Vec<u8>, block_size: usize, root_inode: u32)
    requires
        block_size <= old(block)@.len(),
        266 <= block_size,
    ensures
        final(block)@.len() == old(block)@.len(),
        is_root_dir_bytes(final(block)@, block_size as int, root_inode),
        forall|i: int| block_size <= i < old(block)@.len() ==> final(block)@[i] == old(block)@[i],
{
    let mut z: usize = 0;
    while z < block_size
        invariant
            z <= block_size,
            block_size <= old(block)@.len(),
            block@.len() == old(block)@.len(),
            forall|i: int| 0 <= i < z ==> block@[i] == 0u8,
            forall|i: int| block_size <= i < old(block)@.len() ==> block@[i] == old(block)@[i],
        decreases block_size - z,
    {
        block.set(z, 0u8);
        z = z + 1;
    }
    u32le_write(root_inode, block, 0);
    block.set(4, 46u8);
    u32le_write(root_inode, block, 260);
    block.set(264, 46u8);
    block.set(265, 46u8);
}

/// A block with room for `n` slots has at most `n` entries.
pub proof fn lemma_entries_len(blk: Seq<u8>, n: int)
    requires
        0 <= n,
    ensures
        entries_upto(blk, n).len() <= n,
    decreases n,
{
    if n > 0 {
        lemma_entries_len(blk, n - 1);
    }
}

/// The slots of a root directory block after its first two hold no name.
proof fn lemma_root_dir_tail(blk: Seq<u8>, block_size: int, root: u32, n: int)
    requires
        is_root_dir_bytes(blk, block_size, root),
        2 <= n,
        n * 260 <= block_size,
    ensures
        entries_upto(blk, n) == entries_upto(blk, 2),
    decreases n,
{
    if n > 2 {
        lemma_root_dir_tail(blk, block_size, root, n - 1);
        let j = n - 1;
        let f = name_field(blk, j);
        assert(f[0] == blk[j * 260 + 4]);
        assert(first_nul(f, 0) == 0);
        assert(f.subrange(0, 0).len() == 0);
        assert(slot_name(blk, j).len() == 0);
    }
}

/// A root directory block, as the formatter lays it out in a block of at
/// least 520 bytes, holds exactly two entries: `"."` then `".."`, both
/// naming the root.
pub proof fn lemma_root_dir_entries(blk: Seq<u8>, block_size: int, root: u32)
    requires
        is_root_dir_bytes(blk, block_size, root),
        blk.len() == block_size,
        block_size >= 520,
    ensures
        dir_entries(blk) == seq![(root, seq!['.']), (root, seq!['.', '.'])],
{
    let n = blk.len() as int / 260;
    assert(n * 260 <= block_size && n >= 2);
    lemma_root_dir_tail(blk, block_size, root, n);
    lemma_u32_round_trip(blk, 0, root);
    lemma_u32_round_trip(blk, 260, root);
    let f0 = name_field(blk, 0);
    assert(f0[0] == 46u8 && f0[1] == 0u8);
    assert(first_nul(f0, 1) == 1);
    assert(first_nul(f0, 0) == 1);
    assert(f0.subrange(0, 1) =~= seq![46u8]);
    assert(ascii_chars(seq![46u8]) =~= seq!['.']);
    assert(slot_name(blk, 0) == seq!['.']);
    let f1 = name_field(blk, 1);
    assert(f1[0] == 46u8 && f1[1] == 46u8 && f1[2] == 0u8);
    assert(first_nul(f1, 2) == 2);
    assert(first_nul(f1, 1) == 2);
    assert(first_nul(f1, 0) == 2);
    assert(f1.subrange(0, 2) =~= seq![46u8, 46u8]);
    assert(ascii_chars(seq![46u8, 46u8]) =~= seq!['.', '.']);
    assert(slot_name(blk, 1) == seq!['.', '.']);
    assert(entries_upto(blk, 0) == Seq::<(u32, Seq<char>)>::empty());
    assert(u32_at(blk, (1 - 1) * 260) == root);
    assert(u32_at(blk, (2 - 1) * 260) == root);
    assert(entries_upto(blk, 1) == entries_upto(blk, 0).push((root, seq!['.'])));
    assert(entries_upto(blk, 2) == entries_upto(blk, 1).push((root, seq!['.', '.'])));
    assert(entries_upto(blk, 2) =~= seq![(root, seq!['.']), (root, seq!['.', '.'])]);
}

} // verus!
