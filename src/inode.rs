//! Inode records: 128 bytes each, stored back to back in the inode table.

use vstd::prelude::*;
use crate::bytes::{holds_u32, lemma_u32_round_trip, u32_at, u32le_from, u32le_write};

verus! {

/// Bytes of one stored inode record.
pub const INODE_RECORD_LEN: usize = 128;

/// Direct block pointers held by an inode.
pub const DIRECT_POINTERS: usize = 12;

/// The type bit that marks a directory in `inode_mode`.
pub const S_IFDIR: u32 = 0o040000;

/// One slot of the inode table.
#[derive(Clone, Copy, Debug)]
pub struct DiskInode {
    /// Position of the slot in the table.
    pub inode_number: u32,
    /// File type and permission bits.
    pub inode_mode: u32,
    pub user_id: u32,
    pub group_id: u32,
    pub links: u32,
    /// Length in bytes of the file, or of a directory's entry payload.
    pub size: u32,
    /// Data block indices; `0` ends the sequence.
    pub direct: [u32; 12],
    /// Reserved for an indirect block; never followed.
    pub indirect1: u32,
}

/// `d` holds the fields stored at their offsets in `b`.
pub open spec fn decodes(d: DiskInode, b: Seq<u8>) -> bool {
    &&& b.len() >= 76
    &&& d.inode_number == u32_at(b, 0)
    &&& d.inode_mode == u32_at(b, 4)
    &&& d.user_id == u32_at(b, 8)
    &&& d.group_id == u32_at(b, 12)
    &&& d.links == u32_at(b, 16)
    &&& d.size == u32_at(b, 20)
    &&& forall|k: int| 0 <= k < 12 ==> d.direct@[k] == #[trigger] u32_at(b, 24 + 4 * k)
    &&& d.indirect1 == u32_at(b, 72)
}

/// `b` is the 128-byte stored form of `d`: each field at its offset, the
/// reserved tail zero.
pub open spec fn encodes_inode(b: Seq<u8>, d: DiskInode) -> bool {
    &&& b.len() == INODE_RECORD_LEN
    &&& holds_u32(b, 0, d.inode_number)
    &&& holds_u32(b, 4, d.inode_mode)
    &&& holds_u32(b, 8, d.user_id)
    &&& holds_u32(b, 12, d.group_id)
    &&& holds_u32(b, 16, d.links)
    &&& holds_u32(b, 20, d.size)
    &&& forall|k: int| 0 <= k < 12 ==> #[trigger] holds_u32(b, 24 + 4 * k, d.direct@[k])
    &&& holds_u32(b, 72, d.indirect1)
    &&& forall|i: int| 76 <= i < INODE_RECORD_LEN ==> b[i] == 0u8
}

/// Every byte of `b` is zero.
pub open spec fn all_zero(b: Seq<u8>) -> bool {
    forall|i: int| 0 <= i < b.len() ==> b[i] == 0u8
}

/// Every field of `d` is zero.
pub open spec fn is_zero_inode(d: DiskInode) -> bool {
    &&& d.inode_number == 0
    &&& d.inode_mode == 0
    &&& d.user_id == 0
    &&& d.group_id == 0
    &&& d.links == 0
    &&& d.size == 0
    &&& forall|k: int| 0 <= k < 12 ==> d.direct@[k] == 0
    &&& d.indirect1 == 0
}

/// `d` is the free-slot sentinel for position `index`: the number is the
/// position, every other field zero.
pub open spec fn is_free_slot(d: DiskInode, index: u32) -> bool {
    &&& d.inode_number == index
    &&& d.inode_mode == 0
    &&& d.user_id == 0
    &&& d.group_id == 0
    &&& d.links == 0
    &&& d.size == 0
    &&& forall|k: int| 0 <= k < 12 ==> d.direct@[k] == 0
    &&& d.indirect1 == 0
}

/// What decoding the record `b` at position `index` gives: the free-slot
/// sentinel when every byte is zero, the stored fields otherwise.
pub open spec fn decoded_record(d: DiskInode, b: Seq<u8>, index: u32) -> bool {
    if all_zero(b) {
        is_free_slot(d, index)
    } else {
        decodes(d, b)
    }
}

impl DiskInode {
    /// Reads the fields of a record.
    pub fn from_bytes(buf: &[u8]) -> (r: DiskInode)
        requires
            buf@.len() >= 76,
        ensures
            decodes(r, buf@),
    {
        let n = buf.len();
        let inode_number = u32le_from(&buf[0..4]);
        let inode_mode = u32le_from(&buf[4..8]);
        let user_id = u32le_from(&buf[8..12]);
        let group_id = u32le_from(&buf[12..16]);
        let links = u32le_from(&buf[16..20]);
        let size = u32le_from(&buf[20..24]);
        let mut direct = [0u32; 12];
        let mut i: usize = 0;
        while i < DIRECT_POINTERS
            invariant
                i <= DIRECT_POINTERS,
                n == buf@.len(),
                n >= 76,
                forall|k: int| 0 <= k < i ==> direct@[k] == #[trigger] u32_at(buf@, 24 + 4 * k),
            decreases DIRECT_POINTERS - i,
        {
            direct[i] = u32le_from(&buf[24 + i * 4..24 + i * 4 + 4]);
            i = i + 1;
        }
        let indirect1 = u32le_from(&buf[72..76]);
        DiskInode { inode_number, inode_mode, user_id, group_id, links, size, direct, indirect1 }
    }

    /// The slot at position `index` when nothing is stored there.
    pub fn free_slot(index: u32) -> (r: DiskInode)
        ensures
            is_free_slot(r, index),
    {
        DiskInode {
            inode_number: index,
            inode_mode: 0,
            user_id: 0,
            group_id: 0,
            links: 0,
            size: 0,
            direct: [0u32; 12],
            indirect1: 0,
        }
    }

    /// Decodes the record at position `index`; an all-zero record is a free slot.
    pub fn decode_record(rec: &[u8], index: u32) -> (r: DiskInode)
        requires
            rec@.len() == INODE_RECORD_LEN,
        ensures
            decoded_record(r, rec@, index),
    {
        if is_all_zero(rec) {
            DiskInode::free_slot(index)
        } else {
            DiskInode::from_bytes(rec)
        }
    }

    /// Whether the mode marks a directory.
    pub fn is_dir(&self) -> (r: bool)
        ensures
            r == (self.inode_mode & S_IFDIR == S_IFDIR),
    {
        (self.inode_mode & S_IFDIR) == S_IFDIR
    }

    /// The 128-byte stored form of this inode.
    pub fn encode_record(&self) -> (r: Vec<u8>)
        ensures
            encodes_inode(r@, *self),
    {
        let mut out: Vec<u8> = vec![0u8; INODE_RECORD_LEN];
        inode_serialize128(
            &mut out,
            self.inode_number,
            self.inode_mode,
            self.user_id,
            self.group_id,
            self.links,
            self.size,
            &self.direct,
            self.indirect1,
        );
        out
    }
}

/// Whether every byte of `b` is zero.
fn is_all_zero(b: &[u8]) -> (r: bool)
    ensures
        r == all_zero(b@),
{
    let n = b.len();
    let mut i: usize = 0;
    while i < n
        invariant
            i <= n,
            n == b@.len(),
            forall|k: int| 0 <= k < i ==> b@[k] == 0u8,
        decreases n - i,
    {
        if b[i] != 0 {
            return false;
        }
        i = i + 1;
    }
    true
}

/// Overwrites the 128-byte record `out` with the given fields, the reserved
/// tail zeroed.
pub fn inode_serialize128(
    out: &mut Vec<u8>,
    inode_number: u32,
    inode_mode: u32,
    user_id: u32,
    group_id: u32,
    links: u32,
    size: u32,
    direct: &[u32; 12],
    indirect1: u32,
)
    requires
        old(out)@.len() == INODE_RECORD_LEN,
    ensures
        encodes_inode(
            final(out)@,
            (DiskInode {
                inode_number,
                inode_mode,
                user_id,
                group_id,
                links,
                size,
                direct: *direct,
                indirect1,
            }),
        ),
{
    let mut z: usize = 0;
    while z < INODE_RECORD_LEN
        invariant
            z <= INODE_RECORD_LEN,
            out@.len() == INODE_RECORD_LEN,
            forall|i: int| 0 <= i < z ==> out@[i] == 0u8,
        decreases INODE_RECORD_LEN - z,
    {
        out.set(z, 0u8);
        z = z + 1;
    }
    u32le_write(inode_number, out, 0);
    u32le_write(inode_mode, out, 4);
    u32le_write(user_id, out, 8);
    u32le_write(group_id, out, 12);
    u32le_write(links, out, 16);
    u32le_write(size, out, 20);
    let mut i: usize = 0;
    while i < DIRECT_POINTERS
        invariant
            i <= DIRECT_POINTERS,
            out@.len() == INODE_RECORD_LEN,
            holds_u32(out@, 0, inode_number),
            holds_u32(out@, 4, inode_mode),
            holds_u32(out@, 8, user_id),
            holds_u32(out@, 12, group_id),
            holds_u32(out@, 16, links),
            holds_u32(out@, 20, size),
            forall|k: int| 0 <= k < i ==> #[trigger] holds_u32(out@, 24 + 4 * k, direct@[k]),
            forall|j: int| 72 <= j < INODE_RECORD_LEN ==> out@[j] == 0u8,
        decreases DIRECT_POINTERS - i,
    {
        let ghost prev = out@;
        u32le_write(direct[i], out, 24 + i * 4);
        assert forall|k: int| 0 <= k < i + 1 implies #[trigger] holds_u32(
            out@,
            24 + 4 * k,
            direct@[k],
        ) by {
            if k < i {
                assert(holds_u32(prev, 24 + 4 * k, direct@[k]));
            }
        }
        i = i + 1;
    }
    let ghost prev = out@;
    u32le_write(indirect1, out, 72);
    assert forall|k: int| 0 <= k < 12 implies #[trigger] holds_u32(out@, 24 + 4 * k, direct@[k]) by {
        assert(holds_u32(prev, 24 + 4 * k, direct@[k]));
    }
}

/// Encoding an inode and decoding the record again gives the same inode,
/// except for the inode whose fields are all zero: its record is all zero,
/// which decodes to the free-slot sentinel of whatever position it is read at.
pub proof fn lemma_inode_round_trip(d: DiskInode, b: Seq<u8>, index: u32, decoded: DiskInode)
    requires
        encodes_inode(b, d),
        decoded_record(decoded, b, index),
    ensures
        is_zero_inode(d) ==> is_free_slot(decoded, index),
        !is_zero_inode(d) ==> decoded == d,
{
    lemma_u32_round_trip(b, 0, d.inode_number);
    lemma_u32_round_trip(b, 4, d.inode_mode);
    lemma_u32_round_trip(b, 8, d.user_id);
    lemma_u32_round_trip(b, 12, d.group_id);
    lemma_u32_round_trip(b, 16, d.links);
    lemma_u32_round_trip(b, 20, d.size);
    lemma_u32_round_trip(b, 72, d.indirect1);
    assert forall|k: int| 0 <= k < 12 implies u32_at(b, 24 + 4 * k) == d.direct@[k] by {
        assert(holds_u32(b, 24 + 4 * k, d.direct@[k]));
        lemma_u32_round_trip(b, 24 + 4 * k, d.direct@[k]);
    }
    if is_zero_inode(d) {
        assert forall|i: int| 0 <= i < b.len() implies b[i] == 0u8 by {
            if i < 76 {
                if i < 24 {
                    let f = i / 4;
                    assert(holds_u32(b, 4 * f, 0u32));
                } else if i < 72 {
                    let k = (i - 24) / 4;
                    assert(holds_u32(b, 24 + 4 * k, d.direct@[k]));
                } else {
                    assert(holds_u32(b, 72, 0u32));
                }
            }
        }
    } else {
        if all_zero(b) {
            assert(u32_at(b, 0) == 0);
            assert forall|k: int| 0 <= k < 12 implies d.direct@[k] == 0 by {
                assert(u32_at(b, 24 + 4 * k) == 0);
            }
            assert(false);
        }
        assert(decoded.direct =~= d.direct);
    }
}

} // verus!
