use qr_file_system::arith::ceil_div;
use qr_file_system::bytes::{u32le_from, u32le_write};
use qr_file_system::dir::{build_root_dir_block, decode_entries};
use qr_file_system::error::FormatError;
use qr_file_system::inode::{inode_serialize128, DiskInode};
use qr_file_system::superblock::{write_superblock_with_offsets, Superblock};

fn sample_superblock() -> Superblock {
    let mut ib = [b'0'; 128];
    ib[0] = b'1';
    let mut db = [b'0'; 128];
    for i in 0..5 {
        db[i] = b'1';
    }
    Superblock {
        version: 7,
        block_size: 1024,
        total_blocks: 100,
        total_inodes: 10,
        inode_bitmap: ib,
        data_bitmap: db,
        root_inode: 0,
        inode_bitmap_start: 1,
        inode_bitmap_blocks: 1,
        data_bitmap_start: 2,
        data_bitmap_blocks: 1,
        inode_table_start: 3,
        inode_table_blocks: 2,
        data_region_start: 5,
    }
}

fn same_superblock(a: &Superblock, b: &Superblock) -> bool {
    a.version == b.version
        && a.block_size == b.block_size
        && a.total_blocks == b.total_blocks
        && a.total_inodes == b.total_inodes
        && a.inode_bitmap == b.inode_bitmap
        && a.data_bitmap == b.data_bitmap
        && a.root_inode == b.root_inode
        && a.inode_bitmap_start == b.inode_bitmap_start
        && a.inode_bitmap_blocks == b.inode_bitmap_blocks
        && a.data_bitmap_start == b.data_bitmap_start
        && a.data_bitmap_blocks == b.data_bitmap_blocks
        && a.inode_table_start == b.inode_table_start
        && a.inode_table_blocks == b.inode_table_blocks
        && a.data_region_start == b.data_region_start
}

#[test]
fn u32le_from_reads_little_endian() {
    assert_eq!(u32le_from(&[0x78, 0x56, 0x34, 0x12, 0xff]), 0x1234_5678);
    assert_eq!(u32le_from(&[0xff, 0xff, 0xff, 0xff]), u32::MAX);
    assert_eq!(u32le_from(&[0, 0, 0, 0]), 0);
}

#[test]
fn u32le_write_places_bytes_and_keeps_the_rest() {
    let mut buf = vec![9u8; 8];
    u32le_write(0x1234_5678, &mut buf, 2);
    assert_eq!(buf, vec![9, 9, 0x78, 0x56, 0x34, 0x12, 9, 9]);
}

#[test]
fn ceil_div_rounds_up() {
    assert_eq!(ceil_div(512, 1024), 1);
    assert_eq!(ceil_div(1024, 1024), 1);
    assert_eq!(ceil_div(1025, 1024), 2);
    assert_eq!(ceil_div(0, 512), 0);
    assert_eq!(ceil_div(16384, 512), 32);
}

#[test]
fn superblock_serialize_then_parse_round_trips() {
    let sb = sample_superblock();
    let bytes = sb.serialize();
    assert_eq!(bytes.len(), 1024);
    assert_eq!(&bytes[0..4], b"QRFS");
    assert_eq!(&bytes[4..8], &[7, 0, 0, 0]);
    assert_eq!(&bytes[304..308], &[5, 0, 0, 0]);
    assert!(bytes[308..].iter().all(|&b| b == 0));
    let back = Superblock::parse(&bytes).unwrap();
    assert!(same_superblock(&sb, &back));
}

#[test]
fn superblock_parse_rejects_short_block() {
    let bytes = sample_superblock().serialize();
    assert_eq!(Superblock::parse(&bytes[..307]).unwrap_err(), FormatError::TooSmall);
    assert!(Superblock::parse(&bytes[..308]).is_ok());
    assert_eq!(Superblock::parse(&[]).unwrap_err(), FormatError::TooSmall);
}

#[test]
fn superblock_parse_rejects_bad_magic() {
    let mut bytes = sample_superblock().serialize();
    bytes[3] = b'X';
    assert_eq!(Superblock::parse(&bytes).unwrap_err(), FormatError::BadMagic);
}

#[test]
fn write_superblock_with_offsets_records_version_one() {
    let ib = [b'0'; 128];
    let db = [b'1'; 128];
    let bytes = write_superblock_with_offsets(512, 10, 4, &ib, &db, 0, 1, 1, 2, 1, 3, 1, 4);
    assert_eq!(bytes.len(), 512);
    let sb = Superblock::parse(&bytes).unwrap();
    assert_eq!(sb.version, 1);
    assert_eq!(sb.block_size, 512);
    assert_eq!(sb.total_blocks, 10);
    assert_eq!(sb.total_inodes, 4);
    assert_eq!(sb.inode_bitmap, ib);
    assert_eq!(sb.data_bitmap, db);
    assert_eq!(sb.inode_table_start, 3);
    assert_eq!(sb.data_region_start, 4);
}

fn sample_inode() -> DiskInode {
    let mut direct = [0u32; 12];
    direct[0] = 7;
    direct[1] = 8;
    direct[11] = 0xdead_beef;
    DiskInode {
        inode_number: 3,
        inode_mode: 0o100644,
        user_id: 1000,
        group_id: 100,
        links: 1,
        size: 1500,
        direct,
        indirect1: 42,
    }
}

#[test]
fn inode_encode_then_decode_round_trips() {
    let d = sample_inode();
    let rec = d.encode_record();
    assert_eq!(rec.len(), 128);
    assert_eq!(&rec[20..24], &[0xdc, 0x05, 0, 0]);
    assert_eq!(&rec[72..76], &[42, 0, 0, 0]);
    assert!(rec[76..].iter().all(|&b| b == 0));
    let back = DiskInode::decode_record(&rec, 9);
    assert_eq!(back.inode_number, 3);
    assert_eq!(back.inode_mode, 0o100644);
    assert_eq!(back.user_id, 1000);
    assert_eq!(back.group_id, 100);
    assert_eq!(back.links, 1);
    assert_eq!(back.size, 1500);
    assert_eq!(back.direct, d.direct);
    assert_eq!(back.indirect1, 42);
}

#[test]
fn all_zero_inode_decodes_to_free_slot_at_its_position() {
    let zero = DiskInode::free_slot(0);
    let rec = zero.encode_record();
    assert!(rec.iter().all(|&b| b == 0));
    let back = DiskInode::decode_record(&rec, 5);
    assert_eq!(back.inode_number, 5);
    assert_eq!(back.inode_mode, 0);
    assert_eq!(back.size, 0);
    assert_eq!(back.direct, [0u32; 12]);
}

#[test]
fn inode_serialize128_overwrites_the_record() {
    let mut out = vec![0xffu8; 128];
    let mut direct = [0u32; 12];
    direct[0] = 4;
    inode_serialize128(&mut out, 0, 0o040755, 0, 0, 2, 520, &direct, 0);
    let d = DiskInode::from_bytes(&out);
    assert_eq!(d.inode_mode, 0o040755);
    assert_eq!(d.links, 2);
    assert_eq!(d.size, 520);
    assert_eq!(d.direct[0], 4);
    assert!(d.is_dir());
    assert!(out[76..].iter().all(|&b| b == 0));
}

#[test]
fn is_dir_reads_the_directory_bit() {
    let mut d = sample_inode();
    assert!(!d.is_dir());
    d.inode_mode = 0o040000;
    assert!(d.is_dir());
    d.inode_mode = 0o777;
    assert!(!d.is_dir());
}

#[test]
fn decode_entries_skips_empty_names() {
    let mut blk = vec![0u8; 1024];
    // slot 0: "a", slot 1: empty, slot 2: "bc"
    blk[0..4].copy_from_slice(&5u32.to_le_bytes());
    blk[4] = b'a';
    blk[260..264].copy_from_slice(&6u32.to_le_bytes());
    blk[520..524].copy_from_slice(&7u32.to_le_bytes());
    blk[524] = b'b';
    blk[525] = b'c';
    let es = decode_entries(&blk);
    assert_eq!(es.len(), 2);
    assert_eq!(es[0].inode, 5);
    assert_eq!(es[0].name, "a");
    assert_eq!(es[1].inode, 7);
    assert_eq!(es[1].name, "bc");
}

#[test]
fn decode_entries_takes_whole_field_without_nul() {
    let mut blk = vec![0u8; 520];
    for b in &mut blk[4..260] {
        *b = b'x';
    }
    let es = decode_entries(&blk);
    assert_eq!(es.len(), 1);
    assert_eq!(es[0].name.len(), 256);
    assert!(es[0].name.chars().all(|c| c == 'x'));
}

#[test]
fn decode_entries_replaces_invalid_utf8() {
    let mut blk = vec![0u8; 260];
    blk[4] = b'a';
    blk[5] = 0xff;
    let es = decode_entries(&blk);
    assert_eq!(es.len(), 1);
    assert_eq!(es[0].name, "a\u{fffd}");
}

#[test]
fn decode_entries_ignores_partial_slot() {
    let mut blk = vec![0u8; 259];
    blk[4] = b'a';
    assert_eq!(decode_entries(&blk).len(), 0);
}

#[test]
fn build_root_dir_block_places_both_entries() {
    let mut blk = vec![0xaau8; 1100];
    build_root_dir_block(&mut blk, 1024, 3);
    assert_eq!(&blk[0..4], &[3, 0, 0, 0]);
    assert_eq!(blk[4], b'.');
    assert_eq!(blk[5], 0);
    assert_eq!(&blk[260..264], &[3, 0, 0, 0]);
    assert_eq!(&blk[264..266], b"..");
    assert_eq!(blk[266], 0);
    assert!(blk[1024..].iter().all(|&b| b == 0xaa));
    assert!(blk[266..1024].iter().all(|&b| b == 0));
    let es = decode_entries(&blk[..1024]);
    assert_eq!(es.len(), 2);
    assert_eq!(es[0].inode, 3);
    assert_eq!(es[0].name, ".");
    assert_eq!(es[1].inode, 3);
    assert_eq!(es[1].name, "..");
}
