use qr_file_system::adapter::{fileattr_from_inode, FileKind, ROOT_ID};
use qr_file_system::error::{FormatError, FsError, MountError};
use qr_file_system::inode::DiskInode;
use qr_file_system::mkfs::{format_volume, plan_layout, FormattedVolume};
use qr_file_system::volume::{BlockStore, QRFileSystem};

fn store_of(v: &FormattedVolume) -> BlockStore {
    let bs = v.layout.block_size as usize;
    let mut blocks: Vec<Option<Vec<u8>>> = Vec::new();
    for _ in 0..v.layout.total_blocks {
        blocks.push(Some(vec![0u8; bs]));
    }
    for w in &v.writes {
        blocks[w.index as usize] = Some(w.bytes.clone());
    }
    BlockStore { blocks }
}

fn fresh(block_size: u32, blocks: u32, inodes: u32) -> QRFileSystem {
    let v = format_volume(block_size, blocks, inodes).unwrap();
    QRFileSystem::mount(store_of(&v)).unwrap()
}

/// A volume with one regular file (inode 1) whose data lies in `data`,
/// `block_size` bytes per block, pointed at from `direct`.
fn with_file(data: &[(u32, Vec<u8>)], direct: [u32; 12], size: u32) -> QRFileSystem {
    let mut fs = fresh(1024, 20, 4);
    for (idx, bytes) in data {
        fs.store.blocks[*idx as usize] = Some(bytes.clone());
    }
    fs.inodes[1] = DiskInode {
        inode_number: 1,
        inode_mode: 0o100644,
        user_id: 0,
        group_id: 0,
        links: 1,
        size,
        direct,
        indirect1: 0,
    };
    fs
}

fn pattern(seed: u8, len: usize) -> Vec<u8> {
    (0..len).map(|i| seed.wrapping_add(i as u8)).collect()
}

#[test]
fn format_small_volume_layout() {
    let v = format_volume(1024, 10, 4).unwrap();
    assert_eq!(v.layout.inode_bitmap_start, 1);
    assert_eq!(v.layout.data_bitmap_start, 2);
    assert_eq!(v.layout.inode_table_start, 3);
    assert_eq!(v.layout.inode_table_blocks, 1);
    assert_eq!(v.layout.data_region_start, 4);
    assert_eq!(v.layout.root_dir_block, 4);
    let order: Vec<u32> = v.writes.iter().map(|w| w.index).collect();
    assert_eq!(order, vec![1, 2, 3, 4, 0]);
    assert_eq!(&v.data_bitmap[..6], b"111110");
    assert_eq!(&v.inode_bitmap[..3], b"100");
}

#[test]
fn format_then_mount_root_attributes() {
    let fs = fresh(1024, 10, 4);
    assert_eq!(fs.sb.data_region_start, 4);
    let attr = fs.getattr(ROOT_ID).unwrap();
    assert_eq!(attr.kind, FileKind::Directory);
    assert_eq!(attr.nlink, 2);
    assert_eq!(attr.size, 520);
    assert_eq!(attr.ino, 1);
    assert_eq!(attr.perm, 0o755);
    assert_eq!(attr.blocks, 2);
    assert_eq!(attr.blksize, 512);
    let root = fs.get_inode(0).unwrap();
    assert_eq!(root.direct[0], 4);
    assert_eq!(fs.inodes.len(), 4);
    assert_eq!(fs.get_inode(3).unwrap().inode_number, 3);
    assert!(fs.get_inode(4).is_none());
}

#[test]
fn format_rejects_too_many_blocks_or_inodes() {
    assert_eq!(format_volume(1024, 129, 10).err(), Some(FormatError::CapacityOutOfRange));
    assert_eq!(format_volume(1024, 100, 129).err(), Some(FormatError::CapacityOutOfRange));
    assert!(format_volume(1024, 128, 128).is_ok());
}

#[test]
fn format_rejects_block_size_out_of_range() {
    assert_eq!(format_volume(256, 100, 10).err(), Some(FormatError::BlockSizeOutOfRange));
    assert_eq!(format_volume(100000, 100, 10).err(), Some(FormatError::BlockSizeOutOfRange));
    assert!(format_volume(512, 100, 10).is_ok());
    assert!(format_volume(65536, 10, 10).is_ok());
}

#[test]
fn format_rejects_volume_without_data_region() {
    assert_eq!(format_volume(1024, 4, 4).err(), Some(FormatError::NoDataRegion));
    assert!(format_volume(1024, 5, 4).is_ok());
    // 128 inodes of 128 bytes take 32 blocks of 512 bytes
    let l = plan_layout(512, 40, 128).unwrap();
    assert_eq!(l.inode_table_blocks, 32);
    assert_eq!(l.data_region_start, 35);
    assert_eq!(plan_layout(512, 35, 128).err(), Some(FormatError::NoDataRegion));
}

#[test]
fn lookup_dot_resolves_to_root() {
    let fs = fresh(1024, 10, 4);
    let root = fs.get_inode(0).unwrap();
    assert_eq!(fs.lookup_child(&root, "."), Ok(0));
    let attr = fs.lookup(ROOT_ID, ".").unwrap();
    assert_eq!(attr.ino, 1);
    assert_eq!(fs.lookup_child(&root, "missing"), Err(FsError::NotFound));
}

#[test]
fn fresh_root_lists_dot_and_dotdot() {
    let fs = fresh(1024, 10, 4);
    let es = fs.list_directory(0).unwrap();
    assert_eq!(es.len(), 2);
    assert_eq!(es[0].name, ".");
    assert_eq!(es[0].inode, 0);
    assert_eq!(es[1].name, "..");
    assert_eq!(es[1].inode, 0);
    let listing = fs.readdir(ROOT_ID, 0).unwrap();
    assert_eq!(listing.len(), 2);
    assert!(listing.iter().all(|e| e.ino == 1 && e.kind == FileKind::Directory));
}

#[test]
fn lookup_dotdot_resolves_to_root() {
    let fs = fresh(1024, 10, 4);
    let root = fs.get_inode(0).unwrap();
    assert_eq!(fs.lookup_child(&root, ".."), Ok(0));
    let attr = fs.lookup(ROOT_ID, "..").unwrap();
    assert_eq!(attr.ino, 1);
    assert_eq!(attr.kind, FileKind::Directory);
}

#[test]
fn smallest_block_holds_only_dot() {
    // a 512-byte block has room for one whole 260-byte slot
    let fs = fresh(512, 10, 4);
    let es = fs.list_directory(0).unwrap();
    assert_eq!(es.len(), 1);
    assert_eq!(es[0].name, ".");
}

#[test]
fn list_directory_errors() {
    let fs = fresh(1024, 10, 4);
    assert_eq!(fs.list_directory(9).err(), Some(FsError::NotFound));
    assert_eq!(fs.list_directory(1).err(), Some(FsError::NotADirectory));
}

#[test]
fn lookup_in_non_directory_is_not_found() {
    let fs = with_file(&[], [0; 12], 0);
    let f = fs.get_inode(1).unwrap();
    assert_eq!(fs.lookup_child(&f, "."), Err(FsError::NotFound));
    assert_eq!(fs.lookup(2, ".").err(), Some(FsError::NotFound));
}

#[test]
fn lookup_reports_unreadable_directory_block() {
    let mut fs = fresh(1024, 10, 4);
    fs.store.blocks[4] = None;
    let root = fs.get_inode(0).unwrap();
    assert_eq!(fs.lookup_child(&root, "."), Err(FsError::Io));
    assert_eq!(fs.lookup(ROOT_ID, ".").err(), Some(FsError::Io));
}

#[test]
fn read_past_end_is_empty() {
    let fs = with_file(&[(10, pattern(1, 1024))], [10, 0, 0, 0, 0, 0, 0, 0, 0, 0, 0, 0], 100);
    let f = fs.get_inode(1).unwrap();
    assert_eq!(fs.read_file_range(&f, 100, 10).unwrap().len(), 0);
    assert_eq!(fs.read_file_range(&f, 5000, 10).unwrap().len(), 0);
    assert_eq!(fs.read_file_range(&f, u64::MAX, 10).unwrap().len(), 0);
}

#[test]
fn read_within_one_block() {
    let data = pattern(1, 1024);
    let fs = with_file(&[(10, data.clone())], [10, 0, 0, 0, 0, 0, 0, 0, 0, 0, 0, 0], 100);
    let f = fs.get_inode(1).unwrap();
    assert_eq!(fs.read_file_range(&f, 0, 10).unwrap(), data[0..10].to_vec());
    assert_eq!(fs.read_file_range(&f, 90, 50).unwrap(), data[90..100].to_vec());
    assert_eq!(fs.read_file_range(&f, 5, 0).unwrap().len(), 0);
}

#[test]
fn read_across_blocks() {
    let a = pattern(1, 1024);
    let b = pattern(77, 1024);
    let c = pattern(150, 1024);
    let fs = with_file(
        &[(10, a.clone()), (12, b.clone()), (11, c.clone())],
        [10, 12, 11, 0, 0, 0, 0, 0, 0, 0, 0, 0],
        3000,
    );
    let f = fs.get_inode(1).unwrap();
    let mut all = a.clone();
    all.extend_from_slice(&b);
    all.extend_from_slice(&c);
    assert_eq!(fs.read_file_range(&f, 1000, 100).unwrap(), all[1000..1100].to_vec());
    assert_eq!(fs.read_file_range(&f, 0, 5000).unwrap(), all[0..3000].to_vec());
    assert_eq!(fs.read_file_range(&f, 2048, 10).unwrap(), c[0..10].to_vec());
    assert_eq!(fs.read_file_range(&f, 1500, 2000).unwrap().len(), 1500);
}

#[test]
fn read_stops_at_zero_pointer() {
    let a = pattern(1, 1024);
    let fs = with_file(&[(10, a.clone())], [10, 0, 11, 0, 0, 0, 0, 0, 0, 0, 0, 0], 3000);
    let f = fs.get_inode(1).unwrap();
    assert_eq!(fs.read_file_range(&f, 1000, 100).unwrap(), a[1000..1024].to_vec());
    assert_eq!(fs.read_file_range(&f, 1100, 100).unwrap().len(), 0);
}

#[test]
fn read_only_touches_needed_blocks() {
    let a = pattern(1, 1024);
    // block 11 is missing, but a read inside block 10 never reaches it
    let mut fs = with_file(&[(10, a.clone())], [10, 11, 0, 0, 0, 0, 0, 0, 0, 0, 0, 0], 2048);
    fs.store.blocks[11] = None;
    let f = fs.get_inode(1).unwrap();
    assert_eq!(fs.read_file_range(&f, 0, 1024).unwrap(), a);
    assert_eq!(fs.read_file_range(&f, 0, 1025).err(), Some(FsError::Io));
}

#[test]
fn zero_length_read_touches_no_block() {
    let mut fs = with_file(&[], [10, 11, 0, 0, 0, 0, 0, 0, 0, 0, 0, 0], 2048);
    fs.store.blocks[10] = None;
    fs.store.blocks[11] = None;
    let f = fs.get_inode(1).unwrap();
    assert_eq!(fs.read_file_range(&f, 0, 0).unwrap().len(), 0);
    assert_eq!(fs.read_file_range(&f, 1024, 0).unwrap().len(), 0);
    assert_eq!(fs.read_file_range(&f, 5, 0).unwrap().len(), 0);
    assert_eq!(fs.read_file_range(&f, 0, 1).err(), Some(FsError::Io));
}

#[test]
fn read_of_block_beyond_volume_fails() {
    let fs = with_file(&[], [25, 0, 0, 0, 0, 0, 0, 0, 0, 0, 0, 0], 10);
    let f = fs.get_inode(1).unwrap();
    assert_eq!(fs.read_file_range(&f, 0, 10).err(), Some(FsError::Io));
    assert_eq!(fs.read_block_bytes(20).err(), Some(FsError::Io));
    assert_eq!(fs.read_block_bytes(4).unwrap().len(), 1024);
}

#[test]
fn read_short_block_fails() {
    let fs = with_file(&[(10, vec![1u8; 100])], [10, 0, 0, 0, 0, 0, 0, 0, 0, 0, 0, 0], 10);
    let f = fs.get_inode(1).unwrap();
    assert_eq!(fs.read_file_range(&f, 0, 10).err(), Some(FsError::Io));
}

#[test]
fn read_length_is_min_of_request_and_rest() {
    let blocks: Vec<(u32, Vec<u8>)> = (0..3).map(|i| (10 + i, pattern(i as u8, 1024))).collect();
    let fs = with_file(&blocks, [10, 11, 12, 0, 0, 0, 0, 0, 0, 0, 0, 0], 2500);
    let f = fs.get_inode(1).unwrap();
    for &(off, len) in &[(0u64, 10usize), (0, 2500), (0, 9999), (2499, 5), (1023, 2), (700, 1800)] {
        let got = fs.read_file_range(&f, off, len).unwrap();
        assert_eq!(got.len(), std::cmp::min(len as u64, 2500 - off) as usize);
    }
}

#[test]
fn adapter_read_and_open() {
    let a = pattern(3, 1024);
    let fs = with_file(&[(10, a.clone())], [10, 0, 0, 0, 0, 0, 0, 0, 0, 0, 0, 0], 50);
    assert_eq!(fs.read(2, 10, 5).unwrap(), a[10..15].to_vec());
    assert_eq!(fs.read(2, -1, 5).unwrap().len(), 0);
    assert_eq!(fs.read(ROOT_ID, 0, 5).err(), Some(FsError::IsADirectory));
    assert_eq!(fs.read(99, 0, 5).err(), Some(FsError::NotFound));
    assert_eq!(fs.open(2), Ok(()));
    assert_eq!(fs.open(ROOT_ID), Err(FsError::IsADirectory));
    assert_eq!(fs.open(0), Err(FsError::NotFound));
}

#[test]
fn adapter_identifier_mapping() {
    let fs = fresh(1024, 10, 4);
    assert_eq!(fs.inode_number_of(1), Some(0));
    assert_eq!(fs.inode_number_of(3), Some(2));
    assert_eq!(fs.inode_number_of(0), None);
    assert_eq!(fs.inode_number_of(1 << 40), None);
    assert_eq!(fs.getattr(0).err(), Some(FsError::NotFound));
    assert_eq!(fs.getattr(4).unwrap().ino, 4);
    assert_eq!(fs.getattr(5).err(), Some(FsError::NotFound));
}

#[test]
fn adapter_readdir_offsets() {
    let mut fs = fresh(2048, 10, 4);
    let mut blk = vec![0u8; 2048];
    for (slot, (ino, name)) in [(0u32, "."), (0, ".."), (1, "f"), (2, "d")].iter().enumerate() {
        let off = slot * 260;
        blk[off..off + 4].copy_from_slice(&ino.to_le_bytes());
        blk[off + 4..off + 4 + name.len()].copy_from_slice(name.as_bytes());
    }
    fs.store.blocks[4] = Some(blk);
    fs.inodes[2].inode_mode = 0o040755;
    let all = fs.readdir(ROOT_ID, 0).unwrap();
    let names: Vec<&str> = all.iter().map(|e| e.name.as_str()).collect();
    assert_eq!(names, vec![".", "..", "f", "d"]);
    assert_eq!(all[2].ino, 2);
    assert_eq!(all[2].offset, 3);
    assert_eq!(all[2].kind, FileKind::RegularFile);
    assert_eq!(all[3].kind, FileKind::Directory);
    let rest = fs.readdir(ROOT_ID, 2).unwrap();
    assert_eq!(rest.len(), 2);
    assert_eq!(rest[0].name, "f");
    assert_eq!(fs.readdir(ROOT_ID, 4).unwrap().len(), 0);
    assert_eq!(fs.readdir(2, 0).err(), Some(FsError::NotADirectory));
    assert_eq!(fs.lookup(ROOT_ID, "..").unwrap().ino, 1);
    assert_eq!(fs.lookup(ROOT_ID, "d").unwrap().kind, FileKind::Directory);
}

#[test]
fn fileattr_rounds_blocks_up() {
    let mut d = DiskInode::free_slot(6);
    d.size = 513;
    d.inode_mode = 0o100640;
    d.links = 3;
    let a = fileattr_from_inode(&d);
    assert_eq!(a.ino, 7);
    assert_eq!(a.blocks, 2);
    assert_eq!(a.perm, 0o640);
    assert_eq!(a.kind, FileKind::RegularFile);
    assert_eq!(a.nlink, 3);
}

#[test]
fn mount_errors() {
    assert_eq!(QRFileSystem::mount(BlockStore { blocks: vec![] }).err(), Some(MountError::Io));
    assert_eq!(QRFileSystem::mount(BlockStore { blocks: vec![None] }).err(), Some(MountError::Io));
    assert_eq!(
        QRFileSystem::mount(BlockStore { blocks: vec![Some(vec![0u8; 100])] }).err(),
        Some(MountError::Format(FormatError::TooSmall))
    );
    assert_eq!(
        QRFileSystem::mount(BlockStore { blocks: vec![Some(vec![0u8; 400])] }).err(),
        Some(MountError::Format(FormatError::BadMagic))
    );
    let v = format_volume(1024, 10, 4).unwrap();
    let mut store = store_of(&v);
    if let Some(b0) = &mut store.blocks[0] {
        b0[8..12].copy_from_slice(&[0, 0, 0, 0]);
    }
    assert_eq!(
        QRFileSystem::mount(store).err(),
        Some(MountError::Format(FormatError::ZeroBlockSize))
    );
    let mut store = store_of(&v);
    store.blocks[3] = None;
    assert_eq!(QRFileSystem::mount(store).err(), Some(MountError::Io));
}

#[test]
fn mount_pads_table_cut_by_volume_end() {
    // a superblock that claims more inode-table blocks than the volume has
    let v = format_volume(512, 10, 8).unwrap();
    let mut store = store_of(&v);
    if let Some(b0) = &mut store.blocks[0] {
        b0[12..16].copy_from_slice(&4u32.to_le_bytes());
        b0[16..20].copy_from_slice(&20u32.to_le_bytes());
    }
    let fs = QRFileSystem::mount(store).unwrap();
    assert_eq!(fs.inodes.len(), 20);
    assert_eq!(fs.inodes[0].size, 520);
    assert_eq!(fs.inodes[4].inode_number, 4);
    assert_eq!(fs.inodes[19].inode_number, 19);
    assert_eq!(fs.inodes[19].inode_mode, 0);
}

#[test]
fn load_table_reads_fresh_table() {
    let v = format_volume(1024, 10, 12).unwrap();
    let store = store_of(&v);
    let b0 = store.blocks[0].clone().unwrap();
    let sb = qr_file_system::superblock::Superblock::parse(&b0).unwrap();
    let table = qr_file_system::volume::load_table(&sb, &store).unwrap();
    assert_eq!(table.len(), 12);
    assert_eq!(table[0].inode_mode, 0o040755);
    assert_eq!(table[0].direct[0], sb.data_region_start);
    assert_eq!(table[11].inode_number, 11);
    let mut broken = store_of(&v);
    broken.blocks[4] = Some(vec![0u8; 10]);
    assert_eq!(qr_file_system::volume::load_table(&sb, &broken).err(), Some(FsError::Io));
}
