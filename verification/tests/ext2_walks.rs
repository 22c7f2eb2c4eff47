//! End-to-end walks over a synthetic 1 KiB-block EXT2 image: locating a
//! file through a subdirectory, deleting it, and checking the directory
//! entry, bitmap and inode edits byte by byte.

use rawvol::ext2::Ext2;
use rawvol::generics::{GenericVolume, VolumeError};

fn w16(d: &mut Vec<u8>, off: usize, v: u16) {
    d[off] = (v % 256) as u8;
    d[off + 1] = (v / 256) as u8;
}

fn w32(d: &mut Vec<u8>, off: usize, v: u32) {
    d[off] = (v & 0xff) as u8;
    d[off + 1] = ((v >> 8) & 0xff) as u8;
    d[off + 2] = ((v >> 16) & 0xff) as u8;
    d[off + 3] = ((v >> 24) & 0xff) as u8;
}

fn r16(d: &[u8], off: usize) -> u16 {
    d[off] as u16 | ((d[off + 1] as u16) << 8)
}

fn r32(d: &[u8], off: usize) -> u32 {
    d[off] as u32
        | ((d[off + 1] as u32) << 8)
        | ((d[off + 2] as u32) << 16)
        | ((d[off + 3] as u32) << 24)
}

fn write_dirent(d: &mut Vec<u8>, off: usize, inode: u32, rec_len: u16, name: &[u8], ftype: u8) {
    w32(d, off, inode);
    w16(d, off + 4, rec_len);
    d[off + 6] = name.len() as u8;
    d[off + 7] = ftype;
    d[off + 8..off + 8 + name.len()].copy_from_slice(name);
}

fn write_inode(d: &mut Vec<u8>, off: usize, mode: u16, size: u32, i_blocks: u32, block0: u32) {
    w16(d, off, mode);
    w32(d, off + 4, size);
    w16(d, off + 26, 1); // link count
    w32(d, off + 28, i_blocks);
    w32(d, off + 40, block0);
}

/// A 16-block, 1 KiB-block volume: root inode 2 holds "docs" (inode 12),
/// "deep" (inode 13, a directory reached through a single-indirect block)
/// and "b.txt" (inode 14, 7 bytes); "docs" holds "a.txt" (inode 15, 42
/// bytes, data block 10); "deep" holds "c.txt" (inode 11, 55 bytes).
fn build_ext2_image() -> Vec<u8> {
    let mut d = vec![0u8; 16 * 1024];
    // superblock at 1024
    w32(&mut d, 1024, 16); // inode count
    w32(&mut d, 1028, 16); // block count
    w32(&mut d, 1032, 0); // reserved blocks
    w32(&mut d, 1036, 9); // free blocks
    w32(&mut d, 1040, 1); // free inodes
    w32(&mut d, 1044, 1); // first data block
    w32(&mut d, 1048, 0); // log block size -> 1024
    w32(&mut d, 1056, 8192); // blocks per group
    w32(&mut d, 1060, 8192); // frags per group
    w32(&mut d, 1064, 16); // inodes per group
    w32(&mut d, 1068, 0); // last mount
    w32(&mut d, 1072, 0); // last write
    w32(&mut d, 1088, 0); // last check
    w32(&mut d, 1108, 11); // first inode
    w16(&mut d, 1112, 128); // inode size
    d[1080] = 0x53;
    d[1081] = 0xEF;
    d[1144..1150].copy_from_slice(b"VOLLAB");
    // group descriptor at block 2 (byte 2048): inode table starts at block 5
    w32(&mut d, 2048 + 8, 5);
    // block bitmap at block 3 (3072): blocks 8..=14 allocated
    d[3072 + 1] = 0x7F;
    // inode bitmap at block 4 (4096): inodes 2, 11, 12, 13, 14, 15
    d[4096] = 0x02;
    d[4097] = 0x7C;
    // inode table at block 5 (5120), 128-byte inodes
    write_inode(&mut d, 5120 + 128, 0x4000, 1024, 2, 8); // inode 2: root dir
    write_inode(&mut d, 5120 + 10 * 128, 0x8000, 55, 2, 14); // inode 11: c.txt
    write_inode(&mut d, 5120 + 11 * 128, 0x4000, 1024, 2, 9); // inode 12: docs
    // inode 13: "deep", 13 blocks used, so its directory data is reached
    // through the single-indirect block 12 (its 12 direct slots are empty)
    write_inode(&mut d, 5120 + 12 * 128, 0x4000, 1024, 26, 0);
    w32(&mut d, 5120 + 12 * 128 + 40 + 4 * 12, 12); // single-indirect slot
    write_inode(&mut d, 5120 + 13 * 128, 0x8000, 7, 2, 11); // inode 14: b.txt
    write_inode(&mut d, 5120 + 14 * 128, 0x8000, 42, 2, 10); // inode 15: a.txt
    // root directory, block 8 (8192)
    write_dirent(&mut d, 8192, 2, 12, b".", 2);
    write_dirent(&mut d, 8204, 2, 12, b"..", 2);
    write_dirent(&mut d, 8216, 12, 16, b"docs", 2);
    write_dirent(&mut d, 8232, 13, 16, b"deep", 2);
    write_dirent(&mut d, 8248, 14, 968, b"b.txt", 1);
    // docs directory, block 9 (9216)
    write_dirent(&mut d, 9216, 12, 12, b".", 2);
    write_dirent(&mut d, 9228, 2, 12, b"..", 2);
    write_dirent(&mut d, 9240, 15, 1000, b"a.txt", 1);
    // single-indirect block 12 (12288): one pointer, to block 13
    w32(&mut d, 12288, 13);
    // deep directory, block 13 (13312)
    write_dirent(&mut d, 13312, 13, 12, b".", 2);
    write_dirent(&mut d, 13324, 2, 12, b"..", 2);
    write_dirent(&mut d, 13336, 11, 1000, b"c.txt", 1);
    d
}

fn open_ext2(data: Vec<u8>, name: &[u8]) -> Ext2 {
    Ext2::new(GenericVolume::new(data, name.to_vec())).unwrap()
}

#[test]
fn locate_through_subdirectory_returns_inode_size() {
    let e = open_ext2(build_ext2_image(), b"a.txt");
    let fr = e.locate().unwrap().unwrap();
    assert_eq!(fr.file_size, 42);
    assert_eq!(fr.file_inode, 15);
    assert_eq!(fr.parent_directory_offset, 9228);
}

#[test]
fn locate_in_root_after_subdirectory() {
    let e = open_ext2(build_ext2_image(), b"b.txt");
    let fr = e.locate().unwrap().unwrap();
    assert_eq!(fr.file_size, 7);
    assert_eq!(fr.file_inode, 14);
}

#[test]
fn locate_missing_name_returns_none() {
    let e = open_ext2(build_ext2_image(), b"missing.txt");
    assert_eq!(e.locate().unwrap(), None);
}

#[test]
fn rec_len_sums_equal_block_size() {
    let e = open_ext2(build_ext2_image(), b"a.txt");
    assert_eq!(e.dir_rec_len_sum(8192).unwrap(), 1024);
    assert_eq!(e.dir_rec_len_sum(9216).unwrap(), 1024);
}

#[test]
fn remove_then_locate_returns_none_and_others_unchanged() {
    let img = build_ext2_image();
    let e = open_ext2(img.clone(), b"a.txt");
    let nd = e.remove_at(123_456).unwrap().unwrap();
    // the original buffer was never touched
    assert_eq!(e.data, img);
    // a.txt is gone from the edited copy
    let e2 = open_ext2(nd.clone(), b"a.txt");
    assert_eq!(e2.locate().unwrap(), None);
    // b.txt is still found with the same size
    let e3 = open_ext2(nd.clone(), b"b.txt");
    let fr = e3.locate().unwrap().unwrap();
    assert_eq!(fr.file_size, 7);
    assert_eq!(fr.file_inode, 14);
    // removing again is a no-op miss
    assert_eq!(e2.remove_at(9).unwrap(), None);
}

#[test]
fn remove_edits_exactly_the_expected_bytes() {
    let img = build_ext2_image();
    let e = open_ext2(img.clone(), b"a.txt");
    let nd = e.remove_at(123_456).unwrap().unwrap();
    // directory entry unlink: ".." in docs absorbs a.txt's record
    assert_eq!(r16(&nd, 9228 + 4), 1012);
    assert_eq!(r32(&nd, 9240), 0);
    // inode bitmap: bit of inode 15 cleared, other inode bits kept
    assert_eq!(nd[4096], 0x02);
    assert_eq!(nd[4097], 0x3C);
    // block bitmap: exactly the bit of data block 10 cleared
    assert_eq!(nd[3072], 0x00);
    assert_eq!(nd[3073], 0x7B);
    for k in 2..1024 {
        assert_eq!(nd[3072 + k], img[3072 + k]);
    }
    // inode scrub: delete time stamped, links, sector count and size zeroed
    let ioff = 5120 + 14 * 128;
    assert_eq!(r32(&nd, ioff + 20), 123_456);
    assert_eq!(r16(&nd, ioff + 26), 0);
    assert_eq!(r32(&nd, ioff + 28), 0);
    assert_eq!(r32(&nd, ioff + 4), 0);
}

#[test]
fn used_blocks_lists_the_data_blocks() {
    let e = open_ext2(build_ext2_image(), b"a.txt");
    assert_eq!(e.search_for_inode_used_blocks(15).unwrap(), vec![10]);
    assert_eq!(e.search_for_inode_used_blocks(14).unwrap(), vec![11]);
    // the walk records all 12 (empty) direct slots, then the contents of
    // the single-indirect block
    assert_eq!(
        e.search_for_inode_used_blocks(13).unwrap(),
        vec![0, 0, 0, 0, 0, 0, 0, 0, 0, 0, 0, 0, 13]
    );
}

#[test]
fn locate_through_a_single_indirect_directory() {
    let e = open_ext2(build_ext2_image(), b"c.txt");
    let fr = e.locate().unwrap().unwrap();
    assert_eq!(fr.file_size, 55);
    assert_eq!(fr.file_inode, 11);
}

#[test]
fn explore_indirect_block_walks_leaf_pointers() {
    let e = open_ext2(build_ext2_image(), b"ignored");
    let fuel = 16 * 1024;
    let fr = e
        .explore_indirect_block(12288, &b"c.txt".to_vec(), 13, 0, 0, fuel)
        .unwrap()
        .unwrap();
    assert_eq!(fr.file_size, 55);
    assert_eq!(
        e.explore_indirect_block(12288, &b"a.txt".to_vec(), 13, 0, 0, fuel).unwrap(),
        None
    );
}

#[test]
fn triple_indirect_is_reported_as_unsupported() {
    let mut img = build_ext2_image();
    // root inode claims more blocks than double-indirect can carry
    w32(&mut img, 5120 + 128 + 28, 3_000_000);
    let e = open_ext2(img, b"nowhere.txt");
    assert_eq!(e.locate(), Err(VolumeError::TripleIndirect));
}

#[test]
fn constructor_rejects_bad_superblocks() {
    let gv = GenericVolume::new(vec![0u8; 100], b"x".to_vec());
    assert_eq!(Ext2::new(gv).err().unwrap(), VolumeError::OutOfBounds);

    let mut img = build_ext2_image();
    w32(&mut img, 1048, 6); // block-size exponent too large
    let gv = GenericVolume::new(img, b"x".to_vec());
    assert_eq!(Ext2::new(gv).err().unwrap(), VolumeError::BadGeometry);

    let mut img = build_ext2_image();
    w32(&mut img, 1064, 0); // zero inodes per group
    let gv = GenericVolume::new(img, b"x".to_vec());
    assert_eq!(Ext2::new(gv).err().unwrap(), VolumeError::BadGeometry);
}

#[test]
fn describe_reports_superblock_fields() {
    let e = open_ext2(build_ext2_image(), b"a.txt");
    let info = e.describe();
    assert_eq!(info.block_size, 1024);
    assert_eq!(info.inode_size, 128);
    assert_eq!(info.inode_count, 16);
    assert_eq!(info.inodes_x_group, 16);
    assert_eq!(info.first_block, 1);
    assert_eq!(info.first_inode, 11);
    assert_eq!(&info.volume_label[0..6], b"VOLLAB");
}

#[test]
fn geometry_translations_match_the_layout() {
    let e = open_ext2(build_ext2_image(), b"a.txt");
    assert_eq!(e.get_offset(1), 1024);
    assert_eq!(e.get_offset(8), 8192);
    assert_eq!(e.compute_inode_table_start_offset(2), 5120);
    assert_eq!(e.compute_inode_offset(2), 5248);
    assert_eq!(e.compute_inode_offset(15), 5120 + 14 * 128);
    assert_eq!(e.compute_max_index(5), 5);
    assert_eq!(e.compute_max_index(13), 13);
    assert_eq!(e.compute_max_index(300), 14);
    assert_eq!(e.compute_indirect_max_loop(13, 30), 30);
    assert_eq!(e.compute_indirect_max_loop(13, 9999), 256 - 12);
    assert_eq!(e.compute_indirect_max_loop(15, 30), 0);
}

#[test]
fn indirect_walk_examines_exactly_the_bounded_pointers() {
    let mut img = build_ext2_image();
    // pointer 0 of the indirect block: an all-zero data block;
    // pointer 1: the block that holds c.txt
    w32(&mut img, 12288, 10);
    w32(&mut img, 12292, 13);
    let e = open_ext2(img, b"ignored");
    let fuel = 16 * 1024;
    let query = b"c.txt".to_vec();
    // a bound of 1 examines only pointer 0; a bound of 2 reaches c.txt
    assert_eq!(e.explore_indirect_block(12288, &query, 1, 0, 0, fuel).unwrap(), None);
    let fr = e.explore_indirect_block(12288, &query, 2, 0, 0, fuel).unwrap().unwrap();
    assert_eq!(fr.file_size, 55);
}

#[test]
fn find_in_dir_scans_one_block() {
    let e = open_ext2(build_ext2_image(), b"ignored");
    let fuel = 16 * 1024;
    let fr = e
        .find_in_dir(9216, &b"a.txt".to_vec(), 0, fuel)
        .unwrap()
        .unwrap();
    assert_eq!(fr.file_size, 42);
    assert_eq!(e.find_in_dir(9216, &b"b.txt".to_vec(), 0, fuel).unwrap(), None);
}
