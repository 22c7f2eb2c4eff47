//! End-to-end walks over a synthetic FAT16 image: multi-cluster directory
//! search, deletion of a three-cluster file, and byte-level checks of the
//! tombstoned entry, the wiped data, and the chain release in both FAT
//! copies.

use rawvol::fat16::{FatType, FAT16};
use rawvol::generics::{GenericVolume, VolumeError};

fn w16(d: &mut Vec<u8>, off: usize, v: u16) {
    d[off] = (v % 256) as u8;
    d[off + 1] = (v / 256) as u8;
}

fn w32(d: &mut Vec<u8>, off: usize, v: u32) {
    d[off] = (v & 0xff) as u8;
    d[off + 1] = ((v >> 8) & 0xff) as u8;
    d[off + 2] = ((v >> 16) & 0xff) as u8;
    d[off + 3] = ((v >> 24) & 0xff) as u8;
}

fn r16(d: &[u8], off: usize) -> u16 {
    d[off] as u16 | ((d[off + 1] as u16) << 8)
}

fn write_record(d: &mut Vec<u8>, off: usize, base: &[u8; 8], ext: &[u8; 3], attr: u8, cluster: u16, size: u32) {
    d[off..off + 8].copy_from_slice(base);
    d[off + 8..off + 11].copy_from_slice(ext);
    d[off + 11] = attr;
    w16(d, off + 26, cluster);
    w32(d, off + 28, size);
}

/// 512-byte sectors, 1 sector per cluster, 1 reserved sector, 2 FAT
/// copies of 1 sector each, a 16-entry root directory (1 sector), data
/// from sector 4 on.  Root holds "BIG.TXT" (chain 5 -> 9 -> 12 -> end,
/// 1200 bytes) and subdirectory "SUB" (chain 20 -> 21 -> end) whose
/// second cluster holds "DEEP.TXT" (77 bytes).
fn build_fat16_image() -> Vec<u8> {
    let mut d = vec![0u8; 16 * 1024];
    w16(&mut d, 11, 512); // bytes per sector
    d[13] = 1; // sectors per cluster
    w16(&mut d, 14, 1); // reserved sectors
    d[16] = 2; // FAT copies
    w16(&mut d, 17, 16); // root entries
    w16(&mut d, 19, 4100); // total sectors (16-bit)
    w16(&mut d, 22, 1); // sectors per FAT
    d[3..11].copy_from_slice(b"OEMNAME "); // OEM name
    d[43..54].copy_from_slice(b"FATLABEL   "); // volume label
    d[54..62].copy_from_slice(b"FAT16   "); // file-system type
    d[510] = 0x55;
    d[511] = 0xAA;
    // FAT copy 0 at 512, copy 1 at 1024
    for base in [512usize, 1024usize] {
        w16(&mut d, base + 5 * 2, 9);
        w16(&mut d, base + 9 * 2, 12);
        w16(&mut d, base + 12 * 2, 0xFFFF);
        w16(&mut d, base + 20 * 2, 21);
        w16(&mut d, base + 21 * 2, 0xFFFF);
        w16(&mut d, base + 25 * 2, 0xFFFF);
    }
    // root directory at sector 3 (1536)
    write_record(&mut d, 1536, b"BIG     ", b"TXT", 0x20, 5, 1200);
    write_record(&mut d, 1568, b"SUB     ", b"   ", 0x10, 20, 0);
    // file data: clusters 5, 9, 12 (sectors 7, 11, 14)
    for k in 3584..4096 {
        d[k] = 0xA5;
    }
    for k in 5632..6144 {
        d[k] = 0xB6;
    }
    for k in 7168..7680 {
        d[k] = 0xC7;
    }
    // SUB directory: cluster 20 (sector 22, byte 11264) holds dot entries,
    // cluster 21 (byte 11776) holds DEEP.TXT at cluster 25
    write_record(&mut d, 11264, b".       ", b"   ", 0x10, 20, 0);
    write_record(&mut d, 11296, b"..      ", b"   ", 0x10, 0, 0);
    write_record(&mut d, 11776, b"DEEP    ", b"TXT", 0x20, 25, 77);
    d
}

fn open_fat(data: Vec<u8>, name: &[u8]) -> FAT16 {
    FAT16::new(GenericVolume::new(data, name.to_vec())).unwrap()
}

#[test]
fn locate_in_root() {
    let f = open_fat(build_fat16_image(), b"big.txt");
    assert_eq!(f.locate().unwrap(), Some(1200));
}

#[test]
fn locate_in_second_cluster_of_a_directory_chain() {
    let f = open_fat(build_fat16_image(), b"deep.txt");
    assert_eq!(f.locate().unwrap(), Some(77));
}

#[test]
fn locate_missing_fat_name_returns_none() {
    let f = open_fat(build_fat16_image(), b"absent.txt");
    assert_eq!(f.locate().unwrap(), None);
}

#[test]
fn remove_tombstones_entry_wipes_data_and_releases_chain_in_all_copies() {
    let img = build_fat16_image();
    let f = open_fat(img.clone(), b"big.txt");
    let nd = f.remove().unwrap().unwrap();
    // the original buffer was never touched
    assert_eq!(f.data, img);
    // the record is tombstoned and its cluster and size fields zeroed
    assert_eq!(nd[1536], 0xE5);
    assert_eq!(r16(&nd, 1536 + 26), 0);
    assert_eq!(r16(&nd, 1536 + 28), 0);
    assert_eq!(r16(&nd, 1536 + 30), 0);
    // data: 512 bytes wiped in cluster 5, 512 in cluster 9, the remaining
    // 176 in cluster 12 -- and nothing past them
    for k in 3584..4096 {
        assert_eq!(nd[k], 0);
    }
    for k in 5632..6144 {
        assert_eq!(nd[k], 0);
    }
    for k in 7168..7344 {
        assert_eq!(nd[k], 0);
    }
    for k in 7344..7680 {
        assert_eq!(nd[k], 0xC7);
    }
    // chain entries of clusters 5 and 9 zeroed in both FAT copies; the
    // end-of-chain marker at cluster 12 left untouched in both
    for base in [512usize, 1024usize] {
        assert_eq!(r16(&nd, base + 5 * 2), 0);
        assert_eq!(r16(&nd, base + 9 * 2), 0);
        assert_eq!(r16(&nd, base + 12 * 2), 0xFFFF);
        // unrelated chains keep their links
        assert_eq!(r16(&nd, base + 20 * 2), 21);
        assert_eq!(r16(&nd, base + 21 * 2), 0xFFFF);
    }
    // the file is gone afterwards; the deep file is still found
    let f2 = open_fat(nd.clone(), b"big.txt");
    assert_eq!(f2.locate().unwrap(), None);
    assert_eq!(f2.remove().unwrap(), None);
    let f3 = open_fat(nd, b"deep.txt");
    assert_eq!(f3.locate().unwrap(), Some(77));
}

#[test]
fn remove_does_not_recurse_into_subdirectories() {
    // deletion scans the directory it is given; a name that only exists
    // deeper down is reported as a miss
    let f = open_fat(build_fat16_image(), b"deep.txt");
    assert_eq!(f.remove().unwrap(), None);
}

#[test]
fn delete_in_dir_skips_directories() {
    let f = open_fat(build_fat16_image(), b"sub");
    assert_eq!(f.remove().unwrap(), None);
}

#[test]
fn cyclic_chain_hits_the_depth_limit() {
    // a small image whose lone subdirectory chain loops back on itself
    let mut d = vec![0u8; 2560];
    w16(&mut d, 11, 512);
    d[13] = 1;
    w16(&mut d, 14, 1);
    d[16] = 2;
    w16(&mut d, 17, 16);
    w16(&mut d, 19, 4100);
    w16(&mut d, 22, 1);
    for base in [512usize, 1024usize] {
        w16(&mut d, base + 2 * 2, 2); // cluster 2 links to itself
    }
    write_record(&mut d, 1536, b"SUB     ", b"   ", 0x10, 2, 0);
    let f = open_fat(d, b"zzz.txt");
    assert_eq!(f.locate(), Err(VolumeError::DepthLimit));
}

#[test]
fn constructor_rejects_bad_parameter_blocks() {
    let gv = GenericVolume::new(vec![0u8; 40], b"x".to_vec());
    assert_eq!(FAT16::new(gv).err().unwrap(), VolumeError::OutOfBounds);

    let mut img = build_fat16_image();
    w16(&mut img, 11, 0); // zero bytes per sector
    let gv = GenericVolume::new(img, b"x".to_vec());
    assert_eq!(FAT16::new(gv).err().unwrap(), VolumeError::BadGeometry);

    let mut img = build_fat16_image();
    img[13] = 0; // zero sectors per cluster
    let gv = GenericVolume::new(img, b"x".to_vec());
    assert_eq!(FAT16::new(gv).err().unwrap(), VolumeError::BadGeometry);
}

#[test]
fn fat12_and_fat32_volumes_are_rejected() {
    let mut img = build_fat16_image();
    w16(&mut img, 19, 1000); // too few sectors: FAT12
    let gv = GenericVolume::new(img, b"x".to_vec());
    assert_eq!(FAT16::new(gv).err().unwrap(), VolumeError::Fat12);

    let mut img = build_fat16_image();
    w16(&mut img, 19, 0);
    w32(&mut img, 32, 70_000); // too many clusters: FAT32
    let gv = GenericVolume::new(img, b"x".to_vec());
    assert_eq!(FAT16::new(gv).err().unwrap(), VolumeError::Fat32);
}

#[test]
fn describe_reports_parameter_block_fields() {
    let f = open_fat(build_fat16_image(), b"x");
    let info = f.describe();
    assert_eq!(info.fat_type, FatType::Fat16);
    assert_eq!(info.bpb_byts_per_sec, 512);
    assert_eq!(info.bpb_sec_per_clus, 1);
    assert_eq!(info.num_rsvd_sec, 1);
    assert_eq!(info.bpb_num_fats, 2);
    assert_eq!(info.bpb_root_ent_cnt, 16);
    assert_eq!(info.bpb_fatsz16, 1);
    assert_eq!(&info.oem_name, b"OEMNAME ");
    assert_eq!(&info.volume_label, b"FATLABEL   ");
}

#[test]
fn names_are_trimmed_joined_and_lower_cased() {
    // extension-free names carry no dot; spaces inside the fields vanish
    let f = open_fat(build_fat16_image(), b"sub");
    let fuel = 16 * 1024;
    // scanning the root region directly finds nothing called "sub." or "SUB"
    assert_eq!(f.find_in_dir(1536, 2048, &b"sub.".to_vec(), fuel).unwrap(), None);
    assert_eq!(f.find_in_dir(1536, 2048, &b"SUB".to_vec(), fuel).unwrap(), None);
    assert_eq!(f.find_in_dir(1536, 2048, &b"big.txt".to_vec(), fuel).unwrap(), Some(1200));
}

#[test]
fn delete_in_dir_over_an_explicit_range() {
    let f = open_fat(build_fat16_image(), b"ignored");
    let fuel = 16 * 1024;
    let nd = f
        .delete_in_dir(1536, 2048, &b"big.txt".to_vec(), fuel)
        .unwrap()
        .unwrap();
    assert_eq!(nd[1536], 0xE5);
    assert_eq!(f.delete_in_dir(1536, 2048, &b"nope".to_vec(), fuel).unwrap(), None);
}
