//! Unit tests for the byte-level primitives, the format sniffers, and the
//! volume dispatch surface.

use rawvol::ext2::Ext2;
use rawvol::fat16::FAT16;
use rawvol::generics::GenericVolume;
use rawvol::utils::{
    bytes_match, clear_bit, copy_range, extract_u16, extract_u32, is_power, save_u16, save_u32,
    vec_eq, zero_bytes,
};
use rawvol::volume::{Volume, VolumeInfo};

#[test]
fn little_endian_extraction() {
    let d = vec![0x34, 0x12, 0x78, 0x56, 0xFF];
    assert_eq!(extract_u16(&d, 0), 0x1234);
    assert_eq!(extract_u16(&d, 2), 0x5678);
    assert_eq!(extract_u32(&d, 0), 0x5678_1234);
}

#[test]
fn little_endian_round_trips() {
    let mut d = vec![0u8; 8];
    save_u16(&mut d, 1, 0xBEEF);
    assert_eq!(extract_u16(&d, 1), 0xBEEF);
    assert_eq!(d[0], 0);
    assert_eq!(d[3], 0);
    save_u32(&mut d, 4, 0xDEAD_BEEF);
    assert_eq!(extract_u32(&d, 4), 0xDEAD_BEEF);
    assert_eq!(d, vec![0, 0xEF, 0xBE, 0, 0xEF, 0xBE, 0xAD, 0xDE]);
}

#[test]
fn clearing_bits_leaves_the_rest() {
    let mut d = vec![0xFFu8, 0xFF];
    clear_bit(&mut d, 0, 3);
    assert_eq!(d[0], 0xF7);
    assert_eq!(d[1], 0xFF);
    clear_bit(&mut d, 0, 3);
    assert_eq!(d[0], 0xF7);
    clear_bit(&mut d, 1, 0);
    assert_eq!(d[1], 0xFE);
}

#[test]
fn zeroing_a_byte_range() {
    let mut d = vec![7u8; 6];
    zero_bytes(&mut d, 2, 4);
    assert_eq!(d, vec![7, 7, 0, 0, 7, 7]);
    zero_bytes(&mut d, 5, 5);
    assert_eq!(d, vec![7, 7, 0, 0, 7, 7]);
}

#[test]
fn byte_comparisons() {
    let d = vec![1u8, 2, 3, 4, 5];
    assert!(bytes_match(&d, 1, &vec![2, 3, 4]));
    assert!(!bytes_match(&d, 1, &vec![2, 9, 4]));
    assert!(bytes_match(&d, 0, &Vec::new()));
    assert!(vec_eq(&vec![1, 2], &vec![1, 2]));
    assert!(!vec_eq(&vec![1, 2], &vec![1, 2, 3]));
    assert!(!vec_eq(&vec![1, 2], &vec![2, 1]));
}

#[test]
fn copying_a_byte_range() {
    let d = vec![9u8, 8, 7, 6];
    assert_eq!(copy_range(&d, 1, 2), vec![8, 7]);
    assert_eq!(copy_range(&d, 0, 4), d);
    assert_eq!(copy_range(&d, 4, 0), Vec::<u8>::new());
}

#[test]
fn power_testing() {
    assert!(is_power(1, 3));
    assert!(is_power(3, 3));
    assert!(is_power(27, 3));
    assert!(is_power(125, 5));
    assert!(is_power(49, 7));
    assert!(!is_power(28, 3));
    assert!(!is_power(10, 5));
    assert!(!is_power(2, 7));
    assert!(is_power(1024, 2));
}

fn tiny_fat_header() -> Vec<u8> {
    let mut d = vec![0u8; 16 * 1024];
    d[11] = 0;
    d[12] = 2; // 512 bytes per sector
    d[13] = 1;
    d[14] = 1;
    d[16] = 2;
    d[17] = 16;
    d[19] = 4100u16 as u8;
    d[20] = (4100u16 >> 8) as u8;
    d[22] = 1;
    d[54..62].copy_from_slice(b"FAT16   ");
    d[510] = 0x55;
    d[511] = 0xAA;
    d
}

#[test]
fn sniffers_tell_the_formats_apart() {
    let fat = GenericVolume::new(tiny_fat_header(), b"x".to_vec());
    assert!(fat.is_fat());
    assert!(!fat.is_ext2());

    let mut e = vec![0u8; 2048];
    e[1080] = 0x53;
    e[1081] = 0xEF;
    let ext = GenericVolume::new(e, b"x".to_vec());
    assert!(ext.is_ext2());
    assert!(!ext.is_fat());

    // too short for either signature
    let short = GenericVolume::new(vec![0u8; 511], b"x".to_vec());
    assert!(!short.is_fat());
    assert!(!short.is_ext2());

    // boot signature alone is not enough: the type field must name FAT
    let mut nosig = tiny_fat_header();
    nosig[54..62].copy_from_slice(b"XXXXXXXX");
    let v = GenericVolume::new(nosig, b"x".to_vec());
    assert!(!v.is_fat());
}

#[test]
fn volume_dispatch_locates_on_either_format() {
    // FAT16 side: one root file
    let mut d = tiny_fat_header();
    d[1536..1544].copy_from_slice(b"HELLO   ");
    d[1544..1547].copy_from_slice(b"TXT");
    d[1536 + 11] = 0x20;
    d[1536 + 28] = 99;
    let f = FAT16::new(GenericVolume::new(d, b"hello.txt".to_vec())).unwrap();
    let vf = Volume::Fat16(f);
    assert_eq!(vf.locate().unwrap(), Some(99));
    match vf.describe() {
        VolumeInfo::Fat16(i) => {
            assert_eq!(i.bpb_byts_per_sec, 512);
            assert_eq!(i.bpb_num_fats, 2);
        }
        VolumeInfo::Ext2(_) => panic!("wrong record variant"),
    }

    // EXT2 side: an empty root directory
    let mut e = vec![0u8; 8 * 1024];
    e[1044] = 1; // first data block
    e[1064] = 16; // inodes per group
    e[1112] = 128;
    e[1080] = 0x53;
    e[1081] = 0xEF;
    e[2048 + 8] = 5; // inode table at block 5
    let ioff = 5120 + 128;
    e[ioff] = 0;
    e[ioff + 1] = 0x40; // root inode: directory, no blocks
    let x = Ext2::new(GenericVolume::new(e, b"hello.txt".to_vec())).unwrap();
    let vx = Volume::Ext2(x);
    assert_eq!(vx.locate().unwrap(), None);
    match vx.describe() {
        VolumeInfo::Ext2(i) => {
            assert_eq!(i.block_size, 1024);
            assert_eq!(i.inodes_x_group, 16);
        }
        VolumeInfo::Fat16(_) => panic!("wrong record variant"),
    }
}
