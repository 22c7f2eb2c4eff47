//! The FAT16 engine: BIOS-parameter-block geometry, the fixed 32-byte
//! directory-record scanner, the cluster-chain walker through the file
//! allocation table, and the in-place tombstoning deletion (entry marker,
//! data wipe, chain release in every FAT copy).
//!
//! As in the EXT2 engine, each traversal has a spec-level twin over the
//! byte view of the buffer, and the executable walk returns exactly what
//! the twin denotes.  Chain walks carry an explicit fuel bound so cyclic
//! chains end in a distinct error instead of looping.

use vstd::prelude::*;

use crate::generics::{lift_opt_bytes, GenericVolume, VolumeError};
use crate::utils::{
    clip0, copy_range, extract_u16, extract_u32, le16, le32, save_u16, save_u32, spec_save_u16,
    spec_save_u32, vec_eq, zero_bytes, zero_range,
};

verus! {

/// The three FAT widths the type classifier can report; only FAT16 volumes
/// are accepted for traversal.
#[derive(Clone, Copy, Debug, PartialEq, Eq, Structural)]
pub enum FatType {
    Fat12,
    Fat16,
    Fat32,
}

/// The metadata record `describe` reports: the parameter-block fields,
/// with the OEM name and label as their raw bytes.
pub struct Fat16Info {
    pub fat_type: FatType,
    pub oem_name: Vec<u8>,
    pub bpb_byts_per_sec: u16,
    pub bpb_sec_per_clus: u8,
    pub num_rsvd_sec: u16,
    pub bpb_num_fats: u8,
    pub bpb_root_ent_cnt: u16,
    pub bpb_fatsz16: u16,
    pub volume_label: Vec<u8>,
}

/// A FAT16 volume: the raw bytes, the name being searched for, and the
/// geometry derived once from the BIOS parameter block.
pub struct FAT16 {
    pub data: Vec<u8>,
    pub file_name: Vec<u8>,
    pub bpb_byts_per_sec: u16,
    pub bpb_sec_per_clus: u8,
    pub num_rsvd_sec: u16,
    pub bpb_num_fats: u8,
    pub bpb_root_ent_cnt: u16,
    pub bpb_fatsz16: u16,
    pub bs_vol_lab: Vec<u8>,
    pub oem_name: Vec<u8>,
    pub root_dir_sectors: u16,
    pub first_data_sector: u32,
    pub data_sec: u32,
}

/// ASCII lower-casing of one byte, as applied to the 8.3 name fields.
pub open spec fn spec_to_lower(b: u8) -> u8 {
    if 0x41 <= b && b <= 0x5A {
        (b + 0x20) as u8
    } else {
        b
    }
}

/// The bytes of `s` from index `j` on, with every space removed and every
/// letter lower-cased: how one 8.3 name field is normalised.
pub open spec fn spec_name_part(s: Seq<u8>, j: int) -> Seq<u8>
    decreases clip0(s.len() - j),
{
    if j < 0 || j >= s.len() {
        Seq::empty()
    } else if s[j] == 0x20 {
        spec_name_part(s, j + 1)
    } else {
        seq![spec_to_lower(s[j])] + spec_name_part(s, j + 1)
    }
}

/// The display name of the 32-byte directory record at `i`: the trimmed,
/// lower-cased base name, joined to the trimmed, lower-cased extension
/// with a dot — or the base alone when the extension is empty.
pub open spec fn spec_fat_name(d: Seq<u8>, i: int) -> Seq<u8> {
    let base = spec_name_part(d.subrange(i, i + 8), 0);
    let ext = spec_name_part(d.subrange(i + 8, i + 11), 0);
    if ext.len() == 0 {
        base
    } else {
        base + seq![0x2Eu8] + ext
    }
}

/// Lower-case one byte if it is an ASCII capital.
fn lower_byte(b: u8) -> (r: u8)
    ensures
        r == spec_to_lower(b),
{
    if 0x41 <= b && b <= 0x5A {
        b + 0x20
    } else {
        b
    }
}

/// Normalise one name field of `count` bytes starting at `start`.
fn build_name_part(data: &Vec<u8>, start: usize, count: usize) -> (r: Vec<u8>)
    requires
        start + count <= data.len(),
    ensures
        r@ == spec_name_part(data@.subrange(start as int, start as int + count as int), 0),
{
    let ghost sub = data@.subrange(start as int, start as int + count as int);
    let mut out: Vec<u8> = Vec::new();
    let mut j: usize = 0;
    while j < count
        invariant
            j <= count,
            start + count <= data.len(),
            sub == data@.subrange(start as int, start as int + count as int),
            spec_name_part(sub, 0) == out@ + spec_name_part(sub, j as int),
        decreases count - j,
    {
        let b = data[start + j];
        proof {
            assert(sub[j as int] == data@[start + j]);
        }
        if b != 0x20 {
            let lb = lower_byte(b);
            out.push(lb);
            proof {
                assert(out@ + spec_name_part(sub, j as int + 1) =~= (out@.drop_last() + seq![
                    spec_to_lower(sub[j as int]),
                ]) + spec_name_part(sub, j as int + 1));
                assert(out@.drop_last() + (seq![spec_to_lower(sub[j as int])] + spec_name_part(
                    sub,
                    j as int + 1,
                )) =~= (out@.drop_last() + seq![spec_to_lower(sub[j as int])]) + spec_name_part(
                    sub,
                    j as int + 1,
                ));
            }
        }
        j = j + 1;
    }
    proof {
        assert(spec_name_part(sub, count as int) =~= Seq::<u8>::empty());
        assert(out@ + Seq::<u8>::empty() =~= out@);
    }
    out
}

/// Build the display name of the 32-byte record at `i`.
fn build_fat_name(data: &Vec<u8>, i: usize) -> (r: Vec<u8>)
    requires
        i + 11 <= data.len(),
    ensures
        r@ == spec_fat_name(data@, i as int),
{
    let base = build_name_part(data, i, 8);
    let mut ext = build_name_part(data, i + 8, 3);
    if ext.len() == 0 {
        base
    } else {
        let mut out = base;
        out.push(0x2E);
        out.append(&mut ext);
        proof {
            assert(out@ =~= spec_name_part(data@.subrange(i as int, i as int + 8), 0) + seq![
                0x2Eu8,
            ] + spec_name_part(data@.subrange(i as int + 8, i as int + 11), 0));
        }
        out
    }
}

/// Sectors occupied by the root directory, from the raw parameter block.
pub open spec fn spec_bpb_root_dir_sectors(d: Seq<u8>) -> int {
    (le16(d, 17) * 32 + le16(d, 11) - 1) / le16(d, 11) as int
}

/// First data sector, from the raw parameter block.
pub open spec fn spec_bpb_first_data_sector(d: Seq<u8>) -> int {
    le16(d, 14) + d[16] * le16(d, 22) + spec_bpb_root_dir_sectors(d)
}

/// Total sector count, from the raw parameter block.
pub open spec fn spec_bpb_total_sectors(d: Seq<u8>) -> int {
    if le16(d, 19) == 0 {
        le32(d, 32) as int
    } else {
        le16(d, 19) as int
    }
}

/// Cluster count of the data region, from the raw parameter block.
pub open spec fn spec_bpb_clusters(d: Seq<u8>) -> int {
    (spec_bpb_total_sectors(d) - spec_bpb_first_data_sector(d)) / d[13] as int
}

/// The parameter block is readable and its sector and cluster sizes are
/// non-zero.
pub open spec fn spec_new_geometry_ok(d: Seq<u8>) -> bool {
    d.len() >= 54 && le16(d, 11) >= 1 && d[13] >= 1
}

/// In addition, the root directory fits its field and the sector count
/// covers the data region.
pub open spec fn spec_new_sizes_ok(d: Seq<u8>) -> bool {
    spec_new_geometry_ok(d) && spec_bpb_root_dir_sectors(d) <= 0xFFFF && spec_bpb_total_sectors(d)
        >= spec_bpb_first_data_sector(d)
}

impl FAT16 {
    /// Well-formedness: the buffer covers the whole parameter block and
    /// every derived geometry field agrees with the bytes it was read
    /// from; sector and cluster sizes are non-zero.
    pub open spec fn wf(&self) -> bool {
        let d = self.data@;
        &&& d.len() >= 54
        &&& self.bpb_byts_per_sec == le16(d, 11)
        &&& self.bpb_byts_per_sec >= 1
        &&& self.bpb_sec_per_clus == d[13]
        &&& self.bpb_sec_per_clus >= 1
        &&& self.num_rsvd_sec == le16(d, 14)
        &&& self.bpb_num_fats == d[16]
        &&& self.bpb_root_ent_cnt == le16(d, 17)
        &&& self.bpb_fatsz16 == le16(d, 22)
        &&& self.root_dir_sectors == ((self.bpb_root_ent_cnt * 32 + self.bpb_byts_per_sec - 1) as int
            / self.bpb_byts_per_sec as int)
        &&& self.first_data_sector == self.num_rsvd_sec + self.bpb_num_fats * self.bpb_fatsz16
            + self.root_dir_sectors
        &&& self.spec_total_sectors() >= self.first_data_sector
        &&& self.data_sec == self.spec_total_sectors() - self.first_data_sector
        &&& self.bs_vol_lab@ == d.subrange(43, 54)
        &&& self.oem_name@ == d.subrange(3, 11)
    }

    /// The volume's sector count: the 16-bit field, or the 32-bit field
    /// when the 16-bit one is zero.
    pub open spec fn spec_total_sectors(&self) -> int {
        let d = self.data@;
        if le16(d, 19) == 0 {
            le32(d, 32) as int
        } else {
            le16(d, 19) as int
        }
    }

    /// FAT width classification by cluster count.
    pub open spec fn spec_fat_type(&self) -> FatType {
        let clusters = self.data_sec / (self.bpb_sec_per_clus as u32);
        if clusters < 4085 {
            FatType::Fat12
        } else if clusters < 65525 {
            FatType::Fat16
        } else {
            FatType::Fat32
        }
    }

    pub fn get_fat_type(&self) -> (r: FatType)
        requires
            self.wf(),
        ensures
            r == self.spec_fat_type(),
    {
        let clusters = self.data_sec / (self.bpb_sec_per_clus as u32);
        if clusters < 4085 {
            FatType::Fat12
        } else if clusters < 65525 {
            FatType::Fat16
        } else {
            FatType::Fat32
        }
    }

    /// Read the BIOS parameter block and derive the geometry, rejecting a
    /// short buffer, zero sector or cluster sizes, geometry whose root
    /// directory or sector count is inconsistent, and volumes whose
    /// cluster count classifies them as FAT12 or FAT32.
    pub fn new(gv: GenericVolume) -> (r: Result<FAT16, VolumeError>)
        ensures
            r matches Ok(f) ==> f.wf() && f.data@ == gv.data@ && f.file_name@ == gv.file_name@
                && f.spec_fat_type() == FatType::Fat16,
            gv.data@.len() < 54 ==> r == Err::<FAT16, VolumeError>(VolumeError::OutOfBounds),
            gv.data@.len() >= 54 && (le16(gv.data@, 11) == 0 || gv.data@[13] == 0) ==> r == Err::<
                FAT16,
                VolumeError,
            >(VolumeError::BadGeometry),
            spec_new_geometry_ok(gv.data@) && spec_bpb_root_dir_sectors(gv.data@) > 0xFFFF ==> r
                == Err::<FAT16, VolumeError>(VolumeError::BadGeometry),
            spec_new_geometry_ok(gv.data@) && spec_bpb_root_dir_sectors(gv.data@) <= 0xFFFF
                && spec_bpb_total_sectors(gv.data@) < spec_bpb_first_data_sector(gv.data@) ==> r
                == Err::<FAT16, VolumeError>(VolumeError::BadGeometry),
            spec_new_sizes_ok(gv.data@) && spec_bpb_clusters(gv.data@) < 4085 ==> r == Err::<
                FAT16,
                VolumeError,
            >(VolumeError::Fat12),
            spec_new_sizes_ok(gv.data@) && spec_bpb_clusters(gv.data@) >= 65525 ==> r == Err::<
                FAT16,
                VolumeError,
            >(VolumeError::Fat32),
            spec_new_sizes_ok(gv.data@) && 4085 <= spec_bpb_clusters(gv.data@) < 65525 ==> (
            r matches Ok(_)),
    {
        if gv.data.len() < 54 {
            return Err(VolumeError::OutOfBounds);
        }
        let bpb_byts_per_sec = extract_u16(&gv.data, 11);
        let bpb_sec_per_clus = gv.data[13];
        if bpb_byts_per_sec == 0 || bpb_sec_per_clus == 0 {
            return Err(VolumeError::BadGeometry);
        }
        let num_rsvd_sec = extract_u16(&gv.data, 14);
        let bpb_num_fats = gv.data[16];
        let bpb_root_ent_cnt = extract_u16(&gv.data, 17);
        let bpb_fatsz16 = extract_u16(&gv.data, 22);
        let rds32: u32 = (bpb_root_ent_cnt as u32 * 32 + (bpb_byts_per_sec as u32 - 1))
            / bpb_byts_per_sec as u32;
        if rds32 > 0xFFFF {
            return Err(VolumeError::BadGeometry);
        }
        let root_dir_sectors = rds32 as u16;
        proof {
            assert((bpb_num_fats as int) * (bpb_fatsz16 as int) <= 255 * 65535)
                by (nonlinear_arith)
                requires
                    bpb_num_fats <= 255,
                    bpb_fatsz16 <= 65535,
            ;
        }
        let first_data_sector: u32 = num_rsvd_sec as u32 + bpb_num_fats as u32
            * bpb_fatsz16 as u32 + root_dir_sectors as u32;
        let bpb_tot_sec16 = extract_u16(&gv.data, 19);
        let bpb_tot_sec: u32 = if bpb_tot_sec16 == 0 {
            extract_u32(&gv.data, 32)
        } else {
            bpb_tot_sec16 as u32
        };
        if bpb_tot_sec < first_data_sector {
            return Err(VolumeError::BadGeometry);
        }
        let data_sec: u32 = bpb_tot_sec - first_data_sector;
        let fat16 = FAT16 {
            bpb_byts_per_sec,
            bpb_sec_per_clus,
            num_rsvd_sec,
            bpb_num_fats,
            bpb_root_ent_cnt,
            bpb_fatsz16,
            bs_vol_lab: copy_range(&gv.data, 43, 11),
            oem_name: copy_range(&gv.data, 3, 8),
            root_dir_sectors,
            first_data_sector,
            data_sec,
            file_name: gv.file_name,
            data: gv.data,
        };
        match fat16.get_fat_type() {
            FatType::Fat12 => Err(VolumeError::Fat12),
            FatType::Fat16 => Ok(fat16),
            FatType::Fat32 => Err(VolumeError::Fat32),
        }
    }

    // ---------- the finder: spec-level walk ----------

    /// Fuel granted to a fresh walk.
    pub open spec fn spec_fuel(&self) -> nat {
        self.data@.len()
    }

    /// Scan 32-byte directory records from byte `i` up to `end`.  A 0xE5
    /// first byte or a long-name attribute skips the record; a zero first
    /// byte ends the directory.  A subdirectory other than "." and ".."
    /// has its whole cluster chain searched; otherwise an exact name match
    /// yields the record's size field.
    pub open spec fn spec_fat_scan(&self, i: int, end: int, name: Seq<u8>, fuel: nat) -> Result<
        Option<u32>,
        VolumeError,
    >
        decreases fuel, 2int, clip0(end - i), 0int,
    {
        let d = self.data@;
        if i >= end {
            Ok(None)
        } else if i < 0 || i + 32 > d.len() {
            Err(VolumeError::OutOfBounds)
        } else {
            let first = d[i];
            let attr = d[i + 11];
            if first == 0xE5 || attr == 15 {
                self.spec_fat_scan(i + 32, end, name, fuel)
            } else if first == 0x00 {
                Ok(None)
            } else {
                let fname = spec_fat_name(d, i);
                let cluster = (d[i + 27] * 256 + d[i + 26]) as u16;
                let fsize = le32(d, i + 28);
                if attr == 0x10 && first != 0x2E {
                    match self.spec_fat_chain(cluster, name, fuel) {
                        Err(e) => Err(e),
                        Ok(Some(sz)) => Ok(Some(sz)),
                        Ok(None) => self.spec_fat_scan(i + 32, end, name, fuel),
                    }
                } else if fname == name {
                    Ok(Some(fsize))
                } else {
                    self.spec_fat_scan(i + 32, end, name, fuel)
                }
            }
        }
    }

    /// Search the directory spanning the cluster chain that starts at
    /// `c`: scan the cluster's byte range, then follow the chain link
    /// stored in the FAT until an end-of-chain marker (>= 0xFFF7).
    pub open spec fn spec_fat_chain(&self, c: u16, name: Seq<u8>, fuel: nat) -> Result<
        Option<u32>,
        VolumeError,
    >
        decreases fuel, 1int, 0int, 0int,
    {
        let d = self.data@;
        if fuel == 0 {
            Err(VolumeError::DepthLimit)
        } else if c < 2 {
            Err(VolumeError::OutOfBounds)
        } else {
            let start = ((c - 2) * self.bpb_sec_per_clus + self.first_data_sector)
                * self.bpb_byts_per_sec;
            let csz = self.bpb_sec_per_clus * self.bpb_byts_per_sec;
            match self.spec_fat_scan(start as int, start + csz, name, (fuel - 1) as nat) {
                Err(e) => Err(e),
                Ok(Some(sz)) => Ok(Some(sz)),
                Ok(None) => {
                    let fat_pos = self.num_rsvd_sec * self.bpb_byts_per_sec + c * 2;
                    if fat_pos + 2 > d.len() {
                        Err(VolumeError::OutOfBounds)
                    } else {
                        let next = le16(d, fat_pos);
                        if next < 0xFFF7 {
                            self.spec_fat_chain(next, name, (fuel - 1) as nat)
                        } else {
                            Ok(None)
                        }
                    }
                },
            }
        }
    }

    /// The whole search: the root directory region, every subdirectory
    /// reached from it included.
    pub open spec fn spec_locate(&self) -> Result<Option<u32>, VolumeError> {
        let root_start = (self.num_rsvd_sec + self.bpb_num_fats * self.bpb_fatsz16)
            * self.bpb_byts_per_sec;
        let root_end = root_start + self.root_dir_sectors * self.bpb_byts_per_sec;
        self.spec_fat_scan(root_start as int, root_end as int, self.file_name@, self.spec_fuel())
    }

    // ---------- the finder: executable walk ----------

    /// Scan directory records from byte `i` up to `end`.
    pub fn fat_scan_from(&self, i: usize, end: u64, query_filename: &Vec<u8>, fuel: usize) -> (r:
        Result<Option<u32>, VolumeError>)
        requires
            self.wf(),
        ensures
            r == self.spec_fat_scan(i as int, end as int, query_filename@, fuel as nat),
        decreases fuel, 2int, clip0(end - i), 0int,
    {
        let dlen = self.data.len();
        if i as u64 >= end {
            return Ok(None);
        }
        if i > usize::MAX - 32 || i + 32 > dlen {
            return Err(VolumeError::OutOfBounds);
        }
        let first = self.data[i];
        let attr = self.data[i + 11];
        if first == 0xE5 || attr == 15 {
            return self.fat_scan_from(i + 32, end, query_filename, fuel);
        }
        if first == 0x00 {
            return Ok(None);
        }
        let fname = build_fat_name(&self.data, i);
        let cluster: u16 = (self.data[i + 27] as u16) * 256 + (self.data[i + 26] as u16);
        let fsize = extract_u32(&self.data, i + 28);
        if attr == 0x10 && first != 0x2E {
            match self.fat_chain(cluster, query_filename, fuel) {
                Err(e) => Err(e),
                Ok(Some(sz)) => Ok(Some(sz)),
                Ok(None) => self.fat_scan_from(i + 32, end, query_filename, fuel),
            }
        } else {
            let is_match = vec_eq(&fname, query_filename);
            if is_match {
                Ok(Some(fsize))
            } else {
                self.fat_scan_from(i + 32, end, query_filename, fuel)
            }
        }
    }

    /// Search the whole cluster chain that starts at `c`.
    pub fn fat_chain(&self, c: u16, query_filename: &Vec<u8>, fuel: usize) -> (r: Result<
        Option<u32>,
        VolumeError,
    >)
        requires
            self.wf(),
        ensures
            r == self.spec_fat_chain(c, query_filename@, fuel as nat),
        decreases fuel, 1int, 0int, 0int,
    {
        let dlen = self.data.len();
        if fuel == 0 {
            return Err(VolumeError::DepthLimit);
        }
        if c < 2 {
            return Err(VolumeError::OutOfBounds);
        }
        proof {
            assert((c - 2) as int * (self.bpb_sec_per_clus as int) <= 65535 * 255 && (c - 2) as int
                * (self.bpb_sec_per_clus as int) >= 0)
                by (nonlinear_arith)
                requires
                    c <= 65535,
                    self.bpb_sec_per_clus <= 255,
                    c >= 2,
            ;
            assert(1 <= self.bpb_sec_per_clus as int * (self.bpb_byts_per_sec as int) <= 255
                * 65535)
                by (nonlinear_arith)
                requires
                    1 <= self.bpb_sec_per_clus <= 255,
                    1 <= self.bpb_byts_per_sec <= 65535,
            ;
        }
        let sectors = ((c - 2) as usize) * (self.bpb_sec_per_clus as usize);
        proof {
            assert((sectors + self.first_data_sector as int) * (self.bpb_byts_per_sec as int) <= (
            65535 * 255 + 0xFFFF_FFFFu64) * 65535 && (sectors + self.first_data_sector as int) * (
            self.bpb_byts_per_sec as int) >= 0)
                by (nonlinear_arith)
                requires
                    0 <= sectors <= 65535 * 255,
                    self.first_data_sector <= 0xFFFF_FFFFu64,
                    self.bpb_byts_per_sec <= 65535,
            ;
        }
        let start64: u64 = (sectors as u64 + self.first_data_sector as u64)
            * (self.bpb_byts_per_sec as u64);
        let csz: u64 = (self.bpb_sec_per_clus as u64) * (self.bpb_byts_per_sec as u64);
        let end64: u64 = start64 + csz;
        let sub = if start64 > usize::MAX as u64 {
            proof {
                assert(self.spec_fat_scan(
                    start64 as int,
                    start64 as int + csz as int,
                    query_filename@,
                    (fuel - 1) as nat,
                ) == Err::<Option<u32>, VolumeError>(VolumeError::OutOfBounds));
            }
            Err(VolumeError::OutOfBounds)
        } else {
            self.fat_scan_from(start64 as usize, end64, query_filename, fuel - 1)
        };
        match sub {
            Err(e) => Err(e),
            Ok(Some(sz)) => Ok(Some(sz)),
            Ok(None) => {
                proof {
                    assert(0 <= (self.num_rsvd_sec as int) * (self.bpb_byts_per_sec as int)
                        <= 65535 * 65535)
                        by (nonlinear_arith)
                        requires
                            self.num_rsvd_sec <= 65535,
                            self.bpb_byts_per_sec <= 65535,
                    ;
                }
                let fat_pos: usize = (self.num_rsvd_sec as usize)
                    * (self.bpb_byts_per_sec as usize) + (c as usize) * 2;
                if fat_pos > usize::MAX - 2 || fat_pos + 2 > dlen {
                    return Err(VolumeError::OutOfBounds);
                }
                let next = extract_u16(&self.data, fat_pos);
                if next < 0xFFF7 {
                    self.fat_chain(next, query_filename, fuel - 1)
                } else {
                    Ok(None)
                }
            },
        }
    }

    /// Search a directory region for `query_filename`: a depth-first
    /// search that enters every subdirectory record it meets.
    pub fn find_in_dir(&self, start: u32, end: u32, query_filename: &Vec<u8>, fuel: usize) -> (r:
        Result<Option<u32>, VolumeError>)
        requires
            self.wf(),
        ensures
            r == self.spec_fat_scan(start as int, end as int, query_filename@, fuel as nat),
    {
        self.fat_scan_from(start as usize, end as u64, query_filename, fuel)
    }

    /// Locate `self.file_name`, starting from the root directory: the byte
    /// size of the first match in scan order, or `None` when the name is
    /// absent.
    pub fn locate(&self) -> (r: Result<Option<u32>, VolumeError>)
        requires
            self.wf(),
        ensures
            r == self.spec_locate(),
    {
        let dlen = self.data.len();
        proof {
            assert((self.bpb_num_fats as int) * (self.bpb_fatsz16 as int) <= 255 * 65535)
                by (nonlinear_arith)
                requires
                    self.bpb_num_fats <= 255,
                    self.bpb_fatsz16 <= 65535,
            ;
            assert((self.num_rsvd_sec + self.bpb_num_fats as int * self.bpb_fatsz16 as int) * (
            self.bpb_byts_per_sec as int) <= (65535 + 255 * 65535) * 65535)
                by (nonlinear_arith)
                requires
                    self.num_rsvd_sec <= 65535,
                    self.bpb_num_fats as int * self.bpb_fatsz16 as int <= 255 * 65535,
                    self.bpb_byts_per_sec <= 65535,
            ;
            assert((self.root_dir_sectors as int) * (self.bpb_byts_per_sec as int) <= 65535
                * 65535)
                by (nonlinear_arith)
                requires
                    self.root_dir_sectors <= 65535,
                    self.bpb_byts_per_sec <= 65535,
            ;
        }
        let first_root_dir_sec_num: u64 = self.num_rsvd_sec as u64 + self.bpb_num_fats as u64
            * self.bpb_fatsz16 as u64;
        let start64: u64 = first_root_dir_sec_num * self.bpb_byts_per_sec as u64;
        let end64: u64 = start64 + self.root_dir_sectors as u64 * self.bpb_byts_per_sec as u64;
        if start64 > usize::MAX as u64 {
            if start64 >= end64 {
                return Ok(None);
            }
            return Err(VolumeError::OutOfBounds);
        }
        self.fat_scan_from(start64 as usize, end64, &self.file_name, dlen)
    }

    // ---------- deletion: spec-level edit ----------

    /// Zero the 2-byte chain entry at `fat_pos` in FAT copies `r ..` (each
    /// copy `copy_size` bytes after the previous one).
    pub open spec fn spec_zero_fat_copies(
        d: Seq<u8>,
        fat_pos: int,
        copy_size: int,
        nfats: int,
        r: int,
    ) -> Result<Seq<u8>, VolumeError>
        decreases clip0(nfats - r),
    {
        if r >= nfats {
            Ok(d)
        } else {
            let p = fat_pos + r * copy_size;
            if p < 0 || p + 2 > d.len() {
                Err(VolumeError::OutOfBounds)
            } else {
                Self::spec_zero_fat_copies(spec_save_u16(d, p, 0), fat_pos, copy_size, nfats, r + 1)
            }
        }
    }

    /// What wiping the chain that starts at cluster `c` denotes, given the
    /// buffer `cur` being edited and the bytes of the file still to wipe:
    /// each cluster's data range is zeroed (bounded by the remaining
    /// size), and each chain link short of the end-of-chain marker is
    /// zeroed in every FAT copy; the trailing marker itself is left
    /// untouched.  Chain links are read from the original, unedited FAT.
    pub open spec fn spec_fat_wipe(&self, cur: Seq<u8>, c: u16, remaining: u32, fuel: nat)
        -> Result<Seq<u8>, VolumeError>
        decreases fuel,
    {
        if fuel == 0 {
            Err(VolumeError::DepthLimit)
        } else if c < 2 {
            Err(VolumeError::OutOfBounds)
        } else {
            let start = ((c - 2) * self.bpb_sec_per_clus + self.first_data_sector)
                * self.bpb_byts_per_sec;
            let csz = self.bpb_sec_per_clus * self.bpb_byts_per_sec;
            let zlen: int = if remaining <= csz {
                remaining as int
            } else {
                csz
            };
            if start + zlen > cur.len() {
                Err(VolumeError::OutOfBounds)
            } else {
                let d1 = zero_range(cur, start as int, start + zlen);
                let fat_pos = self.num_rsvd_sec * self.bpb_byts_per_sec + c * 2;
                if fat_pos + 2 > cur.len() {
                    Err(VolumeError::OutOfBounds)
                } else {
                    let next = le16(self.data@, fat_pos);
                    if next < 0xFFF7 {
                        match Self::spec_zero_fat_copies(
                            d1,
                            fat_pos as int,
                            (self.bpb_fatsz16 * self.bpb_byts_per_sec) as int,
                            self.bpb_num_fats as int,
                            0,
                        ) {
                            Err(e) => Err(e),
                            Ok(d2) => self.spec_fat_wipe(
                                d2,
                                next,
                                (remaining - zlen) as u32,
                                (fuel - 1) as nat,
                            ),
                        }
                    } else {
                        Ok(d1)
                    }
                }
            }
        }
    }

    /// What scanning a directory region for a deletable match denotes:
    /// records are skipped and terminated as in the finder; a matching
    /// non-directory record has its first byte set to the deleted marker
    /// 0xE5 and its cluster and size fields zeroed on a fresh copy of the
    /// buffer, and its cluster chain wiped when the size is non-zero.
    pub open spec fn spec_fat_delete_scan(&self, i: int, end: int, name: Seq<u8>, fuel: nat)
        -> Result<Option<Seq<u8>>, VolumeError>
        decreases clip0(end - i),
    {
        let d = self.data@;
        if i >= end {
            Ok(None)
        } else if i < 0 || i + 32 > d.len() {
            Err(VolumeError::OutOfBounds)
        } else {
            let first = d[i];
            let attr = d[i + 11];
            if first == 0xE5 || attr == 15 {
                self.spec_fat_delete_scan(i + 32, end, name, fuel)
            } else if first == 0x00 {
                Ok(None)
            } else {
                let fname = spec_fat_name(d, i);
                let cluster = (d[i + 27] * 256 + d[i + 26]) as u16;
                let fsize = le32(d, i + 28);
                if fname == name && !(attr == 0x10 && first != 0x2E) {
                    let d1 = d.update(i, 0xE5);
                    let d2 = spec_save_u16(d1, i + 26, 0);
                    let d3 = spec_save_u32(d2, i + 28, 0);
                    if fsize == 0 {
                        Ok(Some(d3))
                    } else {
                        match self.spec_fat_wipe(d3, cluster, fsize, fuel) {
                            Err(e) => Err(e),
                            Ok(d4) => Ok(Some(d4)),
                        }
                    }
                } else {
                    self.spec_fat_delete_scan(i + 32, end, name, fuel)
                }
            }
        }
    }

    /// What removing `self.file_name` from the root directory denotes.
    pub open spec fn spec_remove(&self) -> Result<Option<Seq<u8>>, VolumeError> {
        let root_start = (self.num_rsvd_sec + self.bpb_num_fats * self.bpb_fatsz16)
            * self.bpb_byts_per_sec;
        let root_end = root_start + self.root_dir_sectors * self.bpb_byts_per_sec;
        self.spec_fat_delete_scan(
            root_start as int,
            root_end as int,
            self.file_name@,
            self.spec_fuel(),
        )
    }

    // ---------- deletion: executable edit ----------

    /// Wipe the chain that starts at cluster `c` on the buffer `buf`.
    #[verifier::loop_isolation(false)]
    pub fn fat_wipe(&self, buf: Vec<u8>, c: u16, remaining: u32, fuel: usize) -> (r: Result<
        Vec<u8>,
        VolumeError,
    >)
        requires
            self.wf(),
            buf@.len() == self.data@.len(),
        ensures
            crate::generics::lift_bytes(r) == self.spec_fat_wipe(buf@, c, remaining, fuel as nat),
        decreases fuel,
    {
        let dlen = self.data.len();
        if fuel == 0 {
            return Err(VolumeError::DepthLimit);
        }
        if c < 2 {
            return Err(VolumeError::OutOfBounds);
        }
        proof {
            assert((c - 2) as int * (self.bpb_sec_per_clus as int) <= 65535 * 255 && (c - 2) as int
                * (self.bpb_sec_per_clus as int) >= 0)
                by (nonlinear_arith)
                requires
                    c <= 65535,
                    self.bpb_sec_per_clus <= 255,
                    c >= 2,
            ;
            assert(1 <= self.bpb_sec_per_clus as int * (self.bpb_byts_per_sec as int) <= 255
                * 65535)
                by (nonlinear_arith)
                requires
                    1 <= self.bpb_sec_per_clus <= 255,
                    1 <= self.bpb_byts_per_sec <= 65535,
            ;
        }
        let sectors = ((c - 2) as usize) * (self.bpb_sec_per_clus as usize);
        proof {
            assert((sectors + self.first_data_sector as int) * (self.bpb_byts_per_sec as int) <= (
            65535 * 255 + 0xFFFF_FFFFu64) * 65535 && (sectors + self.first_data_sector as int) * (
            self.bpb_byts_per_sec as int) >= 0)
                by (nonlinear_arith)
                requires
                    0 <= sectors <= 65535 * 255,
                    self.first_data_sector <= 0xFFFF_FFFFu64,
                    self.bpb_byts_per_sec <= 65535,
            ;
        }
        let start64: u64 = (sectors as u64 + self.first_data_sector as u64)
            * (self.bpb_byts_per_sec as u64);
        let csz: u64 = (self.bpb_sec_per_clus as u64) * (self.bpb_byts_per_sec as u64);
        let zlen64: u64 = if (remaining as u64) <= csz {
            remaining as u64
        } else {
            csz
        };
        if start64 > u64::MAX - zlen64 || start64 + zlen64 > dlen as u64 {
            return Err(VolumeError::OutOfBounds);
        }
        let mut b = buf;
        zero_bytes(&mut b, start64 as usize, (start64 + zlen64) as usize);
        proof {
            assert(0 <= (self.num_rsvd_sec as int) * (self.bpb_byts_per_sec as int) <= 65535
                * 65535)
                by (nonlinear_arith)
                requires
                    self.num_rsvd_sec <= 65535,
                    self.bpb_byts_per_sec <= 65535,
            ;
        }
        let fat_pos: usize = (self.num_rsvd_sec as usize) * (self.bpb_byts_per_sec as usize) + (
        c as usize) * 2;
        if fat_pos > usize::MAX - 2 || fat_pos + 2 > dlen {
            return Err(VolumeError::OutOfBounds);
        }
        let next = extract_u16(&self.data, fat_pos);
        if next < 0xFFF7 {
            proof {
                assert(0 <= (self.bpb_fatsz16 as int) * (self.bpb_byts_per_sec as int) <= 65535
                    * 65535)
                    by (nonlinear_arith)
                    requires
                        self.bpb_fatsz16 <= 65535,
                        self.bpb_byts_per_sec <= 65535,
                ;
            }
            let copy_size64: u64 = (self.bpb_fatsz16 as u64) * (self.bpb_byts_per_sec as u64);
            let nfats = self.bpb_num_fats;
            let ghost d1 = b@;
            let mut fat_index: u8 = 0;
            while fat_index < nfats
                invariant
                    fat_index <= nfats,
                    b@.len() == self.data@.len(),
                    Self::spec_zero_fat_copies(
                        b@,
                        fat_pos as int,
                        copy_size64 as int,
                        nfats as int,
                        fat_index as int,
                    ) == Self::spec_zero_fat_copies(
                        d1,
                        fat_pos as int,
                        copy_size64 as int,
                        nfats as int,
                        0,
                    ),
                decreases nfats - fat_index,
            {
                proof {
                    assert((fat_index as int) * (copy_size64 as int) <= 255 * (65535 * 65535)
                        && (fat_index as int) * (copy_size64 as int) >= 0)
                        by (nonlinear_arith)
                        requires
                            0 <= fat_index <= 255,
                            0 <= copy_size64 <= 65535 * 65535,
                    ;
                }
                let pos64: u64 = fat_pos as u64 + (fat_index as u64) * copy_size64;
                if pos64 > dlen as u64 - 2 {
                    return Err(VolumeError::OutOfBounds);
                }
                save_u16(&mut b, pos64 as usize, 0);
                fat_index = fat_index + 1;
            }
            let rem2: u32 = remaining - (zlen64 as u32);
            self.fat_wipe(b, next, rem2, fuel - 1)
        } else {
            Ok(b)
        }
    }

    /// Scan directory records from byte `i` up to `end` for a record to
    /// delete.
    pub fn fat_delete_from(&self, i: usize, end: u64, query_filename: &Vec<u8>, fuel: usize) -> (r:
        Result<Option<Vec<u8>>, VolumeError>)
        requires
            self.wf(),
        ensures
            lift_opt_bytes(r) == self.spec_fat_delete_scan(
                i as int,
                end as int,
                query_filename@,
                fuel as nat,
            ),
        decreases clip0(end - i),
    {
        let dlen = self.data.len();
        if i as u64 >= end {
            return Ok(None);
        }
        if i > usize::MAX - 32 || i + 32 > dlen {
            return Err(VolumeError::OutOfBounds);
        }
        let first = self.data[i];
        let attr = self.data[i + 11];
        if first == 0xE5 || attr == 15 {
            return self.fat_delete_from(i + 32, end, query_filename, fuel);
        }
        if first == 0x00 {
            return Ok(None);
        }
        let fname = build_fat_name(&self.data, i);
        let cluster: u16 = (self.data[i + 27] as u16) * 256 + (self.data[i + 26] as u16);
        let fsize = extract_u32(&self.data, i + 28);
        let is_match = vec_eq(&fname, query_filename);
        if is_match && !(attr == 0x10 && first != 0x2E) {
            let mut nd = copy_range(&self.data, 0, dlen);
            proof {
                assert(nd@ =~= self.data@);
            }
            nd[i] = 0xE5;
            save_u16(&mut nd, i + 26, 0);
            save_u32(&mut nd, i + 28, 0);
            if fsize == 0 {
                return Ok(Some(nd));
            }
            match self.fat_wipe(nd, cluster, fsize, fuel) {
                Err(e) => Err(e),
                Ok(d4) => Ok(Some(d4)),
            }
        } else {
            self.fat_delete_from(i + 32, end, query_filename, fuel)
        }
    }

    /// Delete `query_filename` from the directory region `start .. end`
    /// (no recursion into subdirectories: deletion works on the directory
    /// it is given).  Returns the edited copy of the volume, or `None`
    /// with no mutation anywhere when nothing matches.
    pub fn delete_in_dir(&self, start: u32, end: u32, query_filename: &Vec<u8>, fuel: usize) -> (r:
        Result<Option<Vec<u8>>, VolumeError>)
        requires
            self.wf(),
        ensures
            lift_opt_bytes(r) == self.spec_fat_delete_scan(
                start as int,
                end as int,
                query_filename@,
                fuel as nat,
            ),
    {
        self.fat_delete_from(start as usize, end as u64, query_filename, fuel)
    }

    /// The metadata record for this volume: every parameter-block field
    /// the caller may want to display, with names and label as raw bytes.
    pub fn describe(&self) -> (r: Fat16Info)
        requires
            self.wf(),
        ensures
            r.fat_type == self.spec_fat_type(),
            r.oem_name@ == self.oem_name@,
            r.bpb_byts_per_sec == self.bpb_byts_per_sec,
            r.bpb_sec_per_clus == self.bpb_sec_per_clus,
            r.num_rsvd_sec == self.num_rsvd_sec,
            r.bpb_num_fats == self.bpb_num_fats,
            r.bpb_root_ent_cnt == self.bpb_root_ent_cnt,
            r.bpb_fatsz16 == self.bpb_fatsz16,
            r.volume_label@ == self.bs_vol_lab@,
    {
        Fat16Info {
            fat_type: self.get_fat_type(),
            oem_name: {
                let v = copy_range(&self.oem_name, 0, self.oem_name.len());
                proof {
                    assert(v@ =~= self.oem_name@);
                }
                v
            },
            bpb_byts_per_sec: self.bpb_byts_per_sec,
            bpb_sec_per_clus: self.bpb_sec_per_clus,
            num_rsvd_sec: self.num_rsvd_sec,
            bpb_num_fats: self.bpb_num_fats,
            bpb_root_ent_cnt: self.bpb_root_ent_cnt,
            bpb_fatsz16: self.bpb_fatsz16,
            volume_label: {
                let v = copy_range(&self.bs_vol_lab, 0, self.bs_vol_lab.len());
                proof {
                    assert(v@ =~= self.bs_vol_lab@);
                }
                v
            },
        }
    }

    /// Remove `self.file_name` from the root directory: the edited copy of
    /// the volume, or `None` when the name is absent.
    pub fn remove(&self) -> (r: Result<Option<Vec<u8>>, VolumeError>)
        requires
            self.wf(),
        ensures
            lift_opt_bytes(r) == self.spec_remove(),
    {
        let dlen = self.data.len();
        proof {
            assert((self.bpb_num_fats as int) * (self.bpb_fatsz16 as int) <= 255 * 65535)
                by (nonlinear_arith)
                requires
                    self.bpb_num_fats <= 255,
                    self.bpb_fatsz16 <= 65535,
            ;
            assert((self.num_rsvd_sec + self.bpb_num_fats as int * self.bpb_fatsz16 as int) * (
            self.bpb_byts_per_sec as int) <= (65535 + 255 * 65535) * 65535 && (self.num_rsvd_sec
                + self.bpb_num_fats as int * self.bpb_fatsz16 as int) * (
            self.bpb_byts_per_sec as int) >= 0)
                by (nonlinear_arith)
                requires
                    self.num_rsvd_sec <= 65535,
                    0 <= self.bpb_num_fats as int * self.bpb_fatsz16 as int <= 255 * 65535,
                    self.bpb_byts_per_sec <= 65535,
            ;
            assert(0 <= (self.root_dir_sectors as int) * (self.bpb_byts_per_sec as int) <= 65535
                * 65535)
                by (nonlinear_arith)
                requires
                    self.root_dir_sectors <= 65535,
                    self.bpb_byts_per_sec <= 65535,
            ;
        }
        let first_root_dir_sec_num: u64 = self.num_rsvd_sec as u64 + self.bpb_num_fats as u64
            * self.bpb_fatsz16 as u64;
        let start64: u64 = first_root_dir_sec_num * self.bpb_byts_per_sec as u64;
        let end64: u64 = start64 + self.root_dir_sectors as u64 * self.bpb_byts_per_sec as u64;
        if start64 > usize::MAX as u64 {
            if start64 >= end64 {
                return Ok(None);
            }
            return Err(VolumeError::OutOfBounds);
        }
        self.fat_delete_from(start64 as usize, end64, &self.file_name, dlen)
    }

    // ---------- laws ----------

    /// First byte of cluster `c`'s data.
    pub open spec fn spec_cluster_start(&self, c: u16) -> int {
        ((c - 2) * self.bpb_sec_per_clus + self.first_data_sector) * self.bpb_byts_per_sec
    }

    /// Bytes per cluster.
    pub open spec fn spec_cluster_size(&self) -> int {
        (self.bpb_sec_per_clus * self.bpb_byts_per_sec) as int
    }

    /// Byte position of cluster `c`'s 2-byte entry in the first FAT copy.
    pub open spec fn spec_fat_entry_pos(&self, c: u16) -> int {
        (self.num_rsvd_sec * self.bpb_byts_per_sec + c * 2) as int
    }

    /// Law: a directory spanning more than one cluster is searched fully.
    /// When scanning cluster `c`'s own byte range misses and the FAT entry
    /// of `c` holds a further cluster number, searching the chain that
    /// starts at `c` is exactly searching the chain from that next cluster
    /// on: a target placed in any later cluster of the chain is still
    /// reached.
    pub proof fn lemma_chain_follows_link(&self, c: u16, name: Seq<u8>, fuel: nat)
        requires
            self.wf(),
            fuel >= 1,
            c >= 2,
            self.spec_fat_scan(
                self.spec_cluster_start(c),
                self.spec_cluster_start(c) + self.spec_cluster_size(),
                name,
                (fuel - 1) as nat,
            ) == Ok::<Option<u32>, VolumeError>(None),
            self.spec_fat_entry_pos(c) + 2 <= self.data@.len(),
            le16(self.data@, self.spec_fat_entry_pos(c)) < 0xFFF7,
        ensures
            self.spec_fat_chain(c, name, fuel) == self.spec_fat_chain(
                le16(self.data@, self.spec_fat_entry_pos(c)),
                name,
                (fuel - 1) as nat,
            ),
    {
    }

    /// Byte position of cluster `c`'s entry in FAT copy `r`.
    pub open spec fn spec_copy_pos(&self, c: u16, r: int) -> int {
        self.spec_fat_entry_pos(c) + r * ((self.bpb_fatsz16 * self.bpb_byts_per_sec) as int)
    }

    /// The clusters whose FAT entries the wipe zeroes: every chain link up
    /// to, but not including, the cluster that carries the end-of-chain
    /// marker.
    pub open spec fn spec_wiped_clusters(&self, c: u16, fuel: nat) -> Seq<u16>
        decreases fuel,
    {
        let d = self.data@;
        if fuel == 0 || c < 2 {
            Seq::empty()
        } else {
            let fat_pos = self.spec_fat_entry_pos(c);
            if fat_pos + 2 > d.len() {
                Seq::empty()
            } else {
                let next = le16(d, fat_pos);
                if next < 0xFFF7 {
                    seq![c] + self.spec_wiped_clusters(next, (fuel - 1) as nat)
                } else {
                    Seq::empty()
                }
            }
        }
    }

    /// Zeroing entries in successive FAT copies never changes the length.
    proof fn lemma_zero_fat_copies_len(d: Seq<u8>, fat_pos: int, cs: int, nfats: int, r: int)
        requires
            Self::spec_zero_fat_copies(d, fat_pos, cs, nfats, r) matches Ok(_),
        ensures
            Self::spec_zero_fat_copies(d, fat_pos, cs, nfats, r)->Ok_0.len() == d.len(),
        decreases clip0(nfats - r),
    {
        if r >= nfats {
        } else {
            Self::lemma_zero_fat_copies_len(
                spec_save_u16(d, fat_pos + r * cs, 0),
                fat_pos,
                cs,
                nfats,
                r + 1,
            );
        }
    }

    /// A byte outside every copy's 2-byte entry is untouched by the
    /// copy-zeroing pass.
    proof fn lemma_zero_fat_copies_frame(
        d: Seq<u8>,
        fat_pos: int,
        cs: int,
        nfats: int,
        r: int,
        q: int,
    )
        requires
            Self::spec_zero_fat_copies(d, fat_pos, cs, nfats, r) matches Ok(_),
            0 <= q < d.len(),
            forall|r2: int|
                r <= r2 < nfats ==> !(fat_pos + #[trigger] (r2 * cs) <= q < fat_pos + r2 * cs
                    + 2),
        ensures
            Self::spec_zero_fat_copies(d, fat_pos, cs, nfats, r)->Ok_0[q] == d[q],
        decreases clip0(nfats - r),
    {
        if r >= nfats {
        } else {
            let p = fat_pos + r * cs;
            let d2 = spec_save_u16(d, p, 0);
            assert(!(p <= q < p + 2));
            assert(d2[q] == d[q]);
            Self::lemma_zero_fat_copies_frame(d2, fat_pos, cs, nfats, r + 1, q);
        }
    }

    /// After the copy-zeroing pass, copy `r0`'s entry reads zero, as long
    /// as the copies' entry ranges do not overlap one another.
    proof fn lemma_zero_fat_copies_zero(
        d: Seq<u8>,
        fat_pos: int,
        cs: int,
        nfats: int,
        r: int,
        r0: int,
    )
        requires
            Self::spec_zero_fat_copies(d, fat_pos, cs, nfats, r) matches Ok(_),
            0 <= r <= r0 < nfats,
            forall|r1: int, r2: int|
                r <= r1 < nfats && r <= r2 < nfats && r1 != r2 ==> (fat_pos + #[trigger] (r1 * cs)
                    + 2 <= fat_pos + #[trigger] (r2 * cs) || fat_pos + r2 * cs + 2 <= fat_pos + r1
                    * cs),
        ensures
            le16(Self::spec_zero_fat_copies(d, fat_pos, cs, nfats, r)->Ok_0, fat_pos + r0 * cs)
                == 0,
        decreases clip0(nfats - r),
    {
        let p = fat_pos + r * cs;
        let d2 = spec_save_u16(d, p, 0);
        if r == r0 {
            assert(d2[p] == 0 && d2[p + 1] == 0);
            Self::lemma_zero_fat_copies_frame(d2, fat_pos, cs, nfats, r + 1, p);
            Self::lemma_zero_fat_copies_frame(d2, fat_pos, cs, nfats, r + 1, p + 1);
        } else {
            Self::lemma_zero_fat_copies_zero(d2, fat_pos, cs, nfats, r + 1, r0);
        }
    }

    /// If the copy-zeroing pass succeeded, each copy's entry lies inside
    /// the buffer.
    proof fn lemma_zero_fat_copies_in_bounds(
        d: Seq<u8>,
        fat_pos: int,
        cs: int,
        nfats: int,
        r: int,
        r0: int,
    )
        requires
            Self::spec_zero_fat_copies(d, fat_pos, cs, nfats, r) matches Ok(_),
            r <= r0 < nfats,
        ensures
            0 <= fat_pos + r0 * cs,
            fat_pos + r0 * cs + 2 <= d.len(),
        decreases clip0(nfats - r),
    {
        if r == r0 {
        } else {
            Self::lemma_zero_fat_copies_in_bounds(
                spec_save_u16(d, fat_pos + r * cs, 0),
                fat_pos,
                cs,
                nfats,
                r + 1,
                r0,
            );
        }
    }

    /// Wiping never changes the buffer's length.
    proof fn lemma_wipe_len(&self, cur: Seq<u8>, c: u16, remaining: u32, fuel: nat)
        requires
            self.spec_fat_wipe(cur, c, remaining, fuel) matches Ok(_),
        ensures
            self.spec_fat_wipe(cur, c, remaining, fuel)->Ok_0.len() == cur.len(),
        decreases fuel,
    {
        if fuel == 0 || c < 2 {
        } else {
            let start = self.spec_cluster_start(c);
            let csz = self.spec_cluster_size();
            let zlen: int = if remaining <= csz {
                remaining as int
            } else {
                csz
            };
            if start + zlen > cur.len() {
            } else {
                let d1 = zero_range(cur, start, start + zlen);
                let fat_pos = self.spec_fat_entry_pos(c);
                if fat_pos + 2 > cur.len() {
                } else {
                    let next = le16(self.data@, fat_pos);
                    if next < 0xFFF7 {
                        let cs = (self.bpb_fatsz16 * self.bpb_byts_per_sec) as int;
                        Self::lemma_zero_fat_copies_len(
                            d1,
                            fat_pos as int,
                            cs,
                            self.bpb_num_fats as int,
                            0,
                        );
                        let d2 = Self::spec_zero_fat_copies(
                            d1,
                            fat_pos as int,
                            cs,
                            self.bpb_num_fats as int,
                            0,
                        )->Ok_0;
                        self.lemma_wipe_len(d2, next, (remaining - zlen) as u32, (fuel - 1) as nat);
                    }
                }
            }
        }
    }

    /// The data range of a cluster lies at or past the start of the data
    /// region.
    proof fn lemma_cluster_start_past_system_area(&self, c: u16)
        requires
            self.wf(),
            c >= 2,
        ensures
            self.spec_cluster_start(c) >= self.first_data_sector * self.bpb_byts_per_sec,
    {
        assert(((c - 2) * self.bpb_sec_per_clus + self.first_data_sector) * (
        self.bpb_byts_per_sec as int) >= self.first_data_sector * self.bpb_byts_per_sec)
            by (nonlinear_arith)
            requires
                c >= 2,
                self.bpb_sec_per_clus >= 1,
                self.bpb_byts_per_sec >= 1,
                self.first_data_sector >= 0,
        ;
    }

    /// Whether byte position `q` lies inside one of the data ranges the
    /// wipe zeroes: each visited cluster's bytes, from its start, for the
    /// remaining file size capped at the cluster size.
    pub open spec fn spec_wipe_zeroes_at(&self, c: u16, remaining: u32, fuel: nat, q: int) -> bool
        decreases fuel,
    {
        if fuel == 0 || c < 2 {
            false
        } else {
            let start = self.spec_cluster_start(c);
            let csz = self.spec_cluster_size();
            let zlen: int = if remaining <= csz {
                remaining as int
            } else {
                csz
            };
            if start <= q < start + zlen {
                true
            } else {
                let fat_pos = self.spec_fat_entry_pos(c);
                if fat_pos + 2 > self.data@.len() {
                    false
                } else {
                    let next = le16(self.data@, fat_pos);
                    if next < 0xFFF7 {
                        self.spec_wipe_zeroes_at(
                            next,
                            (remaining - zlen) as u32,
                            (fuel - 1) as nat,
                            q,
                        )
                    } else {
                        false
                    }
                }
            }
        }
    }

    /// Every data range the wipe zeroes lies at or past the data region,
    /// so bytes of the system area are zeroed by no step of the wipe.
    proof fn lemma_system_area_not_zeroed(&self, c: u16, remaining: u32, fuel: nat, q: int)
        requires
            self.wf(),
            q < self.first_data_sector * self.bpb_byts_per_sec,
        ensures
            !self.spec_wipe_zeroes_at(c, remaining, fuel, q),
        decreases fuel,
    {
        if fuel == 0 || c < 2 {
        } else {
            self.lemma_cluster_start_past_system_area(c);
            let csz = self.spec_cluster_size();
            let zlen: int = if remaining <= csz {
                remaining as int
            } else {
                csz
            };
            let fat_pos = self.spec_fat_entry_pos(c);
            if fat_pos + 2 > self.data@.len() {
            } else {
                let next = le16(self.data@, fat_pos);
                if next < 0xFFF7 {
                    self.lemma_system_area_not_zeroed(
                        next,
                        (remaining - zlen) as u32,
                        (fuel - 1) as nat,
                        q,
                    );
                }
            }
        }
    }

    /// Law (frame half of the deletion guarantee): any byte outside every
    /// zeroed data range and outside every released chain entry — the
    /// bytes of clusters off the chain, each cluster's bytes past its
    /// zeroed span, and the trailing end-of-chain marker in particular —
    /// is left untouched by the wipe.
    pub proof fn lemma_wipe_untouched(&self, cur: Seq<u8>, c: u16, remaining: u32, fuel: nat, q: int)
        requires
            self.wf(),
            self.spec_fat_wipe(cur, c, remaining, fuel) matches Ok(_),
            cur.len() == self.data@.len(),
            0 <= q < cur.len(),
            !self.spec_wipe_zeroes_at(c, remaining, fuel, q),
            forall|t: int, r: int|
                0 <= t < self.spec_wiped_clusters(c, fuel).len() && 0 <= r < self.bpb_num_fats
                    ==> !((#[trigger] self.spec_copy_pos(self.spec_wiped_clusters(c, fuel)[t], r))
                    <= q < self.spec_copy_pos(self.spec_wiped_clusters(c, fuel)[t], r) + 2),
        ensures
            self.spec_fat_wipe(cur, c, remaining, fuel)->Ok_0[q] == cur[q],
        decreases fuel,
    {
        let d = self.data@;
        let start = self.spec_cluster_start(c);
        let csz = self.spec_cluster_size();
        let zlen: int = if remaining <= csz {
            remaining as int
        } else {
            csz
        };
        let d1 = zero_range(cur, start, start + zlen);
        assert(!(start <= q < start + zlen));
        assert(d1[q] == cur[q]);
        let fat_pos = self.spec_fat_entry_pos(c);
        let next = le16(d, fat_pos);
        if next < 0xFFF7 {
            let wiped = self.spec_wiped_clusters(c, fuel);
            let tail = self.spec_wiped_clusters(next, (fuel - 1) as nat);
            assert(wiped == seq![c] + tail);
            assert(wiped[0] == c);
            let cs = (self.bpb_fatsz16 * self.bpb_byts_per_sec) as int;
            let nfats = self.bpb_num_fats as int;
            assert forall|r2: int| 0 <= r2 < nfats implies !(fat_pos + #[trigger] (r2 * cs) <= q
                < fat_pos + r2 * cs + 2) by {
                assert(self.spec_copy_pos(wiped[0], r2) == fat_pos + r2 * cs);
            }
            Self::lemma_zero_fat_copies_frame(d1, fat_pos as int, cs, nfats, 0, q);
            Self::lemma_zero_fat_copies_len(d1, fat_pos as int, cs, nfats, 0);
            let d2 = Self::spec_zero_fat_copies(d1, fat_pos as int, cs, nfats, 0)->Ok_0;
            assert forall|t: int, r: int| 0 <= t < tail.len() && 0 <= r < self.bpb_num_fats
                implies !((#[trigger] self.spec_copy_pos(tail[t], r)) <= q < self.spec_copy_pos(
                tail[t],
                r,
            ) + 2) by {
                assert(wiped[t + 1] == tail[t]);
                assert(!(self.spec_copy_pos(wiped[t + 1], r) <= q < self.spec_copy_pos(
                    wiped[t + 1],
                    r,
                ) + 2));
            }
            self.lemma_wipe_untouched(d2, next, (remaining - zlen) as u32, (fuel - 1) as nat, q);
        }
    }

    /// Law (zeroing half of the deletion guarantee): every FAT copy — not
    /// just the first — has each wiped chain entry zeroed, as long as the
    /// wiped entries lie inside the system area before the data region and
    /// none of their 2-byte ranges overlap.
    pub proof fn lemma_wipe_zeroes_every_fat_copy(
        &self,
        cur: Seq<u8>,
        c: u16,
        remaining: u32,
        fuel: nat,
        t: int,
        r: int,
    )
        requires
            self.wf(),
            self.spec_fat_wipe(cur, c, remaining, fuel) matches Ok(_),
            cur.len() == self.data@.len(),
            0 <= t < self.spec_wiped_clusters(c, fuel).len(),
            0 <= r < self.bpb_num_fats,
            forall|t2: int, r2: int|
                0 <= t2 < self.spec_wiped_clusters(c, fuel).len() && 0 <= r2 < self.bpb_num_fats
                    ==> 0 <= #[trigger] self.spec_copy_pos(
                    self.spec_wiped_clusters(c, fuel)[t2],
                    r2,
                ) && self.spec_copy_pos(self.spec_wiped_clusters(c, fuel)[t2], r2) + 2
                    <= self.first_data_sector * self.bpb_byts_per_sec,
            forall|t1: int, r1: int, t2: int, r2: int|
                0 <= t1 < self.spec_wiped_clusters(c, fuel).len() && 0 <= r1 < self.bpb_num_fats
                    && 0 <= t2 < self.spec_wiped_clusters(c, fuel).len() && 0 <= r2
                    < self.bpb_num_fats && (t1 != t2 || r1 != r2) ==> (#[trigger] self.spec_copy_pos(
                    self.spec_wiped_clusters(c, fuel)[t1],
                    r1,
                ) + 2 <= #[trigger] self.spec_copy_pos(self.spec_wiped_clusters(c, fuel)[t2], r2)
                    || self.spec_copy_pos(self.spec_wiped_clusters(c, fuel)[t2], r2) + 2
                    <= self.spec_copy_pos(self.spec_wiped_clusters(c, fuel)[t1], r1)),
        ensures
            le16(
                self.spec_fat_wipe(cur, c, remaining, fuel)->Ok_0,
                self.spec_copy_pos(self.spec_wiped_clusters(c, fuel)[t], r),
            ) == 0,
        decreases fuel,
    {
        let d = self.data@;
        let start = self.spec_cluster_start(c);
        let csz = self.spec_cluster_size();
        let zlen: int = if remaining <= csz {
            remaining as int
        } else {
            csz
        };
        let d1 = zero_range(cur, start, start + zlen);
        let fat_pos = self.spec_fat_entry_pos(c);
        let next = le16(d, fat_pos);
        let wiped = self.spec_wiped_clusters(c, fuel);
        let tail = self.spec_wiped_clusters(next, (fuel - 1) as nat);
        assert(next < 0xFFF7);
        assert(wiped == seq![c] + tail);
        assert(wiped[0] == c);
        let cs = (self.bpb_fatsz16 * self.bpb_byts_per_sec) as int;
        let nfats = self.bpb_num_fats as int;
        Self::lemma_zero_fat_copies_len(d1, fat_pos as int, cs, nfats, 0);
        let d2 = Self::spec_zero_fat_copies(d1, fat_pos as int, cs, nfats, 0)->Ok_0;
        let rem2 = (remaining - zlen) as u32;
        let fuel2 = (fuel - 1) as nat;
        assert forall|t2: int, r2: int| 0 <= t2 < tail.len() && 0 <= r2 < self.bpb_num_fats
            implies 0 <= #[trigger] self.spec_copy_pos(tail[t2], r2) && self.spec_copy_pos(
            tail[t2],
            r2,
        ) + 2 <= self.first_data_sector * self.bpb_byts_per_sec by {
            assert(wiped[t2 + 1] == tail[t2]);
            assert(0 <= self.spec_copy_pos(wiped[t2 + 1], r2) && self.spec_copy_pos(
                wiped[t2 + 1],
                r2,
            ) + 2 <= self.first_data_sector * self.bpb_byts_per_sec);
        }
        assert forall|t1: int, r1: int, t2: int, r2: int|
            0 <= t1 < tail.len() && 0 <= r1 < self.bpb_num_fats && 0 <= t2 < tail.len() && 0 <= r2
                < self.bpb_num_fats && (t1 != t2 || r1 != r2) implies (#[trigger] self.spec_copy_pos(
            tail[t1],
            r1,
        ) + 2 <= #[trigger] self.spec_copy_pos(tail[t2], r2) || self.spec_copy_pos(tail[t2], r2)
            + 2 <= self.spec_copy_pos(tail[t1], r1)) by {
            assert(wiped[t1 + 1] == tail[t1]);
            assert(wiped[t2 + 1] == tail[t2]);
            assert(self.spec_copy_pos(wiped[t1 + 1], r1) + 2 <= self.spec_copy_pos(
                wiped[t2 + 1],
                r2,
            ) || self.spec_copy_pos(wiped[t2 + 1], r2) + 2 <= self.spec_copy_pos(
                wiped[t1 + 1],
                r1,
            ));
        }
        if t == 0 {
            assert forall|r1: int, r2: int|
                0 <= r1 < nfats && 0 <= r2 < nfats && r1 != r2 implies (fat_pos + #[trigger] (r1
                    * cs) + 2 <= fat_pos + #[trigger] (r2 * cs) || fat_pos + r2 * cs + 2 <= fat_pos
                    + r1 * cs) by {
                assert(self.spec_copy_pos(wiped[0], r1) == fat_pos + r1 * cs);
                assert(self.spec_copy_pos(wiped[0], r2) == fat_pos + r2 * cs);
            }
            Self::lemma_zero_fat_copies_zero(d1, fat_pos as int, cs, nfats, 0, r);
            Self::lemma_zero_fat_copies_in_bounds(d1, fat_pos as int, cs, nfats, 0, r);
            let p = fat_pos + r * cs;
            assert(self.spec_copy_pos(wiped[0], r) == p);
            self.lemma_system_area_not_zeroed(next, rem2, fuel2, p);
            self.lemma_system_area_not_zeroed(next, rem2, fuel2, p + 1);
            assert forall|t2: int, r2: int|
                0 <= t2 < tail.len() && 0 <= r2 < self.bpb_num_fats implies !((
            #[trigger] self.spec_copy_pos(tail[t2], r2)) <= p < self.spec_copy_pos(tail[t2], r2)
                + 2) && !(self.spec_copy_pos(tail[t2], r2) <= p + 1 < self.spec_copy_pos(
                tail[t2],
                r2,
            ) + 2) by {
                assert(wiped[t2 + 1] == tail[t2]);
                assert(self.spec_copy_pos(wiped[0], r) + 2 <= self.spec_copy_pos(
                    wiped[t2 + 1],
                    r2,
                ) || self.spec_copy_pos(wiped[t2 + 1], r2) + 2 <= self.spec_copy_pos(
                    wiped[0],
                    r,
                ));
            }
            self.lemma_wipe_untouched(d2, next, rem2, fuel2, p);
            self.lemma_wipe_untouched(d2, next, rem2, fuel2, p + 1);
        } else {
            self.lemma_wipe_zeroes_every_fat_copy(d2, next, rem2, fuel2, t - 1, r);
            assert(wiped[t] == tail[t - 1]);
        }
    }
}

} // verus!
