//! The EXT2 engine: superblock geometry, inode and block-group address
//! translation, the variable-length directory-entry scanner, the
//! single/double indirect-block walker, the recursive finder, and the raw
//! deletion routine (directory-entry unlink, bitmap release, inode scrub).
//!
//! Every traversal is specified by a spec-level twin that walks the same
//! byte structures over the mathematical view of the buffer; the executable
//! functions return exactly what their twins denote.  Walks carry an
//! explicit fuel bound so that corrupt, self-referential images terminate
//! with a distinct error instead of diverging.

use vstd::prelude::*;

use crate::generics::{lift_blocks, lift_bytes, lift_opt_bytes, GenericVolume, VolumeError};
use crate::utils::{
    bit_of, bytes_match, clear_bit, clear_bit_byte, clip0, copy_range, current_time, extract_u16,
    extract_u32, is_power, le16, le32, save_u16, save_u32, spec_is_power, spec_save_u16,
    spec_save_u32,
};

verus! {

/// A located file: its byte size, its inode number, and the byte offset of
/// the directory entry *preceding* its own (whose record length absorbs the
/// unlinked entry on deletion).
#[derive(Clone, Copy, Debug, PartialEq, Eq, Structural)]
pub struct FindResult {
    pub file_size: u32,
    pub file_inode: usize,
    pub parent_directory_offset: usize,
}

/// The metadata record `describe` reports: the superblock fields, with
/// the volume label as its raw 16 bytes.
pub struct Ext2Info {
    pub inode_size: u16,
    pub inode_count: u32,
    pub first_inode: u32,
    pub inodes_x_group: u32,
    pub free_inodes: u32,
    pub block_size: u32,
    pub rsvd_blocks: u32,
    pub free_blocks: u32,
    pub block_count: u32,
    pub first_block: u32,
    pub group_blocks_count: u32,
    pub group_frags_count: u32,
    pub volume_label: Vec<u8>,
    pub last_check: u32,
    pub last_mount: u32,
    pub last_write: u32,
}

/// An EXT2 volume: the raw bytes, the name being searched for, and the
/// geometry derived once from the superblock.
pub struct Ext2 {
    pub data: Vec<u8>,
    pub file_name: Vec<u8>,
    pub vol_label: Vec<u8>,
    pub indirect_block_row_count: u32,
    pub double_indirect_top_row: u32,
    pub inode_size: u16,
    pub inode_count: u32,
    pub first_inode: u32,
    pub inodes_x_group: u32,
    pub free_inodes: u32,
    pub block_size: u32,
    pub block_count: u32,
    pub rsvd_blocks: u32,
    pub free_blocks: u32,
    pub first_block: u32,
    pub group_blocks_count: u32,
    pub group_frags_count: u32,
    pub last_check: u32,
    pub last_mount: u32,
    pub last_write: u32,
}

/// Block size encoded by the superblock's log field: 1024 shifted left by
/// `s`, for the exponents this engine accepts.
pub open spec fn spec_block_size_of(s: u32) -> u32 {
    if s == 0 {
        1024
    } else if s == 1 {
        2048
    } else if s == 2 {
        4096
    } else if s == 3 {
        8192
    } else if s == 4 {
        16384
    } else {
        32768
    }
}

impl Ext2 {
    /// The superblock's block-size exponent as stored in the image.
    pub open spec fn sb_log_block_size(&self) -> u32 {
        le32(self.data@, 1048)
    }

    /// Well-formedness: the buffer covers the whole superblock and every
    /// derived geometry field agrees with the bytes it was read from.
    pub open spec fn wf(&self) -> bool {
        let d = self.data@;
        &&& d.len() >= 1160
        &&& self.sb_log_block_size() <= 5
        &&& self.block_size == spec_block_size_of(self.sb_log_block_size())
        &&& self.indirect_block_row_count == self.block_size / 4
        &&& self.double_indirect_top_row == self.indirect_block_row_count - 12 + self.block_size
            * self.block_size
        &&& self.inode_count == le32(d, 1024)
        &&& self.block_count == le32(d, 1028)
        &&& self.rsvd_blocks == le32(d, 1032)
        &&& self.free_blocks == le32(d, 1036)
        &&& self.free_inodes == le32(d, 1040)
        &&& self.first_block == le32(d, 1044)
        &&& self.group_blocks_count == le32(d, 1056)
        &&& self.group_frags_count == le32(d, 1060)
        &&& self.inodes_x_group == le32(d, 1064)
        &&& self.inodes_x_group >= 1
        &&& self.last_mount == le32(d, 1068)
        &&& self.last_write == le32(d, 1072)
        &&& self.last_check == le32(d, 1088)
        &&& self.first_inode == le32(d, 1108)
        &&& self.inode_size == le16(d, 1112)
        &&& self.vol_label@ == d.subrange(1144, 1160)
    }

    /// Read the superblock and derive the geometry.  Rejects a buffer too
    /// short for the superblock, a block-size exponent beyond 5, and a zero
    /// inodes-per-group count (which would make inode addressing divide by
    /// zero).
    pub fn new(gv: GenericVolume) -> (r: Result<Ext2, VolumeError>)
        ensures
            gv.data@.len() < 1160 ==> r == Err::<Ext2, VolumeError>(VolumeError::OutOfBounds),
            gv.data@.len() >= 1160 && le32(gv.data@, 1048) > 5 ==> r == Err::<Ext2, VolumeError>(
                VolumeError::BadGeometry,
            ),
            gv.data@.len() >= 1160 && le32(gv.data@, 1048) <= 5 && le32(gv.data@, 1064) == 0
                ==> r == Err::<Ext2, VolumeError>(VolumeError::BadGeometry),
            gv.data@.len() >= 1160 && le32(gv.data@, 1048) <= 5 && le32(gv.data@, 1064) >= 1 ==> (
            r matches Ok(e) && e.wf() && e.data@ == gv.data@ && e.file_name@ == gv.file_name@),
    {
        if gv.data.len() < 1160 {
            return Err(VolumeError::OutOfBounds);
        }
        let s = extract_u32(&gv.data, 1048);
        if s > 5 {
            return Err(VolumeError::BadGeometry);
        }
        let inodes_x_group = extract_u32(&gv.data, 1064);
        if inodes_x_group == 0 {
            return Err(VolumeError::BadGeometry);
        }
        let block_size: u32 = if s == 0 {
            1024
        } else if s == 1 {
            2048
        } else if s == 2 {
            4096
        } else if s == 3 {
            8192
        } else if s == 4 {
            16384
        } else {
            32768
        };
        let indirect_block_row_count = block_size / 4;
        let double_indirect_top_row = indirect_block_row_count - 12 + block_size * block_size;
        let ext2 = Ext2 {
            vol_label: copy_range(&gv.data, 1144, 16),
            indirect_block_row_count,
            double_indirect_top_row,
            inode_size: extract_u16(&gv.data, 1112),
            inode_count: extract_u32(&gv.data, 1024),
            first_inode: extract_u32(&gv.data, 1108),
            inodes_x_group,
            free_inodes: extract_u32(&gv.data, 1040),
            block_size,
            block_count: extract_u32(&gv.data, 1028),
            rsvd_blocks: extract_u32(&gv.data, 1032),
            free_blocks: extract_u32(&gv.data, 1036),
            first_block: extract_u32(&gv.data, 1044),
            group_blocks_count: extract_u32(&gv.data, 1056),
            group_frags_count: extract_u32(&gv.data, 1060),
            last_check: extract_u32(&gv.data, 1088),
            last_mount: extract_u32(&gv.data, 1068),
            last_write: extract_u32(&gv.data, 1072),
            file_name: gv.file_name,
            data: gv.data,
        };
        Ok(ext2)
    }

    // ---------- address translation ----------

    /// Byte offset of block `block_number`: when block 1 carries the
    /// superblock (first data block 1, i.e. 1 KiB blocks) the area starts
    /// 1024 bytes in; otherwise blocks map directly.
    pub open spec fn spec_get_offset(&self, block_number: int) -> int {
        if self.first_block == 1 {
            1024 + (block_number - 1) * self.block_size
        } else {
            block_number * self.block_size
        }
    }

    pub fn get_offset(&self, block_number: usize) -> (r: usize)
        requires
            self.wf(),
            self.first_block == 1 ==> block_number >= 1,
            self.spec_get_offset(block_number as int) <= usize::MAX,
        ensures
            r == self.spec_get_offset(block_number as int),
    {
        if self.first_block == 1 {
            1024 + (block_number - 1) * (self.block_size as usize)
        } else {
            block_number * (self.block_size as usize)
        }
    }

    /// `get_offset` with the overflow check made at run time.
    fn get_offset_checked(&self, block_number: usize) -> (r: Option<usize>)
        requires
            self.wf(),
            self.first_block == 1 ==> block_number >= 1,
        ensures
            r == (if self.spec_get_offset(block_number as int) <= usize::MAX {
                Some(self.spec_get_offset(block_number as int) as usize)
            } else {
                None::<usize>
            }),
    {
        if self.first_block == 1 {
            match (block_number - 1).checked_mul(self.block_size as usize) {
                Some(p) => p.checked_add(1024),
                None => None,
            }
        } else {
            block_number.checked_mul(self.block_size as usize)
        }
    }

    /// Highest meaningful slot index in the inode's 15-entry pointer array,
    /// given how many blocks the inode uses: up to 12 direct slots, 13 when
    /// the single-indirect block is needed, 14 for double, 15 for triple.
    pub open spec fn spec_max_index(&self, max_i_blocks: u32) -> u32 {
        if max_i_blocks < 13 {
            max_i_blocks
        } else if max_i_blocks <= self.indirect_block_row_count - 12 {
            13
        } else if max_i_blocks <= self.double_indirect_top_row {
            14
        } else {
            15
        }
    }

    pub fn compute_max_index(&self, max_i_blocks: u32) -> (r: u32)
        requires
            self.wf(),
        ensures
            r == self.spec_max_index(max_i_blocks),
    {
        if max_i_blocks < 13 {
            max_i_blocks
        } else if max_i_blocks <= self.indirect_block_row_count - 12 {
            13
        } else if max_i_blocks <= self.double_indirect_top_row {
            14
        } else {
            15
        }
    }

    /// Iteration bound handed to the indirect walker for slot `i`: the
    /// block count capped by the capacity of that indirect layer, or 0
    /// (walk until a zero pointer) beyond the double-indirect slot.
    pub open spec fn spec_indirect_max_loop(&self, i: u32, max_i_blocks: u32) -> u32 {
        if i == 13 {
            if max_i_blocks <= self.indirect_block_row_count - 12 {
                max_i_blocks
            } else {
                (self.indirect_block_row_count - 12) as u32
            }
        } else if i == 14 {
            if max_i_blocks <= self.double_indirect_top_row {
                max_i_blocks
            } else {
                self.double_indirect_top_row
            }
        } else {
            0
        }
    }

    pub fn compute_indirect_max_loop(&self, i: u32, max_i_blocks: u32) -> (r: u32)
        requires
            self.wf(),
        ensures
            r == self.spec_indirect_max_loop(i, max_i_blocks),
    {
        if i == 13 {
            if max_i_blocks <= self.indirect_block_row_count - 12 {
                max_i_blocks
            } else {
                self.indirect_block_row_count - 12
            }
        } else if i == 14 {
            if max_i_blocks <= self.double_indirect_top_row {
                max_i_blocks
            } else {
                self.double_indirect_top_row
            }
        } else {
            0
        }
    }

    /// The sparse-superblock rule: only groups 0, 1 and powers of 3, 5 or 7
    /// carry a superblock and descriptor-table copy.
    pub open spec fn spec_sparse_group(bg: int) -> bool {
        bg == 0 || bg == 1 || spec_is_power(bg as nat, 3) || spec_is_power(bg as nat, 5)
            || spec_is_power(bg as nat, 7)
    }

    /// Byte offset, from the start of the volume, of the inode table that
    /// holds `inode_num`.  Groups with a descriptor copy read the table's
    /// block number from the descriptor; the others start the table right
    /// after the group's two bitmap blocks.
    pub open spec fn spec_inode_table_start(&self, inode_num: int) -> Result<int, VolumeError>
        recommends
            inode_num >= 1,
    {
        let d = self.data@;
        let bg = (inode_num - 1) / (self.inodes_x_group as int);
        let bg_off = bg * (self.group_blocks_count as int) * (self.block_size as int);
        if Self::spec_sparse_group(bg) {
            let doff = self.spec_get_offset(
                1 + self.first_block + bg * (self.group_blocks_count as int),
            ) + 8;
            if doff + 4 > d.len() {
                Err(VolumeError::OutOfBounds)
            } else {
                let itb = le32(d, doff);
                if self.first_block == 1 && itb == 0 {
                    Err(VolumeError::OutOfBounds)
                } else {
                    let r = bg_off + self.spec_get_offset(itb as int);
                    if r > usize::MAX {
                        Err(VolumeError::OutOfBounds)
                    } else {
                        Ok(r)
                    }
                }
            }
        } else {
            let r = bg_off + 2 * (self.block_size as int);
            if r > usize::MAX {
                Err(VolumeError::OutOfBounds)
            } else {
                Ok(r)
            }
        }
    }

    /// `spec_inode_table_start` with every bound checked at run time.
    pub fn inode_table_start_checked(&self, inode_num: usize) -> (r: Result<usize, VolumeError>)
        requires
            self.wf(),
            inode_num >= 1,
        ensures
            crate::generics::lift_usize(r) == self.spec_inode_table_start(inode_num as int),
    {
        let dlen = self.data.len();
        let ghost bgi = (inode_num as int - 1) / (self.inodes_x_group as int);
        let ghost bg_off_spec = bgi * (self.group_blocks_count as int) * (self.block_size as int);
        let bg: usize = (inode_num - 1) / (self.inodes_x_group as usize);
        let sparse = bg == 0 || bg == 1 || is_power(bg, 3) || is_power(bg, 5) || is_power(bg, 7);
        proof {
            assert(bg == bgi);
            Self::lemma_mul_mono(bgi * (self.group_blocks_count as int), self.block_size as int);
        }
        let bg_blocks = match bg.checked_mul(self.group_blocks_count as usize) {
            Some(v) => v,
            None => {
                proof {
                    if Self::spec_sparse_group(bgi) {
                        self.lemma_huge_block_offset(
                            1 + self.first_block + bgi * (self.group_blocks_count as int),
                        );
                    }
                }
                return Err(VolumeError::OutOfBounds);
            },
        };
        if sparse {
            let fb1 = match (self.first_block as usize).checked_add(1) {
                Some(v) => v,
                None => {
                    proof {
                        self.lemma_huge_block_offset(
                            1 + self.first_block + bgi * (self.group_blocks_count as int),
                        );
                    }
                    return Err(VolumeError::OutOfBounds);
                },
            };
            let desc_block = match bg_blocks.checked_add(fb1) {
                Some(v) => v,
                None => {
                    proof {
                        self.lemma_huge_block_offset(
                            1 + self.first_block + bgi * (self.group_blocks_count as int),
                        );
                    }
                    return Err(VolumeError::OutOfBounds);
                },
            };
            let off = match self.get_offset_checked(desc_block) {
                Some(v) => v,
                None => {
                    return Err(VolumeError::OutOfBounds);
                },
            };
            if off > self.data.len() - 12 {
                return Err(VolumeError::OutOfBounds);
            }
            let itb = extract_u32(&self.data, off + 8);
            if self.first_block == 1 && itb == 0 {
                return Err(VolumeError::OutOfBounds);
            }
            let it_off = match self.get_offset_checked(itb as usize) {
                Some(v) => v,
                None => {
                    return Err(VolumeError::OutOfBounds);
                },
            };
            let bg_off = match bg_blocks.checked_mul(self.block_size as usize) {
                Some(v) => v,
                None => {
                    return Err(VolumeError::OutOfBounds);
                },
            };
            match bg_off.checked_add(it_off) {
                Some(v) => Ok(v),
                None => Err(VolumeError::OutOfBounds),
            }
        } else {
            let bg_off = match bg_blocks.checked_mul(self.block_size as usize) {
                Some(v) => v,
                None => {
                    return Err(VolumeError::OutOfBounds);
                },
            };
            match bg_off.checked_add(2 * (self.block_size as usize)) {
                Some(v) => Ok(v),
                None => Err(VolumeError::OutOfBounds),
            }
        }
    }

    /// Convenience lemma for geometry proofs: `a * b` dominates `a` and is
    /// non-negative once `a >= 0` and `b >= 1`.
    proof fn lemma_mul_mono(a: int, b: int)
        requires
            a >= 0,
            b >= 1,
        ensures
            a * b >= a,
            a * b >= 0,
    {
        assert(a * b >= a && a * b >= 0) by (nonlinear_arith)
            requires
                a >= 0,
                b >= 1,
        ;
    }

    /// A block number at or beyond `usize::MAX` has a byte offset beyond
    /// every buffer position, whichever branch of the offset rule applies.
    proof fn lemma_huge_block_offset(&self, block_number: int)
        requires
            self.wf(),
            block_number > usize::MAX,
        ensures
            self.spec_get_offset(block_number) > usize::MAX,
    {
        assert(self.block_size >= 1024);
        if self.first_block == 1 {
            assert((block_number - 1) * (self.block_size as int) >= block_number - 1)
                by (nonlinear_arith)
                requires
                    self.block_size >= 1,
                    block_number >= 1,
            ;
        } else {
            assert(block_number * (self.block_size as int) >= block_number) by (nonlinear_arith)
                requires
                    self.block_size >= 1,
                    block_number >= 0,
            ;
        }
    }

    /// Required-offset form of the inode-table lookup (callers must know it
    /// is in bounds; `inode_table_start_checked` is the total variant).
    pub fn compute_inode_table_start_offset(&self, inode_num: usize) -> (r: usize)
        requires
            self.wf(),
            inode_num >= 1,
            self.spec_inode_table_start(inode_num as int) matches Ok(_),
        ensures
            Ok::<int, VolumeError>(r as int) == self.spec_inode_table_start(inode_num as int),
    {
        match self.inode_table_start_checked(inode_num) {
            Ok(v) => v,
            Err(_) => vstd::pervasive::unreached(),
        }
    }

    /// Byte offset of inode `inode_num` itself: its table's start plus its
    /// index within the group times the inode size.
    pub open spec fn spec_inode_offset(&self, inode_num: int) -> Result<int, VolumeError>
        recommends
            inode_num >= 1,
    {
        match self.spec_inode_table_start(inode_num) {
            Err(e) => Err(e),
            Ok(its) => {
                let rel = (inode_num - 1) % (self.inodes_x_group as int);
                let r = its + rel * (self.inode_size as int);
                if r > usize::MAX {
                    Err(VolumeError::OutOfBounds)
                } else {
                    Ok(r)
                }
            },
        }
    }

    /// `spec_inode_offset` with every bound checked at run time.
    pub fn inode_offset_checked(&self, inode_num: usize) -> (r: Result<usize, VolumeError>)
        requires
            self.wf(),
            inode_num >= 1,
        ensures
            crate::generics::lift_usize(r) == self.spec_inode_offset(inode_num as int),
    {
        let its = match self.inode_table_start_checked(inode_num) {
            Ok(v) => v,
            Err(e) => {
                return Err(e);
            },
        };
        let rel = (inode_num - 1) % (self.inodes_x_group as usize);
        let skip = match rel.checked_mul(self.inode_size as usize) {
            Some(v) => v,
            None => {
                return Err(VolumeError::OutOfBounds);
            },
        };
        match its.checked_add(skip) {
            Some(v) => Ok(v),
            None => Err(VolumeError::OutOfBounds),
        }
    }

    /// Required-offset form of the inode lookup.
    pub fn compute_inode_offset(&self, global_inode_num: usize) -> (r: usize)
        requires
            self.wf(),
            global_inode_num >= 1,
            self.spec_inode_offset(global_inode_num as int) matches Ok(_),
        ensures
            Ok::<int, VolumeError>(r as int) == self.spec_inode_offset(global_inode_num as int),
    {
        match self.inode_offset_checked(global_inode_num) {
            Ok(v) => v,
            Err(_) => vstd::pervasive::unreached(),
        }
    }

    // ---------- the finder: spec-level walk ----------

    /// Fuel granted to a fresh walk: ample for any acyclic structure held
    /// in a buffer of this size.
    pub open spec fn spec_fuel(&self) -> nat {
        self.data@.len()
    }

    /// What resolving `inode_num` denotes.  A non-directory inode is the
    /// answer itself: its size field and number.  A directory inode has its
    /// meaningful pointer slots scanned in order.
    pub open spec fn spec_find_in_inode(
        &self,
        inode_num: int,
        name: Seq<u8>,
        pd: int,
        fuel: nat,
    ) -> Result<Option<FindResult>, VolumeError>
        decreases fuel, 4int, 0int, 0int,
    {
        let d = self.data@;
        if inode_num < 1 {
            Err(VolumeError::OutOfBounds)
        } else {
            match self.spec_inode_offset(inode_num) {
                Err(e) => Err(e),
                Ok(off) => if off + 2 > d.len() {
                    Err(VolumeError::OutOfBounds)
                } else {
                    let i_mode = le16(d, off);
                    if i_mode & 0x4000 == 0x4000 {
                        if off + 32 > d.len() {
                            Err(VolumeError::OutOfBounds)
                        } else {
                            let max_i_blocks = le32(d, off + 28) / (self.block_size / 512) as u32;
                            let max_index = self.spec_max_index(max_i_blocks);
                            self.spec_find_slots(off, max_i_blocks, max_index, 1, name, pd, fuel)
                        }
                    } else {
                        if off + 8 > d.len() {
                            Err(VolumeError::OutOfBounds)
                        } else {
                            Ok(
                                Some(
                                    FindResult {
                                        file_size: le32(d, off + 4),
                                        file_inode: inode_num as usize,
                                        parent_directory_offset: pd as usize,
                                    },
                                ),
                            )
                        }
                    }
                },
            }
        }
    }

    /// Scan of the inode's pointer slots `i ..= max_index`: slots below 13
    /// point directly at directory data blocks, 13 and 14 at single and
    /// double indirect blocks, and 15 would be triple indirect, which the
    /// engine reports as unsupported.
    pub open spec fn spec_find_slots(
        &self,
        ioff: int,
        max_i_blocks: u32,
        max_index: u32,
        i: int,
        name: Seq<u8>,
        pd: int,
        fuel: nat,
    ) -> Result<Option<FindResult>, VolumeError>
        decreases fuel, 3int, clip0(16 - i), 0int,
    {
        let d = self.data@;
        if i > max_index {
            Ok(None)
        } else if i >= 15 {
            Err(VolumeError::TripleIndirect)
        } else {
            let poff = ioff + 40 + 4 * (i - 1);
            if poff < 0 || poff + 4 > d.len() {
                Err(VolumeError::OutOfBounds)
            } else {
                let bn = le32(d, poff);
                if i < 13 {
                    let dbo = bn * self.block_size;
                    match self.spec_find_in_dir_from(dbo as int, name, pd, 0, 0, fuel) {
                        Err(e) => Err(e),
                        Ok(Some(fr)) => Ok(Some(fr)),
                        Ok(None) => self.spec_find_slots(
                            ioff,
                            max_i_blocks,
                            max_index,
                            i + 1,
                            name,
                            pd,
                            fuel,
                        ),
                    }
                } else {
                    let ibo = bn * self.block_size;
                    let ml = self.spec_indirect_max_loop(i as u32, max_i_blocks);
                    match self.spec_explore_indirect(
                        ibo as int,
                        name,
                        ml,
                        (i - 13) as u32,
                        pd,
                        0,
                        fuel,
                    ) {
                        Err(e) => Err(e),
                        Ok(Some(fr)) => Ok(Some(fr)),
                        Ok(None) => self.spec_find_slots(
                            ioff,
                            max_i_blocks,
                            max_index,
                            i + 1,
                            name,
                            pd,
                            fuel,
                        ),
                    }
                }
            }
        }
    }

    /// Walk of one indirect block, from pointer index `k` on.  A zero
    /// pointer ends the walk; with a non-zero `max_loop` only the first
    /// `max_loop` pointers are examined.  At layer 0 each pointer is a
    /// directory data block; at layer 1 each pointer is a layer-0 indirect
    /// block.
    pub open spec fn spec_explore_indirect(
        &self,
        ibo: int,
        name: Seq<u8>,
        max_loop: u32,
        layer: u32,
        pd: int,
        k: int,
        fuel: nat,
    ) -> Result<Option<FindResult>, VolumeError>
        decreases fuel, 2int, layer, clip0(self.data@.len() - ibo - 4 * k),
    {
        let d = self.data@;
        if layer >= 2 {
            Err(VolumeError::TripleIndirect)
        } else if max_loop != 0 && k >= max_loop {
            Ok(None)
        } else if ibo < 0 || k < 0 || ibo + 4 * k + 4 > d.len() {
            Err(VolumeError::OutOfBounds)
        } else {
            let bn = le32(d, ibo + 4 * k);
            if bn == 0 {
                Ok(None)
            } else {
                let dbo = (bn * self.block_size) as int;
                let sub = if layer == 0 {
                    self.spec_find_in_dir_from(dbo, name, pd, 0, 0, fuel)
                } else {
                    self.spec_explore_indirect(dbo, name, 0, (layer - 1) as u32, pd, 0, fuel)
                };
                match sub {
                    Err(e) => Err(e),
                    Ok(Some(fr)) => Ok(Some(fr)),
                    Ok(None) => self.spec_explore_indirect(
                        ibo,
                        name,
                        max_loop,
                        layer,
                        pd,
                        k + 1,
                        fuel,
                    ),
                }
            }
        }
    }

    /// Scan of one directory data block from entry cursor `cursor`
    /// (`last_rec` is the previous entry's record length).  Reads one
    /// entry; an all-zero terminator or a zero record length ends the
    /// block.  A subdirectory entry other than "." and ".." is entered
    /// recursively; a matching non-directory entry is resolved through its
    /// own inode, handing down the preceding entry's offset.  The cursor
    /// then advances by the record length, stopping when the next record
    /// would extend past the block.
    pub open spec fn spec_find_in_dir_from(
        &self,
        dbo: int,
        name: Seq<u8>,
        pd: int,
        cursor: int,
        last_rec: int,
        fuel: nat,
    ) -> Result<Option<FindResult>, VolumeError>
        decreases fuel, 1int, clip0(self.block_size - cursor), 0int,
    {
        let d = self.data@;
        let off = dbo + cursor;
        if off < 0 || off + 8 > d.len() {
            Err(VolumeError::OutOfBounds)
        } else {
            let goal_inode = le32(d, off);
            let rec_len = le16(d, off + 4);
            let name_len = d[off + 6];
            let file_type = d[off + 7];
            if off + 8 + name_len > d.len() {
                Err(VolumeError::OutOfBounds)
            } else {
                let ename = d.subrange(off + 8, off + 8 + name_len);
                if rec_len == 0 {
                    Ok(None)
                } else {
                    let is_dot = (name_len == 1 && d[off + 8] == 0x2E) || (name_len == 2 && d[off
                        + 8] == 0x2E && d[off + 9] == 0x2E);
                    let sub: Result<Option<FindResult>, VolumeError> = if goal_inode == 0 {
                        Ok(None)
                    } else if file_type == 2 {
                        if is_dot {
                            Ok(None)
                        } else if fuel == 0 {
                            Err(VolumeError::DepthLimit)
                        } else {
                            self.spec_find_in_inode(
                                goal_inode as int,
                                name,
                                pd,
                                (fuel - 1) as nat,
                            )
                        }
                    } else if file_type != 0 && ename == name {
                        if fuel == 0 {
                            Err(VolumeError::DepthLimit)
                        } else {
                            self.spec_find_in_inode(
                                goal_inode as int,
                                name,
                                off - last_rec,
                                (fuel - 1) as nat,
                            )
                        }
                    } else {
                        Ok(None)
                    };
                    match sub {
                        Err(e) => Err(e),
                        Ok(Some(fr)) => Ok(Some(fr)),
                        Ok(None) => {
                            let cursor2 = cursor + rec_len;
                            if cursor2 + 8 > self.block_size {
                                Ok(None)
                            } else if dbo + cursor2 + 6 > d.len() {
                                Err(VolumeError::OutOfBounds)
                            } else {
                                let peek = le16(d, dbo + cursor2 + 4);
                                if cursor2 + peek > self.block_size {
                                    Ok(None)
                                } else {
                                    self.spec_find_in_dir_from(
                                        dbo,
                                        name,
                                        pd,
                                        cursor2,
                                        rec_len as int,
                                        fuel,
                                    )
                                }
                            }
                        },
                    }
                }
            }
        }
    }

    /// The whole search: root-to-leaf walk starting at the root inode 2.
    pub open spec fn spec_locate(&self) -> Result<Option<FindResult>, VolumeError> {
        self.spec_find_in_inode(2, self.file_name@, 0, self.spec_fuel())
    }

    // ---------- the finder: executable walk ----------

    /// Resolve `inode_num`: return the located file for a non-directory
    /// inode, or scan a directory inode's pointer slots.
    pub fn find_in_inode(
        &self,
        inode_num: usize,
        filename: &Vec<u8>,
        parent_directory_offset: usize,
        fuel: usize,
    ) -> (r: Result<Option<FindResult>, VolumeError>)
        requires
            self.wf(),
        ensures
            r == self.spec_find_in_inode(
                inode_num as int,
                filename@,
                parent_directory_offset as int,
                fuel as nat,
            ),
            r matches Ok(Some(fr)) ==> self.spec_result_from_inode(fr),
        decreases fuel, 4int, 0int, 0int,
    {
        if inode_num < 1 {
            return Err(VolumeError::OutOfBounds);
        }
        let off = match self.inode_offset_checked(inode_num) {
            Ok(o) => o,
            Err(e) => {
                return Err(e);
            },
        };
        if off > self.data.len() - 2 {
            return Err(VolumeError::OutOfBounds);
        }
        let i_mode = extract_u16(&self.data, off);
        if (i_mode & 0x4000) == 0x4000 {
            if off > self.data.len() - 32 {
                return Err(VolumeError::OutOfBounds);
            }
            let iblocks = extract_u32(&self.data, off + 28);
            let max_i_blocks = iblocks / (self.block_size / 512);
            let max_index = self.compute_max_index(max_i_blocks);
            self.find_in_slots(
                off,
                max_i_blocks,
                max_index,
                1,
                filename,
                parent_directory_offset,
                fuel,
            )
        } else {
            if off > self.data.len() - 8 {
                return Err(VolumeError::OutOfBounds);
            }
            let file_size = extract_u32(&self.data, off + 4);
            let fr = FindResult { file_size, file_inode: inode_num, parent_directory_offset };
            proof {
                assert(self.spec_result_from_inode(fr));
            }
            Ok(Some(fr))
        }
    }

    /// Scan pointer slots `i ..= max_index` of the inode whose record
    /// starts at byte `ioff`.
    pub fn find_in_slots(
        &self,
        ioff: usize,
        max_i_blocks: u32,
        max_index: u32,
        i: u32,
        filename: &Vec<u8>,
        pd: usize,
        fuel: usize,
    ) -> (r: Result<Option<FindResult>, VolumeError>)
        requires
            self.wf(),
            1 <= i,
        ensures
            r == self.spec_find_slots(
                ioff as int,
                max_i_blocks,
                max_index,
                i as int,
                filename@,
                pd as int,
                fuel as nat,
            ),
            r matches Ok(Some(fr)) ==> self.spec_result_from_inode(fr),
        decreases fuel, 3int, clip0(16 - i), 0int,
    {
        let dlen = self.data.len();
        if i > max_index {
            return Ok(None);
        }
        if i >= 15 {
            return Err(VolumeError::TripleIndirect);
        }
        let delta: usize = 40 + 4 * ((i - 1) as usize);
        let poff = match ioff.checked_add(delta) {
            Some(p) => p,
            None => {
                return Err(VolumeError::OutOfBounds);
            },
        };
        if poff > usize::MAX - 4 || poff + 4 > self.data.len() {
            return Err(VolumeError::OutOfBounds);
        }
        let bn = extract_u32(&self.data, poff);
        if i < 13 {
            let dbo = match (bn as usize).checked_mul(self.block_size as usize) {
                Some(v) => v,
                None => {
                    proof {
                        self.lemma_data_block_offset_oob(bn as int * self.block_size as int);
                        assert(self.spec_find_in_dir_from(
                            bn as int * self.block_size as int,
                            filename@,
                            pd as int,
                            0,
                            0,
                            fuel as nat,
                        ) == Err::<Option<FindResult>, VolumeError>(VolumeError::OutOfBounds));
                        assert(self.spec_find_slots(
                            ioff as int,
                            max_i_blocks,
                            max_index,
                            i as int,
                            filename@,
                            pd as int,
                            fuel as nat,
                        ) == Err::<Option<FindResult>, VolumeError>(VolumeError::OutOfBounds));
                    }
                    return Err(VolumeError::OutOfBounds);
                },
            };
            match self.find_in_dir_from(dbo, filename, pd, 0, 0, fuel) {
                Err(e) => Err(e),
                Ok(Some(fr)) => Ok(Some(fr)),
                Ok(None) => self.find_in_slots(
                    ioff,
                    max_i_blocks,
                    max_index,
                    i + 1,
                    filename,
                    pd,
                    fuel,
                ),
            }
        } else {
            let ml = self.compute_indirect_max_loop(i, max_i_blocks);
            let ibo = match (bn as usize).checked_mul(self.block_size as usize) {
                Some(v) => v,
                None => {
                    proof {
                        self.lemma_indirect_offset_oob(
                            bn as int * self.block_size as int,
                            filename@,
                            ml,
                            (i - 13) as u32,
                            pd as int,
                            fuel as nat,
                        );
                    }
                    return Err(VolumeError::OutOfBounds);
                },
            };
            match self.explore_indirect_from(ibo, filename, ml, i - 13, pd, 0, fuel) {
                Err(e) => Err(e),
                Ok(Some(fr)) => Ok(Some(fr)),
                Ok(None) => self.find_in_slots(
                    ioff,
                    max_i_blocks,
                    max_index,
                    i + 1,
                    filename,
                    pd,
                    fuel,
                ),
            }
        }
    }

    /// A directory-block scan starting beyond `usize::MAX` fails its very
    /// first bounds check.
    proof fn lemma_data_block_offset_oob(&self, dbo: int)
        requires
            dbo > usize::MAX,
            self.data@.len() <= usize::MAX,
        ensures
            forall|name: Seq<u8>, pd: int, fuel: nat|
                #[trigger] self.spec_find_in_dir_from(dbo, name, pd, 0, 0, fuel) == Err::<
                    Option<FindResult>,
                    VolumeError,
                >(VolumeError::OutOfBounds),
    {
        assert forall|name: Seq<u8>, pd: int, fuel: nat|
            #[trigger] self.spec_find_in_dir_from(dbo, name, pd, 0, 0, fuel) == Err::<
                Option<FindResult>,
                VolumeError,
            >(VolumeError::OutOfBounds) by {
            assert(dbo + 0 + 8 > self.data@.len());
        }
    }

    /// An indirect-block walk starting beyond `usize::MAX` fails its very
    /// first bounds check (at either layer this engine supports).
    proof fn lemma_indirect_offset_oob(
        &self,
        ibo: int,
        name: Seq<u8>,
        max_loop: u32,
        layer: u32,
        pd: int,
        fuel: nat,
    )
        requires
            ibo > usize::MAX,
            layer < 2,
            self.data@.len() <= usize::MAX,
        ensures
            self.spec_explore_indirect(ibo, name, max_loop, layer, pd, 0, fuel) == Err::<
                Option<FindResult>,
                VolumeError,
            >(VolumeError::OutOfBounds),
    {
        assert(ibo + 4 * 0 + 4 > self.data@.len());
    }

    /// Walk one indirect block starting at pointer index `k`.
    pub fn explore_indirect_from(
        &self,
        ibo: usize,
        filename: &Vec<u8>,
        max_loop: u32,
        layer: u32,
        pd: usize,
        k: usize,
        fuel: usize,
    ) -> (r: Result<Option<FindResult>, VolumeError>)
        requires
            self.wf(),
        ensures
            r == self.spec_explore_indirect(
                ibo as int,
                filename@,
                max_loop,
                layer,
                pd as int,
                k as int,
                fuel as nat,
            ),
            r matches Ok(Some(fr)) ==> self.spec_result_from_inode(fr),
        decreases fuel, 2int, layer, clip0(self.data@.len() - ibo - 4 * k),
    {
        let dlen = self.data.len();
        if layer >= 2 {
            return Err(VolumeError::TripleIndirect);
        }
        if max_loop != 0 && k >= max_loop as usize {
            return Ok(None);
        }
        let k4 = match k.checked_mul(4) {
            Some(v) => v,
            None => {
                return Err(VolumeError::OutOfBounds);
            },
        };
        let p = match ibo.checked_add(k4) {
            Some(v) => v,
            None => {
                return Err(VolumeError::OutOfBounds);
            },
        };
        if p > usize::MAX - 4 || p + 4 > self.data.len() {
            return Err(VolumeError::OutOfBounds);
        }
        let bn = extract_u32(&self.data, p);
        if bn == 0 {
            return Ok(None);
        }
        let dbo = match (bn as usize).checked_mul(self.block_size as usize) {
            Some(v) => v,
            None => {
                proof {
                    if layer == 0 {
                        self.lemma_data_block_offset_oob(bn as int * self.block_size as int);
                        assert(self.spec_find_in_dir_from(
                            bn as int * self.block_size as int,
                            filename@,
                            pd as int,
                            0,
                            0,
                            fuel as nat,
                        ) == Err::<Option<FindResult>, VolumeError>(VolumeError::OutOfBounds));
                    } else {
                        self.lemma_indirect_offset_oob(
                            bn as int * self.block_size as int,
                            filename@,
                            0,
                            (layer - 1) as u32,
                            pd as int,
                            fuel as nat,
                        );
                    }
                    assert(self.spec_explore_indirect(
                        ibo as int,
                        filename@,
                        max_loop,
                        layer,
                        pd as int,
                        k as int,
                        fuel as nat,
                    ) == Err::<Option<FindResult>, VolumeError>(VolumeError::OutOfBounds));
                }
                return Err(VolumeError::OutOfBounds);
            },
        };
        let sub = if layer == 0 {
            self.find_in_dir_from(dbo, filename, pd, 0, 0, fuel)
        } else {
            self.explore_indirect_from(dbo, filename, 0, layer - 1, pd, 0, fuel)
        };
        match sub {
            Err(e) => Err(e),
            Ok(Some(fr)) => Ok(Some(fr)),
            Ok(None) => self.explore_indirect_from(ibo, filename, max_loop, layer, pd, k + 1, fuel),
        }
    }

    /// Search every directory data block reachable through the indirect
    /// block at byte offset `indirect_block_offset`; `layer` 0 walks leaf
    /// pointers, 1 walks single-indirect pointers.
    pub fn explore_indirect_block(
        &self,
        indirect_block_offset: u32,
        filename: &Vec<u8>,
        max_loop: u32,
        layer: u32,
        parent_directory_offset: usize,
        fuel: usize,
    ) -> (r: Result<Option<FindResult>, VolumeError>)
        requires
            self.wf(),
        ensures
            r == self.spec_explore_indirect(
                indirect_block_offset as int,
                filename@,
                max_loop,
                layer,
                parent_directory_offset as int,
                0,
                fuel as nat,
            ),
            r matches Ok(Some(fr)) ==> self.spec_result_from_inode(fr),
    {
        self.explore_indirect_from(
            indirect_block_offset as usize,
            filename,
            max_loop,
            layer,
            parent_directory_offset,
            0,
            fuel,
        )
    }

    /// Scan one directory data block from entry cursor `cursor` on.
    pub fn find_in_dir_from(
        &self,
        dbo: usize,
        filename: &Vec<u8>,
        pd: usize,
        cursor: usize,
        last_rec: usize,
        fuel: usize,
    ) -> (r: Result<Option<FindResult>, VolumeError>)
        requires
            self.wf(),
            last_rec <= cursor,
        ensures
            r == self.spec_find_in_dir_from(
                dbo as int,
                filename@,
                pd as int,
                cursor as int,
                last_rec as int,
                fuel as nat,
            ),
            r matches Ok(Some(fr)) ==> self.spec_result_from_inode(fr),
        decreases fuel, 1int, clip0(self.block_size - cursor), 0int,
    {
        let dlen = self.data.len();
        let off = match dbo.checked_add(cursor) {
            Some(o) => o,
            None => {
                return Err(VolumeError::OutOfBounds);
            },
        };
        if off > usize::MAX - 8 || off + 8 > self.data.len() {
            return Err(VolumeError::OutOfBounds);
        }
        let goal_inode = extract_u32(&self.data, off);
        let rec_len = extract_u16(&self.data, off + 4);
        let name_len = self.data[off + 6];
        let file_type = self.data[off + 7];
        if (name_len as usize) > self.data.len() - 8 - off {
            return Err(VolumeError::OutOfBounds);
        }
        let ghost ename = self.data@.subrange(
            off as int + 8,
            off as int + 8 + name_len as int,
        );
        if rec_len == 0 {
            return Ok(None);
        }
        let sub: Result<Option<FindResult>, VolumeError> = if goal_inode == 0 {
            Ok(None)
        } else if file_type == 2 {
            let is_dot = (name_len == 1 && self.data[off + 8] == 0x2E) || (name_len == 2
                && self.data[off + 8] == 0x2E && self.data[off + 9] == 0x2E);
            if is_dot {
                Ok(None)
            } else if fuel == 0 {
                Err(VolumeError::DepthLimit)
            } else {
                self.find_in_inode(goal_inode as usize, filename, pd, fuel - 1)
            }
        } else if file_type != 0 {
            let name_eq = (name_len as usize) == filename.len() && bytes_match(
                &self.data,
                off + 8,
                filename,
            );
            proof {
                if (name_len as usize) != filename@.len() {
                    assert(ename.len() != filename@.len());
                    assert(ename != filename@);
                }
            }
            if name_eq {
                if fuel == 0 {
                    Err(VolumeError::DepthLimit)
                } else {
                    self.find_in_inode(goal_inode as usize, filename, off - last_rec, fuel - 1)
                }
            } else {
                Ok(None)
            }
        } else {
            Ok(None)
        };
        match sub {
            Err(e) => Err(e),
            Ok(Some(fr)) => Ok(Some(fr)),
            Ok(None) => {
                let cursor2 = match cursor.checked_add(rec_len as usize) {
                    Some(c) => c,
                    None => {
                        return Ok(None);
                    },
                };
                if cursor2 > (self.block_size as usize) - 8 {
                    return Ok(None);
                }
                let o2 = match dbo.checked_add(cursor2) {
                    Some(v) => v,
                    None => {
                        return Err(VolumeError::OutOfBounds);
                    },
                };
                if o2 > usize::MAX - 6 || o2 + 6 > self.data.len() {
                    return Err(VolumeError::OutOfBounds);
                }
                let peek = extract_u16(&self.data, o2 + 4);
                if cursor2 + (peek as usize) > self.block_size as usize {
                    return Ok(None);
                }
                self.find_in_dir_from(dbo, filename, pd, cursor2, rec_len as usize, fuel)
            },
        }
    }

    /// Scan the single directory data block that starts at byte offset
    /// `data_block_offset`.
    pub fn find_in_dir(
        &self,
        data_block_offset: u32,
        filename: &Vec<u8>,
        parent_directory_offset: usize,
        fuel: usize,
    ) -> (r: Result<Option<FindResult>, VolumeError>)
        requires
            self.wf(),
        ensures
            r == self.spec_find_in_dir_from(
                data_block_offset as int,
                filename@,
                parent_directory_offset as int,
                0,
                0,
                fuel as nat,
            ),
            r matches Ok(Some(fr)) ==> self.spec_result_from_inode(fr),
    {
        self.find_in_dir_from(
            data_block_offset as usize,
            filename,
            parent_directory_offset,
            0,
            0,
            fuel,
        )
    }

    /// Locate `self.file_name`, starting from the root inode 2: the byte
    /// size and inode of the first match in scan order, or `None` when the
    /// name is absent.
    ///
    /// Law: whenever the search reports a located file, the size it
    /// reports is exactly the size field stored in that file's own inode
    /// record, and that inode's mode is not a directory's.
    pub fn locate(&self) -> (r: Result<Option<FindResult>, VolumeError>)
        requires
            self.wf(),
        ensures
            r == self.spec_locate(),
            r matches Ok(Some(fr)) ==> self.spec_result_from_inode(fr),
    {
        self.find_in_inode(2, &self.file_name, 0, self.data.len())
    }

    // ---------- deletion: spec-level edit ----------

    /// The block numbers reachable through one indirect block, pointer
    /// index `k` on, in walk order (the collecting twin of the indirect
    /// search walk, with the same `max_loop` pointer bound).
    pub open spec fn spec_collect_indirect(&self, ibo: int, max_loop: u32, layer: u32, k: int)
        -> Result<Seq<u32>, VolumeError>
        decreases 1int, layer, clip0(self.data@.len() - ibo - 4 * k),
    {
        let d = self.data@;
        if layer >= 2 {
            Err(VolumeError::TripleIndirect)
        } else if max_loop != 0 && k >= max_loop {
            Ok(Seq::empty())
        } else if ibo < 0 || k < 0 || ibo + 4 * k + 4 > d.len() {
            Err(VolumeError::OutOfBounds)
        } else {
            let bn = le32(d, ibo + 4 * k);
            if bn == 0 {
                Ok(Seq::empty())
            } else {
                let sub: Result<Seq<u32>, VolumeError> = if layer == 0 {
                    Ok(seq![bn])
                } else {
                    self.spec_collect_indirect((bn * self.block_size) as int, 0, (layer - 1) as u32, 0)
                };
                match sub {
                    Err(e) => Err(e),
                    Ok(s1) => match self.spec_collect_indirect(ibo, max_loop, layer, k + 1) {
                        Err(e) => Err(e),
                        Ok(s2) => Ok(s1 + s2),
                    },
                }
            }
        }
    }

    /// The block numbers held by the inode's pointer slots `i ..= max_index`,
    /// direct slots first, then the contents of the indirect layers.
    pub open spec fn spec_collect_slots(
        &self,
        ioff: int,
        max_i_blocks: u32,
        max_index: u32,
        i: int,
    ) -> Result<Seq<u32>, VolumeError>
        decreases 2int, clip0(16 - i), 0int,
    {
        let d = self.data@;
        if i > max_index {
            Ok(Seq::empty())
        } else if i >= 15 {
            Err(VolumeError::TripleIndirect)
        } else {
            let poff = ioff + 40 + 4 * (i - 1);
            if poff < 0 || poff + 4 > d.len() {
                Err(VolumeError::OutOfBounds)
            } else {
                let bn = le32(d, poff);
                if i < 13 {
                    match self.spec_collect_slots(ioff, max_i_blocks, max_index, i + 1) {
                        Err(e) => Err(e),
                        Ok(rest) => Ok(seq![bn] + rest),
                    }
                } else {
                    let ibo = (bn * self.block_size) as int;
                    let ml = self.spec_indirect_max_loop(i as u32, max_i_blocks);
                    match self.spec_collect_indirect(ibo, ml, (i - 13) as u32, 0) {
                        Err(e) => Err(e),
                        Ok(s1) => match self.spec_collect_slots(
                            ioff,
                            max_i_blocks,
                            max_index,
                            i + 1,
                        ) {
                            Err(e) => Err(e),
                            Ok(rest) => Ok(s1 + rest),
                        },
                    }
                }
            }
        }
    }

    /// Every data block used by `inode_num`, in walk order.
    pub open spec fn spec_used_blocks(&self, inode_num: int) -> Result<Seq<u32>, VolumeError> {
        let d = self.data@;
        if inode_num < 1 {
            Err(VolumeError::OutOfBounds)
        } else {
            match self.spec_inode_offset(inode_num) {
                Err(e) => Err(e),
                Ok(off) => if off + 32 > d.len() {
                    Err(VolumeError::OutOfBounds)
                } else {
                    let max_i_blocks = le32(d, off + 28) / (self.block_size / 512) as u32;
                    let max_index = self.spec_max_index(max_i_blocks);
                    self.spec_collect_slots(off, max_i_blocks, max_index, 1)
                },
            }
        }
    }

    // ---------- deletion: executable collectors ----------

    /// An indirect walk starting beyond `usize::MAX` fails its first
    /// bounds check, for the collector as for the finder.
    proof fn lemma_collect_offset_oob(&self, ibo: int, max_loop: u32, layer: u32)
        requires
            ibo > usize::MAX,
            layer < 2,
            self.data@.len() <= usize::MAX,
        ensures
            self.spec_collect_indirect(ibo, max_loop, layer, 0) == Err::<Seq<u32>, VolumeError>(
                VolumeError::OutOfBounds,
            ),
    {
        assert(ibo + 4 * 0 + 4 > self.data@.len());
    }

    /// Collect block numbers from one indirect block, pointer index `k` on.
    pub fn collect_indirect_from(
        &self,
        ibo: usize,
        max_loop: u32,
        layer: u32,
        k: usize,
    ) -> (r: Result<Vec<u32>, VolumeError>)
        requires
            self.wf(),
        ensures
            lift_blocks(r) == self.spec_collect_indirect(ibo as int, max_loop, layer, k as int),
        decreases 1int, layer, clip0(self.data@.len() - ibo - 4 * k),
    {
        let dlen = self.data.len();
        if layer >= 2 {
            return Err(VolumeError::TripleIndirect);
        }
        if max_loop != 0 && k >= max_loop as usize {
            return Ok(Vec::new());
        }
        let k4 = match k.checked_mul(4) {
            Some(v) => v,
            None => {
                return Err(VolumeError::OutOfBounds);
            },
        };
        let p = match ibo.checked_add(k4) {
            Some(v) => v,
            None => {
                return Err(VolumeError::OutOfBounds);
            },
        };
        if p > usize::MAX - 4 || p + 4 > dlen {
            return Err(VolumeError::OutOfBounds);
        }
        let bn = extract_u32(&self.data, p);
        if bn == 0 {
            return Ok(Vec::new());
        }
        let sub: Vec<u32> = if layer == 0 {
            let mut v: Vec<u32> = Vec::new();
            v.push(bn);
            proof {
                assert(v@ =~= seq![bn]);
            }
            v
        } else {
            let dbo = match (bn as usize).checked_mul(self.block_size as usize) {
                Some(v) => v,
                None => {
                    proof {
                        self.lemma_collect_offset_oob(
                            bn as int * self.block_size as int,
                            0,
                            (layer - 1) as u32,
                        );
                    }
                    return Err(VolumeError::OutOfBounds);
                },
            };
            match self.collect_indirect_from(dbo, 0, layer - 1, 0) {
                Ok(v) => v,
                Err(e) => {
                    return Err(e);
                },
            }
        };
        let mut rest = match self.collect_indirect_from(ibo, max_loop, layer, k + 1) {
            Ok(v) => v,
            Err(e) => {
                return Err(e);
            },
        };
        let mut out = sub;
        out.append(&mut rest);
        Ok(out)
    }

    /// Collect every block number reachable through the indirect block at
    /// byte offset `indirect_block_offset`.
    pub fn search_for_inode_blocks_inside_indirects(
        &self,
        indirect_block_offset: u32,
        max_loop: u32,
        layer: u32,
    ) -> (r: Result<Vec<u32>, VolumeError>)
        requires
            self.wf(),
        ensures
            lift_blocks(r) == self.spec_collect_indirect(
                indirect_block_offset as int,
                max_loop,
                layer,
                0,
            ),
    {
        self.collect_indirect_from(indirect_block_offset as usize, max_loop, layer, 0)
    }

    /// Collect pointer slots `i ..= max_index` of the inode record at
    /// `ioff`.
    pub fn collect_slots(
        &self,
        ioff: usize,
        max_i_blocks: u32,
        max_index: u32,
        i: u32,
    ) -> (r: Result<Vec<u32>, VolumeError>)
        requires
            self.wf(),
            1 <= i,
        ensures
            lift_blocks(r) == self.spec_collect_slots(
                ioff as int,
                max_i_blocks,
                max_index,
                i as int,
            ),
        decreases 2int, clip0(16 - i), 0int,
    {
        let dlen = self.data.len();
        if i > max_index {
            return Ok(Vec::new());
        }
        if i >= 15 {
            return Err(VolumeError::TripleIndirect);
        }
        let delta: usize = 40 + 4 * ((i - 1) as usize);
        let poff = match ioff.checked_add(delta) {
            Some(p) => p,
            None => {
                return Err(VolumeError::OutOfBounds);
            },
        };
        if poff > usize::MAX - 4 || poff + 4 > dlen {
            return Err(VolumeError::OutOfBounds);
        }
        let bn = extract_u32(&self.data, poff);
        if i < 13 {
            let mut rest = match self.collect_slots(ioff, max_i_blocks, max_index, i + 1) {
                Ok(v) => v,
                Err(e) => {
                    return Err(e);
                },
            };
            let mut out: Vec<u32> = Vec::new();
            out.push(bn);
            out.append(&mut rest);
            proof {
                assert(out@ =~= seq![bn] + self.spec_collect_slots(
                    ioff as int,
                    max_i_blocks,
                    max_index,
                    i as int + 1,
                )->Ok_0);
            }
            Ok(out)
        } else {
            let ml = self.compute_indirect_max_loop(i, max_i_blocks);
            let ibo = match (bn as usize).checked_mul(self.block_size as usize) {
                Some(v) => v,
                None => {
                    proof {
                        self.lemma_collect_offset_oob(
                            bn as int * self.block_size as int,
                            ml,
                            (i - 13) as u32,
                        );
                    }
                    return Err(VolumeError::OutOfBounds);
                },
            };
            let mut s1 = match self.collect_indirect_from(ibo, ml, i - 13, 0) {
                Ok(v) => v,
                Err(e) => {
                    return Err(e);
                },
            };
            let mut rest = match self.collect_slots(ioff, max_i_blocks, max_index, i + 1) {
                Ok(v) => v,
                Err(e) => {
                    return Err(e);
                },
            };
            s1.append(&mut rest);
            Ok(s1)
        }
    }

    /// The pure traversal behind deletion: every data block `inode_num`
    /// uses, as an owned list threaded through the call chain.
    pub fn search_for_inode_used_blocks(&self, inode_num: usize) -> (r: Result<
        Vec<u32>,
        VolumeError,
    >)
        requires
            self.wf(),
        ensures
            lift_blocks(r) == self.spec_used_blocks(inode_num as int),
    {
        let dlen = self.data.len();
        if inode_num < 1 {
            return Err(VolumeError::OutOfBounds);
        }
        let off = match self.inode_offset_checked(inode_num) {
            Ok(o) => o,
            Err(e) => {
                return Err(e);
            },
        };
        if off > dlen - 32 {
            return Err(VolumeError::OutOfBounds);
        }
        let iblocks = extract_u32(&self.data, off + 28);
        let max_i_blocks = iblocks / (self.block_size / 512);
        let max_index = self.compute_max_index(max_i_blocks);
        self.collect_slots(off, max_i_blocks, max_index, 1)
    }

    // ---------- deletion: the edit itself ----------

    /// Clear one allocation bit in `d`: bit `block % 8` of the byte at
    /// `dbb + block / 8`.
    pub open spec fn spec_clear_block_bit(d: Seq<u8>, dbb: int, block: u32) -> Seq<u8> {
        let byte = dbb + block / 8;
        d.update(byte, clear_bit_byte(d[byte], (block % 8) as u8))
    }

    /// Clear the allocation bits of `blocks[j ..]` in order, failing if a
    /// bitmap byte would fall outside the buffer.
    pub open spec fn spec_clear_blocks(d: Seq<u8>, dbb: int, blocks: Seq<u32>, j: int) -> Result<
        Seq<u8>,
        VolumeError,
    >
        decreases clip0(blocks.len() - j),
    {
        if j < 0 || j >= blocks.len() {
            Ok(d)
        } else {
            let byte = dbb + blocks[j] / 8;
            if byte < 0 || byte >= d.len() {
                Err(VolumeError::OutOfBounds)
            } else {
                Self::spec_clear_blocks(Self::spec_clear_block_bit(d, dbb, blocks[j]), dbb, blocks, j + 1)
            }
        }
    }

    /// What deleting the located file denotes, given the delete-time `t`:
    /// the new buffer with (a) the preceding directory entry's record
    /// length grown over the deleted entry and the deleted entry's inode
    /// field zeroed, (b) the inode's bit and every used data block's bit
    /// cleared in the group's bitmaps, and (c) the inode's delete time set
    /// and its link count, sector count and size zeroed.
    pub open spec fn spec_delete(&self, file_inode: int, pd: int, t: u32) -> Result<
        Seq<u8>,
        VolumeError,
    > {
        let d = self.data@;
        if file_inode < 1 {
            Err(VolumeError::OutOfBounds)
        } else if pd < 0 || pd + 6 > d.len() {
            Err(VolumeError::OutOfBounds)
        } else {
            let rc_prev = le16(d, pd + 4);
            if pd + rc_prev + 6 > d.len() {
                Err(VolumeError::OutOfBounds)
            } else {
                let rc_del = le16(d, pd + rc_prev + 4);
                if rc_prev + rc_del > u16::MAX {
                    Err(VolumeError::OutOfBounds)
                } else {
                    let d1 = spec_save_u16(d, pd + 4, (rc_prev + rc_del) as u16);
                    let d2 = spec_save_u32(d1, pd + rc_prev, 0);
                    match self.spec_inode_table_start(file_inode) {
                        Err(e) => Err(e),
                        Ok(its) => if its < 2 * self.block_size {
                            Err(VolumeError::OutOfBounds)
                        } else {
                            let ibm = its - self.block_size;
                            let rel = (file_inode - 1) % (self.inodes_x_group as int);
                            let ibyte = ibm + rel / 8;
                            if ibyte >= d.len() {
                                Err(VolumeError::OutOfBounds)
                            } else {
                                let d3 = d2.update(
                                    ibyte,
                                    clear_bit_byte(d2[ibyte], (rel % 8) as u8),
                                );
                                let dbb = its - 2 * self.block_size;
                                match self.spec_used_blocks(file_inode) {
                                    Err(e) => Err(e),
                                    Ok(blocks) => match Self::spec_clear_blocks(
                                        d3,
                                        dbb,
                                        blocks,
                                        0,
                                    ) {
                                        Err(e) => Err(e),
                                        Ok(d4) => match self.spec_inode_offset(file_inode) {
                                            Err(e) => Err(e),
                                            Ok(ioff) => if ioff + 32 > d.len() {
                                                Err(VolumeError::OutOfBounds)
                                            } else {
                                                let d5 = spec_save_u32(d4, ioff + 20, t);
                                                let d6 = spec_save_u16(d5, ioff + 26, 0);
                                                let d7 = spec_save_u32(d6, ioff + 28, 0);
                                                let d8 = spec_save_u32(d7, ioff + 4, 0);
                                                Ok(d8)
                                            },
                                        },
                                    },
                                }
                            }
                        },
                    }
                }
            }
        }
    }

    /// Delete the file at inode `file_inode`, whose directory entry is
    /// preceded by the entry at `pd_offset`, writing `d_time` into the
    /// inode's delete-time field.  The edit is made on a fresh copy of the
    /// buffer; the original is never touched.
    #[verifier::loop_isolation(false)]
    pub fn delete_inode_at(&self, file_inode: usize, pd_offset: usize, d_time: u32) -> (r: Result<
        Vec<u8>,
        VolumeError,
    >)
        requires
            self.wf(),
        ensures
            lift_bytes(r) == self.spec_delete(file_inode as int, pd_offset as int, d_time),
    {
        let dlen = self.data.len();
        if file_inode < 1 {
            return Err(VolumeError::OutOfBounds);
        }
        if pd_offset > usize::MAX - 6 || pd_offset + 6 > dlen {
            return Err(VolumeError::OutOfBounds);
        }
        let rc_prev = extract_u16(&self.data, pd_offset + 4);
        let pdr = match pd_offset.checked_add(rc_prev as usize) {
            Some(v) => v,
            None => {
                return Err(VolumeError::OutOfBounds);
            },
        };
        if pdr > usize::MAX - 6 || pdr + 6 > dlen {
            return Err(VolumeError::OutOfBounds);
        }
        let rc_del = extract_u16(&self.data, pdr + 4);
        if rc_prev as u32 + rc_del as u32 > 0xFFFF {
            return Err(VolumeError::OutOfBounds);
        }
        let mut new_data = copy_range(&self.data, 0, dlen);
        proof {
            assert(new_data@ =~= self.data@);
        }
        save_u16(&mut new_data, pd_offset + 4, rc_prev + rc_del);
        save_u32(&mut new_data, pdr, 0);
        let its = match self.inode_table_start_checked(file_inode) {
            Ok(v) => v,
            Err(e) => {
                return Err(e);
            },
        };
        if its < 2 * (self.block_size as usize) {
            return Err(VolumeError::OutOfBounds);
        }
        let ibm = its - self.block_size as usize;
        let rel = (file_inode - 1) % (self.inodes_x_group as usize);
        let ibyte = match ibm.checked_add(rel / 8) {
            Some(v) => v,
            None => {
                return Err(VolumeError::OutOfBounds);
            },
        };
        if ibyte >= dlen {
            return Err(VolumeError::OutOfBounds);
        }
        clear_bit(&mut new_data, ibyte, (rel % 8) as u8);
        let dbb = its - 2 * (self.block_size as usize);
        let blocks = match self.search_for_inode_used_blocks(file_inode) {
            Ok(v) => v,
            Err(e) => {
                return Err(e);
            },
        };
        let ghost d3 = new_data@;
        let nblocks = blocks.len();
        let mut j: usize = 0;
        while j < nblocks
            invariant
                j <= nblocks,
                new_data@.len() == self.data@.len(),
                Self::spec_clear_blocks(new_data@, dbb as int, blocks@, j as int)
                    == Self::spec_clear_blocks(d3, dbb as int, blocks@, 0),
            decreases nblocks - j,
        {
            let b = blocks[j];
            let byte = match dbb.checked_add((b / 8) as usize) {
                Some(v) => v,
                None => {
                    return Err(VolumeError::OutOfBounds);
                },
            };
            if byte >= dlen {
                return Err(VolumeError::OutOfBounds);
            }
            clear_bit(&mut new_data, byte, (b % 8) as u8);
            j = j + 1;
        }
        let ioff = match self.inode_offset_checked(file_inode) {
            Ok(v) => v,
            Err(e) => {
                return Err(e);
            },
        };
        if ioff > usize::MAX - 32 || ioff + 32 > dlen {
            return Err(VolumeError::OutOfBounds);
        }
        save_u32(&mut new_data, ioff + 20, d_time);
        save_u16(&mut new_data, ioff + 26, 0);
        save_u32(&mut new_data, ioff + 28, 0);
        save_u32(&mut new_data, ioff + 4, 0);
        Ok(new_data)
    }

    /// `delete_inode_at` with the delete time taken from the wall clock.
    pub fn delete_inode(&self, file_inode: usize, pd_offset: usize) -> (r: Result<
        Vec<u8>,
        VolumeError,
    >)
        requires
            self.wf(),
        ensures
            exists|t: u32|
                lift_bytes(r) == #[trigger] self.spec_delete(
                    file_inode as int,
                    pd_offset as int,
                    t,
                ),
    {
        let t = current_time();
        let r = self.delete_inode_at(file_inode, pd_offset, t);
        proof {
            assert(lift_bytes(r) == self.spec_delete(file_inode as int, pd_offset as int, t));
        }
        r
    }

    /// What removing `self.file_name` denotes: `None` when the walk misses,
    /// otherwise the deleted-state buffer of the located file.
    pub open spec fn spec_remove(&self, t: u32) -> Result<Option<Seq<u8>>, VolumeError> {
        match self.spec_locate() {
            Err(e) => Err(e),
            Ok(None) => Ok(None),
            Ok(Some(fr)) => match self.spec_delete(
                fr.file_inode as int,
                fr.parent_directory_offset as int,
                t,
            ) {
                Err(e) => Err(e),
                Ok(nd) => Ok(Some(nd)),
            },
        }
    }

    /// Locate `self.file_name` and, if found, return the edited copy of
    /// the volume with the file deleted; `Ok(None)` reports a miss with no
    /// mutation anywhere.  `d_time` is written as the inode's delete time.
    pub fn remove_at(&self, d_time: u32) -> (r: Result<Option<Vec<u8>>, VolumeError>)
        requires
            self.wf(),
        ensures
            lift_opt_bytes(r) == self.spec_remove(d_time),
    {
        match self.locate() {
            Err(e) => Err(e),
            Ok(None) => Ok(None),
            Ok(Some(fr)) => match self.delete_inode_at(
                fr.file_inode,
                fr.parent_directory_offset,
                d_time,
            ) {
                Err(e) => Err(e),
                Ok(nd) => Ok(Some(nd)),
            },
        }
    }

    /// The metadata record for this volume: every superblock-derived field
    /// the caller may want to display, with the label as raw bytes.
    pub fn describe(&self) -> (r: Ext2Info)
        ensures
            r.inode_size == self.inode_size,
            r.inode_count == self.inode_count,
            r.first_inode == self.first_inode,
            r.inodes_x_group == self.inodes_x_group,
            r.free_inodes == self.free_inodes,
            r.block_size == self.block_size,
            r.rsvd_blocks == self.rsvd_blocks,
            r.free_blocks == self.free_blocks,
            r.block_count == self.block_count,
            r.first_block == self.first_block,
            r.group_blocks_count == self.group_blocks_count,
            r.group_frags_count == self.group_frags_count,
            r.volume_label@ == self.vol_label@,
            r.last_check == self.last_check,
            r.last_mount == self.last_mount,
            r.last_write == self.last_write,
    {
        Ext2Info {
            inode_size: self.inode_size,
            inode_count: self.inode_count,
            first_inode: self.first_inode,
            inodes_x_group: self.inodes_x_group,
            free_inodes: self.free_inodes,
            block_size: self.block_size,
            rsvd_blocks: self.rsvd_blocks,
            free_blocks: self.free_blocks,
            block_count: self.block_count,
            first_block: self.first_block,
            group_blocks_count: self.group_blocks_count,
            group_frags_count: self.group_frags_count,
            volume_label: {
                let lab = copy_range(&self.vol_label, 0, self.vol_label.len());
                proof {
                    assert(lab@ =~= self.vol_label@);
                }
                lab
            },
            last_check: self.last_check,
            last_mount: self.last_mount,
            last_write: self.last_write,
        }
    }

    /// `remove_at` with the delete time taken from the wall clock.
    pub fn remove(&self) -> (r: Result<Option<Vec<u8>>, VolumeError>)
        requires
            self.wf(),
        ensures
            exists|t: u32| lift_opt_bytes(r) == #[trigger] self.spec_remove(t),
    {
        let t = current_time();
        let r = self.remove_at(t);
        proof {
            assert(lift_opt_bytes(r) == self.spec_remove(t));
        }
        r
    }

    // ---------- laws ----------

    /// A located file is consistent with its own inode record: the inode
    /// resolves, its mode is not a directory's, and the reported size is
    /// exactly the size field stored there.
    pub open spec fn spec_result_from_inode(&self, fr: FindResult) -> bool {
        match self.spec_inode_offset(fr.file_inode as int) {
            Ok(o) => o + 8 <= self.data@.len() && (le16(self.data@, o) & 0x4000) != 0x4000
                && fr.file_size == le32(self.data@, o + 4),
            Err(_) => false,
        }
    }

    /// The allocation bit of block `x` in the bitmap that starts at byte
    /// `dbb`: bit `x % 8` of the byte at `dbb + x / 8`.
    pub open spec fn spec_block_bit(d: Seq<u8>, dbb: int, x: u32) -> bool {
        bit_of(d[dbb + x / 8], (x % 8) as u8)
    }

    /// Whether `blocks[j ..]` holds `x`.
    pub open spec fn spec_blocks_contain(blocks: Seq<u32>, j: int, x: u32) -> bool {
        exists|t: int| j <= t < blocks.len() && blocks[t] == x
    }

    /// Clearing the listed blocks' bits leaves every other bit of the
    /// bitmap as it was, and forces the listed ones to zero.
    proof fn lemma_clear_blocks_bit(d: Seq<u8>, dbb: int, blocks: Seq<u32>, j: int, x: u32)
        requires
            0 <= j,
            Self::spec_clear_blocks(d, dbb, blocks, j) matches Ok(_),
            0 <= dbb + x / 8 < d.len(),
        ensures
            Self::spec_clear_blocks(d, dbb, blocks, j) matches Ok(nd) ==> Self::spec_block_bit(
                nd,
                dbb,
                x,
            ) == (Self::spec_block_bit(d, dbb, x) && !Self::spec_blocks_contain(blocks, j, x)),
        decreases clip0(blocks.len() - j),
    {
        if j >= blocks.len() {
            assert(!Self::spec_blocks_contain(blocks, j, x));
        } else {
            let bj = blocks[j];
            let bytej = dbb + bj / 8;
            let bytex = dbb + x / 8;
            let d2 = Self::spec_clear_block_bit(d, dbb, bj);
            Self::lemma_clear_blocks_bit(d2, dbb, blocks, j + 1, x);
            if bj == x {
                crate::utils::lemma_clear_bit_byte(d[bytej], (bj % 8) as u8, (x % 8) as u8);
                assert(!Self::spec_block_bit(d2, dbb, x));
                assert(blocks[j as int] == x);
                assert(Self::spec_blocks_contain(blocks, j, x));
            } else if bytej == bytex {
                assert(bj % 8 != x % 8) by {
                    vstd::arithmetic::div_mod::lemma_fundamental_div_mod(bj as int, 8);
                    vstd::arithmetic::div_mod::lemma_fundamental_div_mod(x as int, 8);
                }
                crate::utils::lemma_clear_bit_byte(d[bytej], (bj % 8) as u8, (x % 8) as u8);
                assert(Self::spec_block_bit(d2, dbb, x) == Self::spec_block_bit(d, dbb, x));
            } else {
                assert(d2[bytex] == d[bytex]);
                assert(Self::spec_block_bit(d2, dbb, x) == Self::spec_block_bit(d, dbb, x));
            }
            assert(Self::spec_blocks_contain(blocks, j, x) == (bj == x
                || Self::spec_blocks_contain(blocks, j + 1, x))) by {
                if Self::spec_blocks_contain(blocks, j, x) {
                    let t = choose|t: int| j <= t < blocks.len() && blocks[t] == x;
                    if t != j {
                        assert(j + 1 <= t < blocks.len() && blocks[t] == x);
                    }
                }
                if bj == x {
                    assert(j <= j < blocks.len() && blocks[j as int] == x);
                }
                if Self::spec_blocks_contain(blocks, j + 1, x) {
                    let t = choose|t: int| j + 1 <= t < blocks.len() && blocks[t] == x;
                    assert(j <= t < blocks.len() && blocks[t] == x);
                }
            }
        }
    }

    /// A byte that is no block's bitmap byte is untouched by the
    /// block-clearing pass.
    proof fn lemma_clear_blocks_frame(d: Seq<u8>, dbb: int, blocks: Seq<u32>, j: int, q: int)
        requires
            Self::spec_clear_blocks(d, dbb, blocks, j) matches Ok(_),
            0 <= q < d.len(),
            forall|t: int| j <= t < blocks.len() ==> dbb + #[trigger] blocks[t] / 8 != q,
        ensures
            Self::spec_clear_blocks(d, dbb, blocks, j)->Ok_0[q] == d[q],
        decreases clip0(blocks.len() - j),
    {
        if j < 0 || j >= blocks.len() {
        } else {
            let d2 = Self::spec_clear_block_bit(d, dbb, blocks[j]);
            assert(d2[q] == d[q]);
            Self::lemma_clear_blocks_frame(d2, dbb, blocks, j + 1, q);
        }
    }

    /// Clearing block bits never changes the buffer's length.
    proof fn lemma_clear_blocks_len(d: Seq<u8>, dbb: int, blocks: Seq<u32>, j: int)
        requires
            Self::spec_clear_blocks(d, dbb, blocks, j) matches Ok(_),
        ensures
            Self::spec_clear_blocks(d, dbb, blocks, j)->Ok_0.len() == d.len(),
        decreases clip0(blocks.len() - j),
    {
        if j < 0 || j >= blocks.len() {
        } else {
            Self::lemma_clear_blocks_len(
                Self::spec_clear_block_bit(d, dbb, blocks[j]),
                dbb,
                blocks,
                j + 1,
            );
        }
    }

    /// The deletion's fixed-field edits (directory-entry unlink, inode
    /// bitmap bit, inode scrub fields) all avoid byte position `p`.
    pub open spec fn spec_delete_edits_avoid(&self, file_inode: int, pd: int, p: int) -> bool {
        let d = self.data@;
        let rc_prev = le16(d, pd + 4);
        let its = self.spec_inode_table_start(file_inode)->Ok_0;
        let rel = (file_inode - 1) % (self.inodes_x_group as int);
        let ibyte = its - self.block_size + rel / 8;
        let ioff = self.spec_inode_offset(file_inode)->Ok_0;
        &&& !(pd + 4 <= p < pd + 6)
        &&& !(pd + rc_prev <= p < pd + rc_prev + 4)
        &&& p != ibyte
        &&& !(ioff + 4 <= p < ioff + 8)
        &&& !(ioff + 20 <= p < ioff + 24)
        &&& !(ioff + 26 <= p < ioff + 32)
    }

    /// Law: deleting a file clears exactly the data-block bitmap bits of
    /// the blocks it used.  For any block number `x` whose bitmap byte is
    /// inside the buffer and is not overlapped by the deletion's few
    /// fixed-field edits, the bit of `x` after deletion equals its old
    /// value with the used blocks' bits forced to zero — so every used
    /// block's bit is cleared and no other bitmap bit flips.
    pub proof fn lemma_delete_clears_exactly_used_blocks(
        &self,
        file_inode: int,
        pd: int,
        t: u32,
        x: u32,
    )
        requires
            self.wf(),
            self.spec_delete(file_inode, pd, t) matches Ok(_),
            0 <= self.spec_inode_table_start(file_inode)->Ok_0 - 2 * self.block_size + x / 8
                < self.data@.len(),
            self.spec_delete_edits_avoid(
                file_inode,
                pd,
                self.spec_inode_table_start(file_inode)->Ok_0 - 2 * self.block_size + x / 8,
            ),
        ensures
            ({
                let dbb = self.spec_inode_table_start(file_inode)->Ok_0 - 2 * self.block_size;
                let nd = self.spec_delete(file_inode, pd, t)->Ok_0;
                let blocks = self.spec_used_blocks(file_inode)->Ok_0;
                Self::spec_block_bit(nd, dbb, x) == (Self::spec_block_bit(self.data@, dbb, x)
                    && !Self::spec_blocks_contain(blocks, 0, x))
            }),
    {
        let d = self.data@;
        let rc_prev = le16(d, pd + 4);
        let rc_del = le16(d, pd + rc_prev + 4);
        let d1 = spec_save_u16(d, pd + 4, (rc_prev + rc_del) as u16);
        let d2 = spec_save_u32(d1, pd + rc_prev, 0);
        let its = self.spec_inode_table_start(file_inode)->Ok_0;
        let rel = (file_inode - 1) % (self.inodes_x_group as int);
        let ibyte = its - self.block_size + rel / 8;
        let d3 = d2.update(ibyte, clear_bit_byte(d2[ibyte], (rel % 8) as u8));
        let dbb = its - 2 * self.block_size;
        let blocks = self.spec_used_blocks(file_inode)->Ok_0;
        let d4 = Self::spec_clear_blocks(d3, dbb, blocks, 0)->Ok_0;
        let ioff = self.spec_inode_offset(file_inode)->Ok_0;
        let p = dbb + x / 8;
        assert(d1[p] == d[p]);
        assert(d2[p] == d1[p]);
        assert(d3[p] == d2[p]);
        assert(Self::spec_block_bit(d3, dbb, x) == Self::spec_block_bit(d, dbb, x));
        Self::lemma_clear_blocks_bit(d3, dbb, blocks, 0, x);
        Self::lemma_clear_blocks_len(d3, dbb, blocks, 0);
        assert(d4.len() == d.len());
        assert(Self::spec_block_bit(d4, dbb, x) == (Self::spec_block_bit(d, dbb, x)
            && !Self::spec_blocks_contain(blocks, 0, x)));
        let d5 = spec_save_u32(d4, ioff + 20, t);
        let d6 = spec_save_u16(d5, ioff + 26, 0);
        let d7 = spec_save_u32(d6, ioff + 28, 0);
        let d8 = spec_save_u32(d7, ioff + 4, 0);
        assert(d5[p] == d4[p]);
        assert(d6[p] == d5[p]);
        assert(d7[p] == d6[p]);
        assert(d8[p] == d7[p]);
        assert(self.spec_delete(file_inode, pd, t)->Ok_0 == d8);
        assert(Self::spec_block_bit(d8, dbb, x) == Self::spec_block_bit(d4, dbb, x));
    }

    /// Law (the inode half of the deletion's bitmap guarantee): deleting a
    /// file clears exactly the freed inode's bit in the group's inode
    /// bitmap.  For any inode bitmap index `y` whose byte is inside the
    /// buffer, is hit by no block-bitmap edit, and is not overlapped by
    /// the deletion's other fixed-field edits, the bit of `y` after
    /// deletion equals its old value with the deleted inode's own index
    /// forced to zero — so that one bit is cleared and no other inode bit
    /// flips.
    pub proof fn lemma_delete_clears_exactly_the_inode_bit(
        &self,
        file_inode: int,
        pd: int,
        t: u32,
        y: u32,
    )
        requires
            self.wf(),
            self.spec_delete(file_inode, pd, t) matches Ok(_),
            ({
                let d = self.data@;
                let rc_prev = le16(d, pd + 4);
                let its = self.spec_inode_table_start(file_inode)->Ok_0;
                let ibm = its - self.block_size;
                let dbb = its - 2 * self.block_size;
                let ioff = self.spec_inode_offset(file_inode)->Ok_0;
                let blocks = self.spec_used_blocks(file_inode)->Ok_0;
                let q = ibm + y / 8;
                &&& 0 <= q < d.len()
                &&& !(pd + 4 <= q < pd + 6)
                &&& !(pd + rc_prev <= q < pd + rc_prev + 4)
                &&& !(ioff + 4 <= q < ioff + 8)
                &&& !(ioff + 20 <= q < ioff + 24)
                &&& !(ioff + 26 <= q < ioff + 32)
                &&& forall|t2: int|
                    0 <= t2 < blocks.len() ==> dbb + #[trigger] blocks[t2] / 8 != q
            }),
        ensures
            ({
                let ibm = self.spec_inode_table_start(file_inode)->Ok_0 - self.block_size;
                let rel = (file_inode - 1) % (self.inodes_x_group as int);
                let nd = self.spec_delete(file_inode, pd, t)->Ok_0;
                Self::spec_block_bit(nd, ibm, y) == (Self::spec_block_bit(self.data@, ibm, y)
                    && y != rel)
            }),
    {
        let d = self.data@;
        let rc_prev = le16(d, pd + 4);
        let rc_del = le16(d, pd + rc_prev + 4);
        let d1 = spec_save_u16(d, pd + 4, (rc_prev + rc_del) as u16);
        let d2 = spec_save_u32(d1, pd + rc_prev, 0);
        let its = self.spec_inode_table_start(file_inode)->Ok_0;
        let rel = (file_inode - 1) % (self.inodes_x_group as int);
        let ibm = its - self.block_size;
        let ibyte = ibm + rel / 8;
        let d3 = d2.update(ibyte, clear_bit_byte(d2[ibyte], (rel % 8) as u8));
        let dbb = its - 2 * self.block_size;
        let blocks = self.spec_used_blocks(file_inode)->Ok_0;
        let d4 = Self::spec_clear_blocks(d3, dbb, blocks, 0)->Ok_0;
        let ioff = self.spec_inode_offset(file_inode)->Ok_0;
        let q = ibm + y / 8;
        assert(d1[q] == d[q]);
        assert(d2[q] == d1[q]);
        assert(0 <= rel < self.inodes_x_group);
        if y == rel {
            assert(q == ibyte);
            crate::utils::lemma_clear_bit_byte(d2[ibyte], (rel % 8) as u8, (y % 8) as u8);
            assert(!Self::spec_block_bit(d3, ibm, y));
        } else if q == ibyte {
            assert(y % 8 != rel % 8) by {
                vstd::arithmetic::div_mod::lemma_fundamental_div_mod(y as int, 8);
                vstd::arithmetic::div_mod::lemma_fundamental_div_mod(rel, 8);
            }
            crate::utils::lemma_clear_bit_byte(d2[ibyte], (rel % 8) as u8, (y % 8) as u8);
            assert(Self::spec_block_bit(d3, ibm, y) == Self::spec_block_bit(d, ibm, y));
        } else {
            assert(d3[q] == d2[q]);
            assert(Self::spec_block_bit(d3, ibm, y) == Self::spec_block_bit(d, ibm, y));
        }
        Self::lemma_clear_blocks_frame(d3, dbb, blocks, 0, q);
        Self::lemma_clear_blocks_len(d3, dbb, blocks, 0);
        assert(d4[q] == d3[q]);
        assert(d4.len() == d.len());
        let d5 = spec_save_u32(d4, ioff + 20, t);
        let d6 = spec_save_u16(d5, ioff + 26, 0);
        let d7 = spec_save_u32(d6, ioff + 28, 0);
        let d8 = spec_save_u32(d7, ioff + 4, 0);
        assert(d5[q] == d4[q]);
        assert(d6[q] == d5[q]);
        assert(d7[q] == d6[q]);
        assert(d8[q] == d7[q]);
        assert(self.spec_delete(file_inode, pd, t)->Ok_0 == d8);
        assert(Self::spec_block_bit(d8, ibm, y) == Self::spec_block_bit(d4, ibm, y));
    }

    /// The cursor position at which the scanner's walk of one directory
    /// data block stops: entries are stepped by their record length from
    /// the block start until a zero record length appears or the cursor
    /// reaches or passes the block size.
    pub open spec fn spec_rec_len_walk(&self, dbo: int, cursor: int) -> Result<int, VolumeError>
        decreases clip0(self.block_size - cursor),
    {
        let d = self.data@;
        if cursor >= self.block_size {
            Ok(cursor)
        } else if dbo + cursor < 0 || dbo + cursor + 6 > d.len() {
            Err(VolumeError::OutOfBounds)
        } else {
            let rec_len = le16(d, dbo + cursor + 4);
            if rec_len == 0 {
                Ok(cursor)
            } else {
                self.spec_rec_len_walk(dbo, cursor + rec_len)
            }
        }
    }

    /// Sum the record lengths of the entries of one directory data block,
    /// from offset 0, exactly as the scanner steps them.  On a valid
    /// directory block the result equals the block size.
    #[verifier::loop_isolation(false)]
    pub fn dir_rec_len_sum(&self, data_block_offset: u32) -> (r: Result<usize, VolumeError>)
        requires
            self.wf(),
        ensures
            crate::generics::lift_usize(r) == self.spec_rec_len_walk(data_block_offset as int, 0),
    {
        let dlen = self.data.len();
        let dbo = data_block_offset as usize;
        let bs = self.block_size as usize;
        let mut cursor: usize = 0;
        while cursor < bs
            invariant
                cursor <= bs + 65535,
                self.spec_rec_len_walk(dbo as int, cursor as int) == self.spec_rec_len_walk(
                    dbo as int,
                    0,
                ),
            decreases clip0(bs - cursor),
        {
            if dbo > usize::MAX - cursor || dbo + cursor > dlen - 6 {
                return Err(VolumeError::OutOfBounds);
            }
            let rec_len = extract_u16(&self.data, dbo + cursor + 4);
            if rec_len == 0 {
                return Ok(cursor);
            }
            cursor = cursor + rec_len as usize;
        }
        Ok(cursor)
    }
}

} // verus!
