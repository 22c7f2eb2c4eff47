//! The closed set of supported volume formats behind one
//! describe/locate/remove surface, selected once by the caller after
//! sniffing the image.

use vstd::prelude::*;

use crate::ext2::{Ext2, Ext2Info};
use crate::fat16::{Fat16Info, FAT16};
use crate::generics::{lift_opt_bytes, VolumeError};

verus! {

/// An already-typed volume.
pub enum Volume {
    Ext2(Ext2),
    Fat16(FAT16),
}

/// The metadata record of either format.
pub enum VolumeInfo {
    Ext2(Ext2Info),
    Fat16(Fat16Info),
}

impl Volume {
    /// Both formats' engines are usable only on a well-formed view.
    pub open spec fn wf(&self) -> bool {
        match self {
            Volume::Ext2(e) => e.wf(),
            Volume::Fat16(f) => f.wf(),
        }
    }

    /// The byte size `locate` reports for the target name.
    pub open spec fn spec_locate_size(&self) -> Result<Option<u32>, VolumeError> {
        match self {
            Volume::Ext2(e) => match e.spec_locate() {
                Err(x) => Err(x),
                Ok(None) => Ok(None),
                Ok(Some(fr)) => Ok(Some(fr.file_size)),
            },
            Volume::Fat16(f) => f.spec_locate(),
        }
    }

    /// Locate the volume's target name: its byte size, or `None` when the
    /// name is absent.
    pub fn locate(&self) -> (r: Result<Option<u32>, VolumeError>)
        requires
            self.wf(),
        ensures
            r == self.spec_locate_size(),
    {
        match self {
            Volume::Ext2(e) => match e.locate() {
                Err(x) => Err(x),
                Ok(None) => Ok(None),
                Ok(Some(fr)) => Ok(Some(fr.file_size)),
            },
            Volume::Fat16(f) => f.locate(),
        }
    }

    /// Remove the volume's target name: the edited copy of the image, or
    /// `None` (and no mutation anywhere) when the name is absent.  The
    /// EXT2 path stamps the wall-clock time into the freed inode.
    pub fn remove(&self) -> (r: Result<Option<Vec<u8>>, VolumeError>)
        requires
            self.wf(),
        ensures
            self matches Volume::Ext2(e) ==> exists|t: u32|
                lift_opt_bytes(r) == #[trigger] e.spec_remove(t),
            self matches Volume::Fat16(f) ==> lift_opt_bytes(r) == f.spec_remove(),
    {
        match self {
            Volume::Ext2(e) => e.remove(),
            Volume::Fat16(f) => f.remove(),
        }
    }

    /// The metadata record of the volume, every field pinned to the
    /// engine's derived geometry.
    pub fn describe(&self) -> (r: VolumeInfo)
        requires
            self.wf(),
        ensures
            self matches Volume::Ext2(e) ==> (r matches VolumeInfo::Ext2(i) && i.inode_size
                == e.inode_size && i.inode_count == e.inode_count && i.first_inode == e.first_inode
                && i.inodes_x_group == e.inodes_x_group && i.free_inodes == e.free_inodes
                && i.block_size == e.block_size && i.rsvd_blocks == e.rsvd_blocks && i.free_blocks
                == e.free_blocks && i.block_count == e.block_count && i.first_block == e.first_block
                && i.group_blocks_count == e.group_blocks_count && i.group_frags_count
                == e.group_frags_count && i.volume_label@ == e.vol_label@ && i.last_check
                == e.last_check && i.last_mount == e.last_mount && i.last_write == e.last_write),
            self matches Volume::Fat16(f) ==> (r matches VolumeInfo::Fat16(i) && i.fat_type
                == f.spec_fat_type() && i.oem_name@ == f.oem_name@ && i.bpb_byts_per_sec
                == f.bpb_byts_per_sec && i.bpb_sec_per_clus == f.bpb_sec_per_clus && i.num_rsvd_sec
                == f.num_rsvd_sec && i.bpb_num_fats == f.bpb_num_fats && i.bpb_root_ent_cnt
                == f.bpb_root_ent_cnt && i.bpb_fatsz16 == f.bpb_fatsz16 && i.volume_label@
                == f.bs_vol_lab@),
    {
        match self {
            Volume::Ext2(e) => VolumeInfo::Ext2(e.describe()),
            Volume::Fat16(f) => VolumeInfo::Fat16(f.describe()),
        }
    }
}

} // verus!
