//! The volume-independent surface: the error type shared by both engines,
//! the raw volume holder handed in by the caller, and the boot-record
//! sniffers that tell FAT and EXT2 images apart.

use vstd::prelude::*;

verus! {

/// Why a traversal or edit could not be carried out.
#[derive(Clone, Copy, Debug, PartialEq, Eq, Structural)]
pub enum VolumeError {
    /// A read, write or offset computation would leave the volume buffer.
    OutOfBounds,
    /// A geometry field of the superblock or boot record is zero or too
    /// large for the engine's address arithmetic.
    BadGeometry,
    /// The walk would need the triple-indirect pointer slot, which this
    /// engine does not decode.
    TripleIndirect,
    /// The volume is FAT12, which the FAT16 engine rejects.
    Fat12,
    /// The volume is FAT32, which the FAT16 engine rejects.
    Fat32,
    /// The traversal exceeded its explicit depth bound (cyclic or
    /// unreasonably deep structure).
    DepthLimit,
}

/// View an offset result at the mathematical level: the payload widened to
/// an unbounded integer.
pub open spec fn lift_usize(r: Result<usize, VolumeError>) -> Result<int, VolumeError> {
    match r {
        Ok(v) => Ok(v as int),
        Err(e) => Err(e),
    }
}

/// View a buffer result at the mathematical level: the payload as a byte
/// sequence.
pub open spec fn lift_bytes(r: Result<Vec<u8>, VolumeError>) -> Result<Seq<u8>, VolumeError> {
    match r {
        Ok(v) => Ok(v@),
        Err(e) => Err(e),
    }
}

/// View an optional-buffer result at the mathematical level.
pub open spec fn lift_opt_bytes(r: Result<Option<Vec<u8>>, VolumeError>) -> Result<
    Option<Seq<u8>>,
    VolumeError,
> {
    match r {
        Ok(Some(v)) => Ok(Some(v@)),
        Ok(None) => Ok(None),
        Err(e) => Err(e),
    }
}

/// View a block-list result at the mathematical level.
pub open spec fn lift_blocks(r: Result<Vec<u32>, VolumeError>) -> Result<Seq<u32>, VolumeError> {
    match r {
        Ok(v) => Ok(v@),
        Err(e) => Err(e),
    }
}

/// A raw volume image paired with the byte-string file name the caller
/// wants located or removed.
pub struct GenericVolume {
    pub data: Vec<u8>,
    pub file_name: Vec<u8>,
}

/// The FAT sniff: boot signature 0x55AA at bytes 510..512 and the ASCII
/// letters "FAT" somewhere in the 8-byte file-system-type field at byte 54.
pub open spec fn spec_is_fat(d: Seq<u8>) -> bool {
    &&& d.len() >= 512
    &&& d[510] == 0x55
    &&& d[511] == 0xAA
    &&& exists|i: int|
        0 <= i <= 5 && (#[trigger] d[54 + i]) == 0x46 && d[54 + i + 1] == 0x41 && d[54 + i + 2]
            == 0x54
}

/// The EXT2 sniff: superblock magic 0xEF53 stored little-endian at byte
/// offset 1024 + 56.
pub open spec fn spec_is_ext2(d: Seq<u8>) -> bool {
    d.len() >= 1082 && d[1080] == 0x53 && d[1081] == 0xEF
}

impl GenericVolume {
    pub fn new(data: Vec<u8>, file_name: Vec<u8>) -> (r: GenericVolume)
        ensures
            r.data@ == data@,
            r.file_name@ == file_name@,
    {
        GenericVolume { data, file_name }
    }

    pub fn is_fat(&self) -> (r: bool)
        ensures
            r == spec_is_fat(self.data@),
    {
        if self.data.len() < 512 {
            return false;
        }
        if !(self.data[510] == 0x55 && self.data[511] == 0xAA) {
            return false;
        }
        let mut i: usize = 0;
        while i <= 5
            invariant
                self.data.len() >= 512,
                self.data@[510] == 0x55,
                self.data@[511] == 0xAA,
                i <= 6,
                forall|j: int|
                    0 <= j < i ==> !((#[trigger] self.data@[54 + j]) == 0x46 && self.data@[54 + j
                        + 1] == 0x41 && self.data@[54 + j + 2] == 0x54),
            decreases 6 - i,
        {
            if self.data[54 + i] == 0x46 && self.data[54 + i + 1] == 0x41 && self.data[54 + i + 2]
                == 0x54 {
                proof {
                    let w = i as int;
                    assert(0 <= w <= 5 && self.data@[54 + w] == 0x46 && self.data@[54 + w + 1]
                        == 0x41 && self.data@[54 + w + 2] == 0x54);
                }
                return true;
            }
            i = i + 1;
        }
        false
    }

    pub fn is_ext2(&self) -> (r: bool)
        ensures
            r == spec_is_ext2(self.data@),
    {
        if self.data.len() >= 1082 {
            self.data[1080] == 0x53 && self.data[1081] == 0xEF
        } else {
            false
        }
    }
}

} // verus!
