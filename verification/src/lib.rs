//! Offline reader and editor for raw EXT2 and FAT16 volume images.
//!
//! The crate works on a byte buffer holding a whole volume: it can locate a
//! file by name by walking the on-disk directory structures, and perform a
//! raw deletion (bitmap, directory-entry and chain edits) on a copy of the
//! buffer.  All address arithmetic and structure walking is verified; the
//! surrounding command-line glue lives outside the library.

pub mod ext2;
pub mod fat16;
pub mod generics;
pub mod utils;
pub mod volume;
