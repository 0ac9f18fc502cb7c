//! The ISO-9660 filesystem: decoders for its on-disc structures and the
//! tree of directories built from them.
//!
//! An image starts with 16 unused sectors. The volume descriptors follow,
//! one per sector, up to the set terminator ([`descriptors`], [`volume`]).
//! The primary volume descriptor holds the record of the root directory;
//! each directory is a run of sectors of records ([`record`],
//! [`directory`]). What has been read is kept in a tree ([`node`]), which
//! paths are followed through ([`path`], [`fs`]); files are read through a
//! bounded view of the image ([`file`]).

pub mod record;
pub mod descriptors;
pub mod path;
pub mod directory;
pub mod node;
pub mod file;
pub mod volume;
pub mod fs;
pub mod metadata;
pub mod readdir;

pub use self::file::IsoFile;
pub use self::fs::IsoFs;
pub use self::metadata::Metadata;
pub use self::readdir::ReadDir;
