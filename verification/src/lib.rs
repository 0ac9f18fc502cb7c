//! Read-only access to ISO-9660 optical-disc images.
//!
//! The crate decodes volume descriptors and directory records from bytes,
//! keeps a lazily filled tree of the directories it has seen, and resolves
//! paths to files and directories. Every function is verified against a
//! mathematical description of the on-disc format.
//!
//! * [`parsers`] holds the primitive decoders, [`datetime`] the two forms
//!   of dates, [`text`] the searches and conversions of byte strings.
//! * [`iso`] holds the decoders of records and descriptors, the scans that
//!   take an image sector by sector, the tree of nodes, and [`iso::IsoFs`],
//!   the filesystem of an image held in memory.
//! * [`error`] holds the failures.

pub mod error;
pub mod parsers;
pub mod text;
pub mod datetime;
pub mod iso;

pub use self::error::Error;
pub use self::error::ParseErrorKind;
