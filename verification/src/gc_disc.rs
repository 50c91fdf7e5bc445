//! The disc image: its header, boot code, directory table and file payloads.

pub mod apploader;
pub mod disc;
pub mod error;
pub mod file;
pub mod fst;
pub mod header;
pub mod layout;
pub mod parts;
pub mod round_trip;
pub mod table;

pub use self::apploader::GcDiscApploader;
pub use self::disc::GcDisc;
pub use self::error::{FormatError, LayoutError, Operation, WriteError};
pub use self::file::{FstEntryFile, Pak, ReadWrapper};
pub use self::fst::{FstEntry, PromoteError};
pub use self::header::GcDiscHeader;
pub use self::layout::GC_DISC_LENGTH;
pub use self::parts::{ImageParts, Segment};
pub use self::table::FileSystemTable;
