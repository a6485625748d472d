//! Reader for a compact, self-describing binary tree format ("NBT") and the
//! companion region container format that packs up to 1024 independently
//! compressed trees addressed by a 2-D coordinate.
//!
//! The crate decodes byte sources into [`Tag`] trees, lets callers navigate a
//! tree through the fallible, chainable [`Taglike`] accessors, and reads
//! region containers through [`RegionFile`]. There is no write support.

pub mod error;
pub mod format;
pub mod laws;
pub mod parse;
pub mod region;
pub mod tag;

pub use error::Error;
pub use error::ErrorV;
pub use region::RegionFile;
pub use tag::Tag;
pub use tag::TagV;
pub use tag::Taglike;
