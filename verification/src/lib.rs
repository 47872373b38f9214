//! Conversion of OSD font tile collections between a raw binary record file,
//! a 16-column grid image, per-tile and per-symbol image directories, a
//! stacked "avatar" image and paired SD/HD sets.
//!
//! The library works on plain values: file contents come in and go out as
//! bytes, file names as strings. Reading and writing files is left to the
//! caller.

pub mod arguments;
pub mod create_path;
pub mod decimal;
pub mod dimensions;
pub mod file;
pub mod image;
pub mod osd;
pub mod outcome;
pub mod path;
pub mod prelude;
pub mod round_trip;
pub mod text;
