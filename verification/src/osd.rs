//! Tiles, symbols and the file formats that hold them.

pub mod avatar_file;
pub mod bin_file;
pub mod tile;
