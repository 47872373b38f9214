//! The items that a program that converts fonts needs, under one roof.

pub use crate::osd::avatar_file::load as load_avatar_file;
pub use crate::osd::bin_file;
pub use crate::osd::tile::container::into_tile_grid::IntoTileGrid;
pub use crate::osd::tile::container::load_symbols_from_dir::load_symbols_from_dir;
pub use crate::osd::tile::container::load_tiles_from_dir::load_tiles_from_dir;
pub use crate::osd::tile::container::save_symbols_to_dir::SaveSymbolsToDir;
pub use crate::osd::tile::container::save_tiles_to_dir::SaveTilesToDir;
pub use crate::osd::tile::container::save_to_avatar_file::SaveTilesToAvatarFile;
pub use crate::osd::tile::container::save_to_avatar_file::SaveToAvatarFile;
pub use crate::osd::tile::container::save_to_bin_file::SaveTilesToBinFile;
pub use crate::osd::tile::container::save_to_bin_file::SaveToBinFile;
pub use crate::osd::tile::container::save_to_bin_file::SaveToBinFiles;
pub use crate::osd::tile::container::save_to_grid::SaveToGridImage;
pub use crate::osd::tile::container::symbol::set::SymbolSet;
pub use crate::osd::tile::container::symbol::spec::Specs as SymbolSpecs;
pub use crate::osd::tile::container::tile_set::TileSet;
pub use crate::osd::tile::container::symbol_tiles_iter::AsTilesVec;
pub use crate::osd::tile::container::IntoTilesVec;
pub use crate::osd::tile::container::ToSymbols;
pub use crate::osd::tile::grid::Grid as TileGrid;
pub use crate::osd::tile::grid::GridSet as TileGridSet;
pub use crate::osd::tile::grid::LoadError as GridLoadError;
pub use crate::osd::tile::grid::SaveImageError as GridSaveImageError;
pub use crate::osd::tile::Tile;
