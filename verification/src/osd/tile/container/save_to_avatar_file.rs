//! Writing a collection of tiles as an avatar image file.

use crate::osd::avatar_file;
use crate::osd::avatar_file::avatar_saved;
use crate::osd::avatar_file::SaveError as AvatarFileSaveError;
use crate::osd::tile::grid::Grid as TileGrid;
use crate::osd::tile::Tile;
use crate::osd::tile::TileView;
use crate::outcome::result_view;
use vstd::prelude::*;

verus! {

/// A collection of tiles that can be written as an avatar image file.
pub trait SaveToAvatarFile {
    /// The tiles of the collection, in order.
    spec fn spec_tiles_of_avatar(&self) -> Seq<TileView>;

    /// The content of the avatar image file of the tiles, which is meant to
    /// go to `path`: see [`avatar_saved`].
    fn save_to_avatar_file(&self, path: &str) -> (r: Result<Vec<u8>, AvatarFileSaveError>)
        ensures
            result_view(r) == avatar_saved(self.spec_tiles_of_avatar(), path@),
    ;
}

impl SaveToAvatarFile for Vec<Tile> {
    open spec fn spec_tiles_of_avatar(&self) -> Seq<TileView> {
        self.deep_view()
    }

    fn save_to_avatar_file(&self, path: &str) -> (r: Result<Vec<u8>, AvatarFileSaveError>) {
        avatar_file::save(self, path)
    }
}

/// A grid of tiles that can be written as an avatar image file.
pub trait SaveTilesToAvatarFile {
    /// The tiles of the grid, row by row.
    spec fn spec_grid_tiles_of_avatar(&self) -> Seq<TileView>;

    /// The content of the avatar image file of the tiles, which is meant to
    /// go to `path`: see [`avatar_saved`].
    fn save_tiles_to_avatar_file(&self, path: &str) -> (r: Result<Vec<u8>, AvatarFileSaveError>)
        ensures
            result_view(r) == avatar_saved(self.spec_grid_tiles_of_avatar(), path@),
    ;
}

impl SaveTilesToAvatarFile for TileGrid {
    open spec fn spec_grid_tiles_of_avatar(&self) -> Seq<TileView> {
        self@
    }

    fn save_tiles_to_avatar_file(&self, path: &str) -> (r: Result<Vec<u8>, AvatarFileSaveError>) {
        self.0.save_to_avatar_file(path)
    }
}

} // verus!
