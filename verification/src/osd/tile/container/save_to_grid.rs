//! Writing a collection of tiles as a grid image file.

use crate::osd::tile::grid::grid_image_fits;
use crate::osd::tile::grid::grid_saved;
use crate::osd::tile::grid::grid_saved_norm;
use crate::osd::tile::grid::save_tiles_image;
use crate::osd::tile::grid::save_tiles_image_norm;
use crate::osd::tile::grid::Grid as TileGrid;
use crate::osd::tile::grid::SaveImageError as SaveGridImageError;
use crate::osd::bin_file::ident_view;
use crate::osd::tile::Tile;
use crate::osd::tile::TileView;
use crate::outcome::result_view;
use vstd::prelude::*;

verus! {

/// A collection of tiles that can be written as a grid image file.
pub trait SaveToGridImage {
    /// The tiles of the collection, in order.
    spec fn spec_tiles_of_grid(&self) -> Seq<TileView>;

    /// The content of the grid image file of the tiles, which is meant to go
    /// to `path`.
    fn save_to_grid_image(&self, path: &str) -> (r: Result<Vec<u8>, SaveGridImageError>)
        requires
            grid_image_fits(self.spec_tiles_of_grid().len()),
        ensures
            result_view(r) == grid_saved(self.spec_tiles_of_grid(), path@),
    ;

    /// The path in `dir` and the content of the grid image file of the
    /// tiles and an identifier.
    fn save_to_grid_image_norm(&self, dir: &str, ident: &Option<&str>) -> (r: Result<
        (String, Vec<u8>),
        SaveGridImageError,
    >)
        requires
            grid_image_fits(self.spec_tiles_of_grid().len()),
        ensures
            result_view(r) == grid_saved_norm(self.spec_tiles_of_grid(), dir@, ident_view(*ident)),
    ;
}

impl SaveToGridImage for Vec<Tile> {
    open spec fn spec_tiles_of_grid(&self) -> Seq<TileView> {
        self.deep_view()
    }

    fn save_to_grid_image(&self, path: &str) -> (r: Result<Vec<u8>, SaveGridImageError>) {
        save_tiles_image(self, path)
    }

    fn save_to_grid_image_norm(&self, dir: &str, ident: &Option<&str>) -> (r: Result<
        (String, Vec<u8>),
        SaveGridImageError,
    >) {
        save_tiles_image_norm(self, dir, ident)
    }
}

impl SaveToGridImage for TileGrid {
    open spec fn spec_tiles_of_grid(&self) -> Seq<TileView> {
        self@
    }

    fn save_to_grid_image(&self, path: &str) -> (r: Result<Vec<u8>, SaveGridImageError>) {
        self.save_image(path)
    }

    fn save_to_grid_image_norm(&self, dir: &str, ident: &Option<&str>) -> (r: Result<
        (String, Vec<u8>),
        SaveGridImageError,
    >) {
        self.save_image_norm(dir, ident)
    }
}

} // verus!
