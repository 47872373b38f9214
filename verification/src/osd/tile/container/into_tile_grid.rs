//! A collection of tiles as a grid.

use crate::osd::tile::grid::Grid as TileGrid;
use crate::osd::tile::Tile;
use crate::osd::tile::TileView;
use vstd::prelude::*;

verus! {

/// A collection of tiles that can be laid out as a grid.
pub trait IntoTileGrid {
    /// The tiles of the collection, in order.
    spec fn spec_grid_tiles(&self) -> Seq<TileView>;

    /// The grid of the tiles, row by row.
    fn into_tile_grid(self) -> (r: TileGrid)
        ensures
            r@ == self.spec_grid_tiles(),
    ;
}

impl IntoTileGrid for Vec<Tile> {
    open spec fn spec_grid_tiles(&self) -> Seq<TileView> {
        self.deep_view()
    }

    fn into_tile_grid(self) -> (r: TileGrid) {
        TileGrid::from(self)
    }
}

} // verus!
