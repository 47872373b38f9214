//! Writing a collection of tiles as a tile directory: one image file for
//! each tile.

use crate::create_path::CreatePathError;
use crate::image::png_encoding;
use crate::osd::tile::container::load_tiles_from_dir::spec_tile_file_name;
use crate::osd::tile::container::load_tiles_from_dir::tile_file_path;
use crate::osd::tile::Tile;
use crate::osd::tile::TileView;
use crate::path::spec_join;
use vstd::prelude::*;

verus! {

/// Why a tile directory could not be written.
#[derive(Debug)]
pub enum SaveTilesToDirError {
    /// The directory could not be created. The library creates no directory
    /// and never returns this; it is for those who do.
    CreatePathError(CreatePathError),
    /// A tile could not be encoded as an image file.
    ImageError(::image::ImageError),
}

/// Whether each of the tiles can be encoded as an image file.
pub open spec fn tiles_encode(tiles: Seq<TileView>) -> bool {
    forall|i: int| 0 <= i < tiles.len() ==> png_encoding((#[trigger] tiles[i]).image()) is Some
}

/// The files of the tile directory `dir` that holds `tiles`, as path and
/// content, by rising index.
pub open spec fn tile_files(tiles: Seq<TileView>, dir: Seq<char>) -> Seq<(Seq<char>, Seq<u8>)> {
    Seq::new(
        tiles.len(),
        |i: int|
            (
                spec_join(dir, spec_tile_file_name(i as nat)),
                png_encoding(tiles[i].image())->Some_0,
            ),
    )
}

/// A collection of tiles that can be written as a tile directory.
pub trait SaveTilesToDir {
    /// The tiles of the collection, in order.
    spec fn spec_tiles_to_save(&self) -> Seq<TileView>;

    /// The files of the tile directory `path` that holds the tiles, as path
    /// and content. The files are for the caller to write.
    fn save_tiles_to_dir(&self, path: &str) -> (r: Result<
        Vec<(String, Vec<u8>)>,
        SaveTilesToDirError,
    >)
        ensures
            tiles_encode(self.spec_tiles_to_save()) ==> (r matches Ok(files) && files.deep_view()
                == tile_files(self.spec_tiles_to_save(), path@)),
            !tiles_encode(self.spec_tiles_to_save()) ==> r matches Err(
                SaveTilesToDirError::ImageError(_),
            ),
    ;
}

impl SaveTilesToDir for Vec<Tile> {
    open spec fn spec_tiles_to_save(&self) -> Seq<TileView> {
        self.deep_view()
    }

    fn save_tiles_to_dir(&self, path: &str) -> (r: Result<
        Vec<(String, Vec<u8>)>,
        SaveTilesToDirError,
    >) {
        let mut files: Vec<(String, Vec<u8>)> = Vec::new();
        let mut index: usize = 0;
        let ghost tiles = self.deep_view();
        assert(files.deep_view() =~= tile_files(tiles, path@).take(0));
        while index < self.len()
            invariant
                index <= self.len(),
                tiles == self.deep_view(),
                tiles_encode(tiles.take(index as int)),
                files.deep_view() == tile_files(tiles, path@).take(index as int),
            decreases self.len() - index,
        {
            let file_path = tile_file_path(path, index);
            let tile = &self[index];
            assert(tiles[index as int] == tile@);
            match tile.image().write_image_file(file_path.as_str()) {
                Ok(content) => {
                    let ghost prev = files.deep_view();
                    proof {
                        crate::outcome::lemma_bytes_deep_view(content);
                    }
                    files.push((file_path, content));
                    proof {
                        assert(files.deep_view() =~= prev.push((file_path@, content@)));
                        assert(tile_files(tiles, path@).take(index + 1) =~= prev.push(
                            (file_path@, content@),
                        ));
                        assert forall|i: int| 0 <= i < tiles.take(index + 1).len() implies png_encoding(
                            (#[trigger] tiles.take(index + 1)[i]).image(),
                        ) is Some by {
                            if i < index {
                                assert(tiles.take(index as int)[i] == tiles[i]);
                            }
                        }
                    }
                },
                Err(error) => {
                    return Err(SaveTilesToDirError::ImageError(error.error));
                },
            }
            index += 1;
        }
        proof {
            assert(tiles.take(index as int) =~= tiles);
            assert(tile_files(tiles, path@).take(index as int) =~= tile_files(tiles, path@));
        }
        Ok(files)
    }
}

} // verus!
