//! Writing a collection of tiles as a bin file, or as the two bin files of
//! a font of 512 tiles.

use crate::create_path::CreatePathError;
use crate::file::FileError;
use crate::file::IOError;
use crate::osd::bin_file::blank_bytes;
use crate::osd::bin_file::ident_view;
use crate::osd::bin_file::lemma_tiles_bytes_step;
use crate::osd::bin_file::normalized_file_path;
use crate::osd::bin_file::spec_normalized_file_path;
use crate::osd::bin_file::tiles_bytes;
use crate::osd::bin_file::BinFileWriter;
use crate::osd::bin_file::FillRemainingSpaceError;
use crate::osd::bin_file::FontPart;
use crate::osd::bin_file::TileWriteError;
use crate::osd::tile::container::uniq_tile_kind::tile_kinds;
use crate::osd::tile::container::uniq_tile_kind::uniq_kind;
use crate::osd::tile::container::uniq_tile_kind::TileKindError;
use crate::osd::tile::grid::Grid as TileGrid;
use crate::osd::tile::Kind as TileKind;
use crate::osd::tile::Tile;
use crate::osd::tile::TileView;
use crate::outcome::lemma_bytes_deep_view;
use crate::outcome::result_view;
use vstd::prelude::*;

verus! {

/// Why a collection could not be written as a bin file.
#[derive(Debug)]
pub enum SaveTilesToBinFileError {
    /// The directory could not be created. The library creates no directory
    /// and never returns this; it is for those who do.
    CreatePathError(CreatePathError),
    /// The file could not be created. The library creates no file and never
    /// returns this; it is for those who do.
    CreateError(FileError),
    TileKindError(TileKindError),
    TileWriteError(TileWriteError),
    FillRemainingSpaceError(FillRemainingSpaceError),
}

/// What a [`SaveTilesToBinFileError`] says.
pub enum SaveTilesToBinFileErrorView {
    CreatePathError { path: Seq<char>, error: IOError },
    CreateError { path: Seq<char>, error: IOError },
    TileKindError(TileKindError),
    /// A tile was written to a file that held 256 tiles already.
    MaximumTilesReached,
    /// Any other failure to write a tile or to fill the file up.
    WriteError,
}

impl View for SaveTilesToBinFileError {
    type V = SaveTilesToBinFileErrorView;

    open spec fn view(&self) -> SaveTilesToBinFileErrorView {
        match self {
            SaveTilesToBinFileError::CreatePathError(error) => {
                SaveTilesToBinFileErrorView::CreatePathError {
                    path: error.path@,
                    error: error.error,
                }
            },
            SaveTilesToBinFileError::CreateError(error) => {
                SaveTilesToBinFileErrorView::CreateError { path: error.path@, error: error.error }
            },
            SaveTilesToBinFileError::TileKindError(error) => {
                SaveTilesToBinFileErrorView::TileKindError(*error)
            },
            SaveTilesToBinFileError::TileWriteError(TileWriteError::MaximumTilesReached) => {
                SaveTilesToBinFileErrorView::MaximumTilesReached
            },
            _ => SaveTilesToBinFileErrorView::WriteError,
        }
    }
}

/// The content of the bin file that holds `tiles`: their bytes, and those of
/// fully transparent tiles of their kind up to 256 tiles. The tiles must be
/// of one kind and at most 256.
pub open spec fn bin_saved(tiles: Seq<TileView>) -> Result<Seq<u8>, SaveTilesToBinFileErrorView> {
    match uniq_kind(tile_kinds(tiles)) {
        Ok(kind) => if tiles.len() > 256 {
            Err(SaveTilesToBinFileErrorView::MaximumTilesReached)
        } else {
            Ok(tiles_bytes(tiles) + blank_bytes(kind, 256 - tiles.len()))
        },
        Err(e) => Err(SaveTilesToBinFileErrorView::TileKindError(e)),
    }
}

/// The path in `dir` and the content of the bin file that holds `tiles`, of
/// an identifier and a part.
pub open spec fn bin_saved_norm(
    tiles: Seq<TileView>,
    dir: Seq<char>,
    ident: Option<Seq<char>>,
    part: FontPart,
) -> Result<(Seq<char>, Seq<u8>), SaveTilesToBinFileErrorView> {
    match bin_saved(tiles) {
        Ok(bytes) => Ok(
            (spec_normalized_file_path(dir, uniq_kind(tile_kinds(tiles))->Ok_0, ident, part), bytes),
        ),
        Err(e) => Err(e),
    }
}

/// The contents of the two bin files that hold the first 512 of `tiles`.
pub open spec fn bins_saved(tiles: Seq<TileView>) -> Result<
    (Seq<u8>, Seq<u8>),
    SaveTilesToBinFileErrorView,
> {
    match bin_saved(tiles.subrange(0, 256)) {
        Ok(base) => match bin_saved(tiles.subrange(256, 512)) {
            Ok(ext) => Ok((base, ext)),
            Err(e) => Err(e),
        },
        Err(e) => Err(e),
    }
}

/// The paths in `dir` and the contents of the two bin files that hold the
/// first 512 of `tiles`, of an identifier.
pub open spec fn bins_saved_norm(
    tiles: Seq<TileView>,
    dir: Seq<char>,
    ident: Option<Seq<char>>,
) -> Result<((Seq<char>, Seq<u8>), (Seq<char>, Seq<u8>)), SaveTilesToBinFileErrorView> {
    match bin_saved_norm(tiles.subrange(0, 256), dir, ident, FontPart::Base) {
        Ok(base) => match bin_saved_norm(tiles.subrange(256, 512), dir, ident, FontPart::Ext) {
            Ok(ext) => Ok((base, ext)),
            Err(e) => Err(e),
        },
        Err(e) => Err(e),
    }
}

/// The kind that the tiles from `from` up to, but not including, `to` share.
pub fn range_tile_kind(tiles: &Vec<Tile>, from: usize, to: usize) -> (r: Result<
    TileKind,
    TileKindError,
>)
    requires
        from <= to <= tiles.len(),
    ensures
        r == uniq_kind(tile_kinds(tiles.deep_view().subrange(from as int, to as int))),
{
    let ghost kinds = tile_kinds(tiles.deep_view().subrange(from as int, to as int));
    if from == to {
        return Err(TileKindError::EmptyContainer);
    }
    let first = tiles[from].kind();
    assert(kinds[0] == first);
    let mut i: usize = from + 1;
    while i < to
        invariant
            from < i <= to <= tiles.len(),
            kinds == tile_kinds(tiles.deep_view().subrange(from as int, to as int)),
            first == kinds[0],
            forall|j: int| 0 <= j < i - from ==> kinds[j] == first,
        decreases to - i,
    {
        if tiles[i].kind() != first {
            assert(kinds[i - from] != kinds[0]);
            return Err(TileKindError::MultipleTileKinds);
        }
        i += 1;
    }
    Ok(first)
}

/// The content of the bin file that holds the tiles from `from` up to, but
/// not including, `to`.
pub fn save_range_to_bin_file(tiles: &Vec<Tile>, from: usize, to: usize) -> (r: Result<
    Vec<u8>,
    SaveTilesToBinFileError,
>)
    requires
        from <= to <= tiles.len(),
    ensures
        result_view(r) == bin_saved(tiles.deep_view().subrange(from as int, to as int)),
{
    let ghost range = tiles.deep_view().subrange(from as int, to as int);
    let tile_kind = match range_tile_kind(tiles, from, to) {
        Ok(tile_kind) => tile_kind,
        Err(e) => {
            return Err(SaveTilesToBinFileError::TileKindError(e));
        },
    };
    let mut writer = BinFileWriter::create();
    let mut i: usize = from;
    proof {
        assert(range.take(0) =~= Seq::<TileView>::empty());
        assert forall|k: int| 0 <= k < range.len() implies (#[trigger] range[k]).kind
            == tile_kind by {
            assert(tile_kinds(range)[k] == tile_kind);
        }
    }
    while i < to
        invariant
            from <= i <= to <= tiles.len(),
            range == tiles.deep_view().subrange(from as int, to as int),
            forall|k: int| 0 <= k < range.len() ==> (#[trigger] range[k]).kind == tile_kind,
            i - from <= 256,
            writer@.wf(),
            writer@.tile_count == i - from,
            writer@.tile_kind == (if i == from {
                None
            } else {
                Some(tile_kind)
            }),
            writer@.data == tiles_bytes(range.take(i - from)),
        decreases to - i,
    {
        let tile = &tiles[i];
        proof {
            assert(range[i - from] == tile@);
            lemma_tiles_bytes_step(range, i - from);
        }
        match writer.write_tile(tile) {
            Ok(_) => {},
            Err(error) => {
                return Err(SaveTilesToBinFileError::TileWriteError(error));
            },
        }
        i += 1;
    }
    assert(range.take(to - from) =~= range);
    match writer.fill_remaining_space() {
        Ok(_) => {},
        Err(error) => {
            return Err(SaveTilesToBinFileError::FillRemainingSpaceError(error));
        },
    }
    match writer.finish() {
        Ok(data) => {
            proof {
                lemma_bytes_deep_view(data);
                assert(blank_bytes(tile_kind, 0) =~= Seq::<u8>::empty());
                assert(tiles_bytes(range) + Seq::<u8>::empty() =~= tiles_bytes(range));
            }
            Ok(data)
        },
        Err(error) => Err(SaveTilesToBinFileError::TileWriteError(error)),
    }
}

/// The path in `dir` and the content of the bin file that holds the tiles
/// from `from` up to, but not including, `to`, of an identifier and a part.
pub fn save_range_to_bin_file_norm(
    tiles: &Vec<Tile>,
    from: usize,
    to: usize,
    dir: &str,
    ident: &Option<&str>,
    part: FontPart,
) -> (r: Result<(String, Vec<u8>), SaveTilesToBinFileError>)
    requires
        from <= to <= tiles.len(),
    ensures
        result_view(r) == bin_saved_norm(
            tiles.deep_view().subrange(from as int, to as int),
            dir@,
            ident_view(*ident),
            part,
        ),
{
    let tile_kind = match range_tile_kind(tiles, from, to) {
        Ok(tile_kind) => tile_kind,
        Err(e) => {
            return Err(SaveTilesToBinFileError::TileKindError(e));
        },
    };
    let content = match save_range_to_bin_file(tiles, from, to) {
        Ok(content) => content,
        Err(e) => {
            return Err(e);
        },
    };
    proof {
        lemma_bytes_deep_view(content);
    }
    Ok((normalized_file_path(dir, tile_kind, ident, part), content))
}

/// A collection of tiles that can be written as a bin file.
pub trait SaveToBinFile {
    /// The tiles of the collection, in order.
    spec fn spec_tiles_of_bin(&self) -> Seq<TileView>;

    /// The content of the bin file that holds the tiles: see [`bin_saved`].
    fn save_to_bin_file(&self) -> (r: Result<Vec<u8>, SaveTilesToBinFileError>)
        ensures
            result_view(r) == bin_saved(self.spec_tiles_of_bin()),
    ;

    /// The path in `dir` and the content of the bin file that holds the
    /// tiles, of an identifier and a part.
    fn save_to_bin_file_norm(&self, dir: &str, ident: &Option<&str>, part: FontPart) -> (r: Result<
        (String, Vec<u8>),
        SaveTilesToBinFileError,
    >)
        ensures
            result_view(r) == bin_saved_norm(
                self.spec_tiles_of_bin(),
                dir@,
                ident_view(*ident),
                part,
            ),
    ;
}

impl SaveToBinFile for Vec<Tile> {
    open spec fn spec_tiles_of_bin(&self) -> Seq<TileView> {
        self.deep_view()
    }

    fn save_to_bin_file(&self) -> (r: Result<Vec<u8>, SaveTilesToBinFileError>) {
        assert(self.deep_view().subrange(0, self.len() as int) =~= self.deep_view());
        save_range_to_bin_file(self, 0, self.len())
    }

    fn save_to_bin_file_norm(&self, dir: &str, ident: &Option<&str>, part: FontPart) -> (r: Result<
        (String, Vec<u8>),
        SaveTilesToBinFileError,
    >) {
        assert(self.deep_view().subrange(0, self.len() as int) =~= self.deep_view());
        save_range_to_bin_file_norm(self, 0, self.len(), dir, ident, part)
    }
}

/// A grid of tiles that can be written as a bin file.
pub trait SaveTilesToBinFile {
    /// The tiles of the grid, row by row.
    spec fn spec_grid_tiles_of_bin(&self) -> Seq<TileView>;

    /// The content of the bin file that holds the tiles: see [`bin_saved`].
    fn save_tiles_to_bin_file(&self) -> (r: Result<Vec<u8>, SaveTilesToBinFileError>)
        ensures
            result_view(r) == bin_saved(self.spec_grid_tiles_of_bin()),
    ;
}

impl SaveTilesToBinFile for TileGrid {
    open spec fn spec_grid_tiles_of_bin(&self) -> Seq<TileView> {
        self@
    }

    fn save_tiles_to_bin_file(&self) -> (r: Result<Vec<u8>, SaveTilesToBinFileError>) {
        self.0.save_to_bin_file()
    }
}

/// A collection of at least 512 tiles that can be written as the two bin
/// files of a font.
pub trait SaveToBinFiles {
    /// The tiles of the collection, in order.
    spec fn spec_tiles_of_bins(&self) -> Seq<TileView>;

    /// The contents of the two bin files: that of the first 256 tiles, then
    /// that of the 256 tiles that follow.
    fn save_to_bin_files(&self) -> (r: Result<(Vec<u8>, Vec<u8>), SaveTilesToBinFileError>)
        requires
            self.spec_tiles_of_bins().len() >= 512,
        ensures
            result_view(r) == bins_saved(self.spec_tiles_of_bins()),
    ;

    /// The paths in `dir` and the contents of the two bin files of an identifier.
    fn save_to_bin_files_norm(&self, dir: &str, ident: &Option<&str>) -> (r: Result<
        ((String, Vec<u8>), (String, Vec<u8>)),
        SaveTilesToBinFileError,
    >)
        requires
            self.spec_tiles_of_bins().len() >= 512,
        ensures
            result_view(r) == bins_saved_norm(self.spec_tiles_of_bins(), dir@, ident_view(*ident)),
    ;
}

impl SaveToBinFiles for Vec<Tile> {
    open spec fn spec_tiles_of_bins(&self) -> Seq<TileView> {
        self.deep_view()
    }

    fn save_to_bin_files(&self) -> (r: Result<(Vec<u8>, Vec<u8>), SaveTilesToBinFileError>) {
        let base = match save_range_to_bin_file(self, 0, 256) {
            Ok(base) => base,
            Err(e) => {
                return Err(e);
            },
        };
        let ext = match save_range_to_bin_file(self, 256, 512) {
            Ok(ext) => ext,
            Err(e) => {
                return Err(e);
            },
        };
        proof {
            lemma_bytes_deep_view(base);
            lemma_bytes_deep_view(ext);
        }
        Ok((base, ext))
    }

    fn save_to_bin_files_norm(&self, dir: &str, ident: &Option<&str>) -> (r: Result<
        ((String, Vec<u8>), (String, Vec<u8>)),
        SaveTilesToBinFileError,
    >) {
        let base = match save_range_to_bin_file_norm(self, 0, 256, dir, ident, FontPart::Base) {
            Ok(base) => base,
            Err(e) => {
                return Err(e);
            },
        };
        let ext = match save_range_to_bin_file_norm(self, 256, 512, dir, ident, FontPart::Ext) {
            Ok(ext) => ext,
            Err(e) => {
                return Err(e);
            },
        };
        proof {
            lemma_bytes_deep_view(base.1);
            lemma_bytes_deep_view(ext.1);
        }
        Ok((base, ext))
    }
}

} // verus!
