//! The tiles of a font in both kinds.

use crate::file::IOError;
use crate::osd::bin_file::ident_view;
use crate::osd::tile::container::lemma_flatten_kinds;
use crate::osd::tile::container::lemma_segment_kinds;
use crate::osd::tile::container::flatten;
use crate::osd::tile::container::load_tiles_from_dir::load_tiles_from_dir;
use crate::osd::tile::container::load_tiles_from_dir::tiles_loaded_from_dir;
use crate::osd::tile::container::load_tiles_from_dir::LoadTilesFromDirError;
use crate::osd::tile::container::load_tiles_from_dir::LoadTilesFromDirErrorView;
use crate::osd::tile::container::save_tiles_to_dir::tile_files;
use crate::osd::tile::container::save_tiles_to_dir::tiles_encode;
use crate::osd::tile::container::save_tiles_to_dir::SaveTilesToDir;
use crate::osd::tile::container::save_tiles_to_dir::SaveTilesToDirError;
use crate::osd::tile::container::save_to_bin_file::bins_saved;
use crate::osd::tile::container::save_to_bin_file::bins_saved_norm;
use crate::osd::tile::container::save_to_bin_file::SaveTilesToBinFileError;
use crate::osd::tile::container::save_to_bin_file::SaveToBinFiles;
use crate::osd::tile::container::save_to_grid::SaveToGridImage;
use crate::osd::tile::container::segment;
use crate::osd::tile::container::symbol::set::hd_dir;
use crate::osd::tile::container::symbol::set::sd_dir;
use crate::osd::tile::container::symbol::set::SymbolSet;
use crate::osd::tile::container::symbol::set::SymbolSetView;
use crate::osd::tile::container::symbol::spec::Specs as SymbolSpecs;
use crate::osd::tile::container::symbol::symbol_kinds;
use crate::osd::tile::container::uniq_tile_kind::checked_kind;
use crate::osd::tile::container::uniq_tile_kind::tile_kinds;
use crate::osd::tile::container::uniq_tile_kind::TileKindError;
use crate::osd::tile::container::uniq_tile_kind::UniqTileKind;
use crate::osd::tile::container::IntoTilesVec;
use crate::osd::tile::container::ToSymbols;
use crate::osd::tile::grid::grid_image_fits;
use crate::osd::tile::grid::grid_loaded;
use crate::osd::tile::grid::grid_saved;
use crate::osd::tile::grid::grid_saved_norm;
use crate::osd::tile::grid::Grid as TileGrid;
use crate::osd::tile::grid::LoadError as GridLoadError;
use crate::osd::tile::grid::LoadErrorView as GridLoadErrorView;
use crate::osd::tile::grid::SaveImageError as SaveGridImageError;
use crate::osd::tile::Kind as TileKind;
use crate::osd::tile::Tile;
use crate::osd::tile::TileView;
use crate::outcome::lemma_bytes_deep_view;
use crate::outcome::result_view;
use vstd::prelude::*;

verus! {

/// Why the tiles of a set could not be had from a directory.
#[derive(Debug)]
pub enum LoadTileSetTilesFromDirError {
    LoadTilesFromDirError(LoadTilesFromDirError),
    TileKindError(TileKindError),
}

/// What a [`LoadTileSetTilesFromDirError`] says.
pub enum LoadTileSetTilesFromDirErrorView {
    LoadTilesFromDirError(LoadTilesFromDirErrorView),
    TileKindError(TileKindError),
}

impl View for LoadTileSetTilesFromDirError {
    type V = LoadTileSetTilesFromDirErrorView;

    open spec fn view(&self) -> LoadTileSetTilesFromDirErrorView {
        match self {
            LoadTileSetTilesFromDirError::LoadTilesFromDirError(error) => {
                LoadTileSetTilesFromDirErrorView::LoadTilesFromDirError(error@)
            },
            LoadTileSetTilesFromDirError::TileKindError(error) => {
                LoadTileSetTilesFromDirErrorView::TileKindError(*error)
            },
        }
    }
}

/// Why the tiles of a set could not be had from two grid image files.
#[derive(Debug)]
pub enum LoadFromTileGridsError {
    GridImageLoadError(GridLoadError),
    TileKindError(TileKindError),
}

/// What a [`LoadFromTileGridsError`] says.
pub enum LoadFromTileGridsErrorView {
    GridImageLoadError(GridLoadErrorView),
    TileKindError(TileKindError),
}

impl View for LoadFromTileGridsError {
    type V = LoadFromTileGridsErrorView;

    open spec fn view(&self) -> LoadFromTileGridsErrorView {
        match self {
            LoadFromTileGridsError::GridImageLoadError(error) => {
                LoadFromTileGridsErrorView::GridImageLoadError(error@)
            },
            LoadFromTileGridsError::TileKindError(error) => {
                LoadFromTileGridsErrorView::TileKindError(*error)
            },
        }
    }
}

/// What a set of tiles is: the SD tiles and the HD tiles.
pub struct TileSetView {
    pub sd_tiles: Seq<TileView>,
    pub hd_tiles: Seq<TileView>,
}

impl TileSetView {
    /// Both collections hold a tile, the first only SD tiles, the second
    /// only HD tiles.
    pub open spec fn wf(self) -> bool {
        &&& checked_kind(tile_kinds(self.sd_tiles), TileKind::SD) is Ok
        &&& checked_kind(tile_kinds(self.hd_tiles), TileKind::HD) is Ok
    }

    /// The set of two collections, the first of which must hold SD tiles and
    /// the second HD tiles. The first collection is looked at first.
    pub open spec fn of_tiles(sd_tiles: Seq<TileView>, hd_tiles: Seq<TileView>) -> Result<
        TileSetView,
        TileKindError,
    > {
        match checked_kind(tile_kinds(sd_tiles), TileKind::SD) {
            Ok(_) => match checked_kind(tile_kinds(hd_tiles), TileKind::HD) {
                Ok(_) => Ok(TileSetView { sd_tiles, hd_tiles }),
                Err(e) => Err(e),
            },
            Err(e) => Err(e),
        }
    }

    /// The set of symbols that the tiles of the set form.
    pub open spec fn symbols(self, specs: Seq<crate::osd::tile::container::symbol::spec::Spec>) -> Result<
        SymbolSetView,
        TileKindError,
    > {
        match segment(self.sd_tiles, specs, 0) {
            Ok(sd_symbols) => match segment(self.hd_tiles, specs, 0) {
                Ok(hd_symbols) => Ok(SymbolSetView { sd_symbols, hd_symbols }),
                Err(e) => Err(e),
            },
            Err(e) => Err(e),
        }
    }
}

/// The set of tiles in the directory `dir`, whose directories of the two
/// kinds hold `sd_files` and `hd_files`. An error is that of the SD
/// directory where it has one.
pub open spec fn tile_set_loaded_from_dir(
    dir: Seq<char>,
    sd_files: Seq<Result<Vec<u8>, IOError>>,
    hd_files: Seq<Result<Vec<u8>, IOError>>,
) -> Result<TileSetView, LoadTileSetTilesFromDirErrorView> {
    match tiles_loaded_from_dir(sd_dir(dir), sd_files) {
        Ok(sd_tiles) => match tiles_loaded_from_dir(hd_dir(dir), hd_files) {
            Ok(hd_tiles) => match TileSetView::of_tiles(sd_tiles, hd_tiles) {
                Ok(set) => Ok(set),
                Err(e) => Err(LoadTileSetTilesFromDirErrorView::TileKindError(e)),
            },
            Err(e) => Err(LoadTileSetTilesFromDirErrorView::LoadTilesFromDirError(e)),
        },
        Err(e) => Err(LoadTileSetTilesFromDirErrorView::LoadTilesFromDirError(e)),
    }
}

/// The set of tiles in two grid image files. Both files are read before the
/// kinds are looked at.
pub open spec fn tile_set_loaded_from_grids(
    sd_path: Seq<char>,
    sd_content: Result<Vec<u8>, IOError>,
    hd_path: Seq<char>,
    hd_content: Result<Vec<u8>, IOError>,
) -> Result<TileSetView, LoadFromTileGridsErrorView> {
    match grid_loaded(sd_path, sd_content) {
        Ok(sd_tiles) => match grid_loaded(hd_path, hd_content) {
            Ok(hd_tiles) => match TileSetView::of_tiles(sd_tiles, hd_tiles) {
                Ok(set) => Ok(set),
                Err(e) => Err(LoadFromTileGridsErrorView::TileKindError(e)),
            },
            Err(e) => Err(LoadFromTileGridsErrorView::GridImageLoadError(e)),
        },
        Err(e) => Err(LoadFromTileGridsErrorView::GridImageLoadError(e)),
    }
}

/// The tiles of a font in both kinds.
#[derive(Debug)]
pub struct TileSet {
    sd_tiles: Vec<Tile>,
    hd_tiles: Vec<Tile>,
}

impl View for TileSet {
    type V = TileSetView;

    closed spec fn view(&self) -> TileSetView {
        TileSetView { sd_tiles: self.sd_tiles.deep_view(), hd_tiles: self.hd_tiles.deep_view() }
    }
}

impl DeepView for TileSet {
    type V = TileSetView;

    open spec fn deep_view(&self) -> TileSetView {
        self@
    }
}

impl TileSet {
    /// What holds of every set: see [`TileSetView::wf`].
    #[verifier::type_invariant]
    pub open spec fn inv(self) -> bool {
        self@.wf()
    }

    /// That the tiles of a collection are of the expected kind.
    pub fn check_collection_kind(tiles: &Vec<Tile>, expected_tile_kind: TileKind) -> (r: Result<
        (),
        TileKindError,
    >)
        ensures
            r == checked_kind(tile_kinds(tiles.deep_view()), expected_tile_kind),
    {
        let tile_kind = match tiles.tile_kind() {
            Ok(tile_kind) => tile_kind,
            Err(e) => {
                return Err(e);
            },
        };
        if tile_kind != expected_tile_kind {
            return Err(
                TileKindError::LoadedDoesNotMatchRequested {
                    requested: expected_tile_kind,
                    loaded: tile_kind,
                },
            );
        }
        Ok(())
    }

    /// The set of two collections, the first of which must hold SD tiles and
    /// the second HD tiles.
    pub fn try_from_tiles(sd_tiles: Vec<Tile>, hd_tiles: Vec<Tile>) -> (r: Result<
        Self,
        TileKindError,
    >)
        ensures
            match TileSetView::of_tiles(sd_tiles.deep_view(), hd_tiles.deep_view()) {
                Ok(set) => r matches Ok(s) && s@ == set,
                Err(e) => r matches Err(err) && err == e,
            },
    {
        match TileSet::check_collection_kind(&sd_tiles, TileKind::SD) {
            Ok(_) => {},
            Err(e) => {
                return Err(e);
            },
        }
        match TileSet::check_collection_kind(&hd_tiles, TileKind::HD) {
            Ok(_) => {},
            Err(e) => {
                return Err(e);
            },
        }
        Ok(TileSet { sd_tiles, hd_tiles })
    }

    pub fn sd_tiles(&self) -> (r: &Vec<Tile>)
        ensures
            r.deep_view() == self@.sd_tiles,
            self@.wf(),
    {
        proof {
            use_type_invariant(self);
        }
        &self.sd_tiles
    }

    pub fn hd_tiles(&self) -> (r: &Vec<Tile>)
        ensures
            r.deep_view() == self@.hd_tiles,
            self@.wf(),
    {
        proof {
            use_type_invariant(self);
        }
        &self.hd_tiles
    }

    /// The tiles of a kind.
    pub fn index(&self, tile_kind: TileKind) -> (r: &Vec<Tile>)
        ensures
            r.deep_view() == (match tile_kind {
                TileKind::SD => self@.sd_tiles,
                TileKind::HD => self@.hd_tiles,
            }),
    {
        match tile_kind {
            TileKind::SD => &self.sd_tiles,
            TileKind::HD => &self.hd_tiles,
        }
    }

    /// The set of tiles in the directory `path`, whose directories of the two
    /// kinds hold `sd_files` and `hd_files`: `sd_files[i]` is what reading
    /// the file of the SD tile at index `i` gave.
    pub fn load_from_dir(
        path: &str,
        sd_files: &Vec<Result<Vec<u8>, IOError>>,
        hd_files: &Vec<Result<Vec<u8>, IOError>>,
    ) -> (r: Result<Self, LoadTileSetTilesFromDirError>)
        ensures
            result_view(r) == tile_set_loaded_from_dir(path@, sd_files@, hd_files@),
    {
        let sd_path = TileKind::SD.set_dir_path(path);
        let sd_tiles = match load_tiles_from_dir(sd_path.as_str(), sd_files) {
            Ok(tiles) => tiles,
            Err(e) => {
                return Err(LoadTileSetTilesFromDirError::LoadTilesFromDirError(e));
            },
        };
        let hd_path = TileKind::HD.set_dir_path(path);
        let hd_tiles = match load_tiles_from_dir(hd_path.as_str(), hd_files) {
            Ok(tiles) => tiles,
            Err(e) => {
                return Err(LoadTileSetTilesFromDirError::LoadTilesFromDirError(e));
            },
        };
        match TileSet::try_from_tiles(sd_tiles, hd_tiles) {
            Ok(set) => Ok(set),
            Err(e) => Err(LoadTileSetTilesFromDirError::TileKindError(e)),
        }
    }

    /// The set of tiles in the grid image files at `sd_grid_path` and
    /// `hd_grid_path`, whose contents are `sd_content` and `hd_content`.
    pub fn load_from_tile_grids(
        sd_grid_path: &str,
        hd_grid_path: &str,
        sd_content: &Result<Vec<u8>, IOError>,
        hd_content: &Result<Vec<u8>, IOError>,
    ) -> (r: Result<Self, LoadFromTileGridsError>)
        ensures
            result_view(r) == tile_set_loaded_from_grids(
                sd_grid_path@,
                *sd_content,
                hd_grid_path@,
                *hd_content,
            ),
    {
        let sd_tiles = match TileGrid::load_from_image(sd_grid_path, sd_content) {
            Ok(grid) => grid.to_vec(),
            Err(e) => {
                return Err(LoadFromTileGridsError::GridImageLoadError(e));
            },
        };
        let hd_tiles = match TileGrid::load_from_image(hd_grid_path, hd_content) {
            Ok(grid) => grid.to_vec(),
            Err(e) => {
                return Err(LoadFromTileGridsError::GridImageLoadError(e));
            },
        };
        match TileSet::try_from_tiles(sd_tiles, hd_tiles) {
            Ok(set) => Ok(set),
            Err(e) => Err(LoadFromTileGridsError::TileKindError(e)),
        }
    }

    /// The set of symbols that the tiles of the set form, as the table says.
    pub fn into_symbol_set(self, specs: &SymbolSpecs) -> (r: Result<SymbolSet, TileKindError>)
        ensures
            match self@.symbols(specs@) {
                Ok(set) => r matches Ok(s) && s@ == set,
                Err(e) => r matches Err(err) && err == e,
            },
    {
        proof {
            use_type_invariant(&self);
        }
        let sd_symbols = match self.sd_tiles.to_symbols(specs) {
            Ok(symbols) => symbols,
            Err(e) => {
                return Err(e);
            },
        };
        let hd_symbols = match self.hd_tiles.to_symbols(specs) {
            Ok(symbols) => symbols,
            Err(e) => {
                return Err(e);
            },
        };
        proof {
            lemma_uniform(self@.sd_tiles, TileKind::SD);
            lemma_uniform(self@.hd_tiles, TileKind::HD);
            lemma_segment_kinds(self@.sd_tiles, specs@, 0, TileKind::SD);
            lemma_segment_kinds(self@.hd_tiles, specs@, 0, TileKind::HD);
            lemma_symbols_uniform(sd_symbols.deep_view(), TileKind::SD);
            lemma_symbols_uniform(hd_symbols.deep_view(), TileKind::HD);
        }
        SymbolSet::try_from_symbols(sd_symbols, hd_symbols)
    }

    /// The set of the tiles of a set of symbols.
    pub fn from(symbol_set: SymbolSet) -> (r: Self)
        ensures
            r@ == (TileSetView {
                sd_tiles: flatten(symbol_set@.sd_symbols),
                hd_tiles: flatten(symbol_set@.hd_symbols),
            }),
    {
        let (sd_symbols, hd_symbols) = symbol_set.into_symbols();
        let sd_tiles = sd_symbols.into_tiles_vec();
        let hd_tiles = hd_symbols.into_tiles_vec();
        proof {
            lemma_symbol_kinds(sd_symbols.deep_view(), TileKind::SD);
            lemma_symbol_kinds(hd_symbols.deep_view(), TileKind::HD);
            lemma_flatten_kinds(sd_symbols.deep_view(), TileKind::SD);
            lemma_flatten_kinds(hd_symbols.deep_view(), TileKind::HD);
            lemma_tiles_uniform(sd_tiles.deep_view(), TileKind::SD);
            lemma_tiles_uniform(hd_tiles.deep_view(), TileKind::HD);
        }
        TileSet { sd_tiles, hd_tiles }
    }

    /// The contents of the four bin files of the set: the two of the SD
    /// tiles, then the two of the HD tiles. Each kind must have 512 tiles
    /// at least, of which the first 512 are written.
    pub fn save_to_bin_files(&self) -> (r: Result<
        ((Vec<u8>, Vec<u8>), (Vec<u8>, Vec<u8>)),
        SaveTilesToBinFileError,
    >)
        requires
            self@.sd_tiles.len() >= 512,
            self@.hd_tiles.len() >= 512,
        ensures
            result_view(r) == (match bins_saved(self@.sd_tiles) {
                Ok(sd) => match bins_saved(self@.hd_tiles) {
                    Ok(hd) => Ok((sd, hd)),
                    Err(e) => Err(e),
                },
                Err(e) => Err(e),
            }),
    {
        let sd = match self.sd_tiles.save_to_bin_files() {
            Ok(sd) => sd,
            Err(e) => {
                return Err(e);
            },
        };
        let hd = match self.hd_tiles.save_to_bin_files() {
            Ok(hd) => hd,
            Err(e) => {
                return Err(e);
            },
        };
        Ok((sd, hd))
    }

    /// The paths in `dir` and the contents of the four bin files of the set
    /// and an identifier: the two of the SD tiles, then the two of the HD tiles.
    pub fn save_to_bin_files_norm(&self, dir: &str, ident: &Option<&str>) -> (r: Result<
        (((String, Vec<u8>), (String, Vec<u8>)), ((String, Vec<u8>), (String, Vec<u8>))),
        SaveTilesToBinFileError,
    >)
        requires
            self@.sd_tiles.len() >= 512,
            self@.hd_tiles.len() >= 512,
        ensures
            result_view(r) == (match bins_saved_norm(self@.sd_tiles, dir@, ident_view(*ident)) {
                Ok(sd) => match bins_saved_norm(self@.hd_tiles, dir@, ident_view(*ident)) {
                    Ok(hd) => Ok((sd, hd)),
                    Err(e) => Err(e),
                },
                Err(e) => Err(e),
            }),
    {
        let sd = match self.sd_tiles.save_to_bin_files_norm(dir, ident) {
            Ok(sd) => sd,
            Err(e) => {
                return Err(e);
            },
        };
        let hd = match self.hd_tiles.save_to_bin_files_norm(dir, ident) {
            Ok(hd) => hd,
            Err(e) => {
                return Err(e);
            },
        };
        Ok((sd, hd))
    }

    /// The contents of the two grid image files of the set, that of the SD
    /// tiles first. They are meant to go to `sd_path` and `hd_path`.
    pub fn save_to_grids(&self, sd_path: &str, hd_path: &str) -> (r: Result<
        (Vec<u8>, Vec<u8>),
        SaveGridImageError,
    >)
        requires
            grid_image_fits(self@.sd_tiles.len()),
            grid_image_fits(self@.hd_tiles.len()),
        ensures
            result_view(r) == (match grid_saved(self@.sd_tiles, sd_path@) {
                Ok(sd) => match grid_saved(self@.hd_tiles, hd_path@) {
                    Ok(hd) => Ok((sd, hd)),
                    Err(e) => Err(e),
                },
                Err(e) => Err(e),
            }),
    {
        let sd = match self.sd_tiles.save_to_grid_image(sd_path) {
            Ok(sd) => sd,
            Err(e) => {
                return Err(e);
            },
        };
        let hd = match self.hd_tiles.save_to_grid_image(hd_path) {
            Ok(hd) => hd,
            Err(e) => {
                return Err(e);
            },
        };
        proof {
            lemma_bytes_deep_view(sd);
            lemma_bytes_deep_view(hd);
        }
        Ok((sd, hd))
    }

    /// The paths in `dir` and the contents of the two grid image files of
    /// the set and an identifier, those of the SD tiles first.
    pub fn save_to_grids_norm(&self, dir: &str, ident: &Option<&str>) -> (r: Result<
        ((String, Vec<u8>), (String, Vec<u8>)),
        SaveGridImageError,
    >)
        requires
            grid_image_fits(self@.sd_tiles.len()),
            grid_image_fits(self@.hd_tiles.len()),
        ensures
            result_view(r) == (match grid_saved_norm(self@.sd_tiles, dir@, ident_view(*ident)) {
                Ok(sd) => match grid_saved_norm(self@.hd_tiles, dir@, ident_view(*ident)) {
                    Ok(hd) => Ok((sd, hd)),
                    Err(e) => Err(e),
                },
                Err(e) => Err(e),
            }),
    {
        let sd = match self.sd_tiles.save_to_grid_image_norm(dir, ident) {
            Ok(sd) => sd,
            Err(e) => {
                return Err(e);
            },
        };
        let hd = match self.hd_tiles.save_to_grid_image_norm(dir, ident) {
            Ok(hd) => hd,
            Err(e) => {
                return Err(e);
            },
        };
        Ok((sd, hd))
    }
}

/// A collection that holds a tile and only tiles of one kind is of that kind.
pub proof fn lemma_tiles_uniform(tiles: Seq<TileView>, kind: TileKind)
    requires
        tiles.len() > 0,
        forall|i: int| 0 <= i < tiles.len() ==> (#[trigger] tiles[i]).kind == kind,
    ensures
        checked_kind(tile_kinds(tiles), kind) is Ok,
{
    assert(tile_kinds(tiles).first() == tiles[0].kind);
}

/// A collection of a kind holds a tile and only tiles of that kind.
pub proof fn lemma_uniform(tiles: Seq<TileView>, kind: TileKind)
    requires
        checked_kind(tile_kinds(tiles), kind) is Ok,
    ensures
        tiles.len() > 0,
        forall|i: int| 0 <= i < tiles.len() ==> (#[trigger] tiles[i]).kind == kind,
{
    assert forall|i: int| 0 <= i < tiles.len() implies (#[trigger] tiles[i]).kind == kind by {
        assert(tile_kinds(tiles)[i] == tile_kinds(tiles).first());
    }
}

/// A collection that holds a symbol and only symbols of one kind is of that kind.
pub proof fn lemma_symbols_uniform(
    symbols: Seq<crate::osd::tile::container::symbol::SymbolView>,
    kind: TileKind,
)
    requires
        symbols.len() > 0,
        forall|i: int| 0 <= i < symbols.len() ==> (#[trigger] symbols[i]).kind == kind,
    ensures
        checked_kind(symbol_kinds(symbols), kind) is Ok,
{
    assert(symbol_kinds(symbols).first() == symbols[0].kind);
}

/// A collection of symbols of a kind holds a symbol and only symbols of that kind.
pub proof fn lemma_symbol_kinds(
    symbols: Seq<crate::osd::tile::container::symbol::SymbolView>,
    kind: TileKind,
)
    requires
        checked_kind(symbol_kinds(symbols), kind) is Ok,
    ensures
        symbols.len() > 0,
        forall|i: int| 0 <= i < symbols.len() ==> (#[trigger] symbols[i]).kind == kind,
{
    assert forall|i: int| 0 <= i < symbols.len() implies (#[trigger] symbols[i]).kind == kind by {
        assert(symbol_kinds(symbols)[i] == symbol_kinds(symbols).first());
    }
}

impl TileSet {
    /// The files of the directory `path` that holds the set, as path and
    /// content: those of the tile directory of the SD tiles, then those of
    /// that of the HD tiles. The files are for the caller to write.
    pub fn save_tiles_to_dir(&self, path: &str) -> (r: Result<
        Vec<(String, Vec<u8>)>,
        SaveTilesToDirError,
    >)
        ensures
            tiles_encode(self@.sd_tiles) && tiles_encode(self@.hd_tiles) ==> (r matches Ok(files)
                && files.deep_view() == tile_files(self@.sd_tiles, sd_dir(path@)) + tile_files(
                self@.hd_tiles,
                hd_dir(path@),
            )),
            !(tiles_encode(self@.sd_tiles) && tiles_encode(self@.hd_tiles)) ==> r is Err,
    {
        let sd_path = TileKind::SD.set_dir_path(path);
        let mut files = match self.sd_tiles.save_tiles_to_dir(sd_path.as_str()) {
            Ok(files) => files,
            Err(e) => {
                return Err(e);
            },
        };
        let hd_path = TileKind::HD.set_dir_path(path);
        let mut hd_files = match self.hd_tiles.save_tiles_to_dir(hd_path.as_str()) {
            Ok(files) => files,
            Err(e) => {
                return Err(e);
            },
        };
        let ghost sd_view = files.deep_view();
        let ghost hd_view = hd_files.deep_view();
        let ghost sd_shallow = files@;
        let ghost hd_shallow = hd_files@;
        files.append(&mut hd_files);
        proof {
            assert(files@ =~= sd_shallow + hd_shallow);
            assert forall|i: int| 0 <= i < files@.len() implies files.deep_view()[i] == (sd_view
                + hd_view)[i] by {
                if i < sd_shallow.len() {
                    assert(files@[i] == sd_shallow[i]);
                } else {
                    assert(files@[i] == hd_shallow[i - sd_shallow.len()]);
                }
            }
            assert(files.deep_view() =~= sd_view + hd_view);
        }
        Ok(files)
    }
}

} // verus!
