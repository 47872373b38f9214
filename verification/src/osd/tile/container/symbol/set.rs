//! The symbols of a font in both kinds of tile.

use crate::osd::tile::container::load_symbols_from_dir::load_symbols_from_dir;
use crate::osd::tile::container::load_symbols_from_dir::symbols_loaded_from_dir;
use crate::osd::tile::container::load_symbols_from_dir::DirFile;
use crate::osd::tile::container::load_symbols_from_dir::LoadSymbolsFromDirError;
use crate::osd::tile::container::load_symbols_from_dir::LoadSymbolsFromDirErrorView;
use crate::osd::tile::container::save_symbols_to_dir::symbol_files;
use crate::osd::tile::container::save_symbols_to_dir::symbols_encode;
use crate::osd::tile::container::save_symbols_to_dir::symbols_fit;
use crate::osd::tile::container::save_symbols_to_dir::SaveSymbolsToDir;
use crate::osd::tile::container::save_symbols_to_dir::SaveSymbolsToDirError;
use crate::osd::tile::container::symbol::symbol_kinds;
use crate::osd::tile::container::symbol::Symbol;
use crate::osd::tile::container::symbol::SymbolView;
use crate::osd::tile::container::uniq_tile_kind::checked_kind;
use crate::osd::tile::container::uniq_tile_kind::TileKindError;
use crate::osd::tile::container::uniq_tile_kind::UniqTileKind;
use crate::osd::tile::Kind as TileKind;
use crate::outcome::result_view;
use crate::path::spec_join;
use vstd::prelude::*;

verus! {

/// Why the symbols of a set could not be had from a directory.
#[derive(Debug)]
pub enum LoadFromDirError {
    LoadSymbolsFromDirError(LoadSymbolsFromDirError),
    TileKindError(TileKindError),
}

/// What a [`LoadFromDirError`] says.
pub enum LoadFromDirErrorView {
    LoadSymbolsFromDirError(LoadSymbolsFromDirErrorView),
    TileKindError(TileKindError),
}

impl View for LoadFromDirError {
    type V = LoadFromDirErrorView;

    open spec fn view(&self) -> LoadFromDirErrorView {
        match self {
            LoadFromDirError::LoadSymbolsFromDirError(error) => {
                LoadFromDirErrorView::LoadSymbolsFromDirError(error@)
            },
            LoadFromDirError::TileKindError(error) => LoadFromDirErrorView::TileKindError(*error),
        }
    }
}

/// What a set of symbols is: the symbols of SD tiles and those of HD tiles.
pub struct SymbolSetView {
    pub sd_symbols: Seq<SymbolView>,
    pub hd_symbols: Seq<SymbolView>,
}

impl SymbolSetView {
    /// Both collections hold a symbol, the first only symbols of SD tiles,
    /// the second only symbols of HD tiles.
    pub open spec fn wf(self) -> bool {
        &&& checked_kind(symbol_kinds(self.sd_symbols), TileKind::SD) is Ok
        &&& checked_kind(symbol_kinds(self.hd_symbols), TileKind::HD) is Ok
    }

    /// The set of two collections, the first of which must hold symbols of SD
    /// tiles and the second symbols of HD tiles.
    pub open spec fn of_symbols(sd_symbols: Seq<SymbolView>, hd_symbols: Seq<SymbolView>) -> Result<
        SymbolSetView,
        TileKindError,
    > {
        match checked_kind(symbol_kinds(sd_symbols), TileKind::SD) {
            Ok(_) => match checked_kind(symbol_kinds(hd_symbols), TileKind::HD) {
                Ok(_) => Ok(SymbolSetView { sd_symbols, hd_symbols }),
                Err(e) => Err(e),
            },
            Err(e) => Err(e),
        }
    }
}

/// The symbols of a font in both kinds of tile.
#[derive(Debug)]
pub struct SymbolSet {
    sd_symbols: Vec<Symbol>,
    hd_symbols: Vec<Symbol>,
}

impl View for SymbolSet {
    type V = SymbolSetView;

    closed spec fn view(&self) -> SymbolSetView {
        SymbolSetView {
            sd_symbols: self.sd_symbols.deep_view(),
            hd_symbols: self.hd_symbols.deep_view(),
        }
    }
}

impl DeepView for SymbolSet {
    type V = SymbolSetView;

    open spec fn deep_view(&self) -> SymbolSetView {
        self@
    }
}

/// The paths of the directories of the two kinds in the directory of a set.
pub open spec fn sd_dir(dir: Seq<char>) -> Seq<char> {
    spec_join(dir, TileKind::SD.spec_set_dir_name())
}

/// The path of the directory of the HD tiles in the directory of a set.
pub open spec fn hd_dir(dir: Seq<char>) -> Seq<char> {
    spec_join(dir, TileKind::HD.spec_set_dir_name())
}

/// The set of symbols in the directory `dir`, whose directories of the two
/// kinds hold `sd_files` and `hd_files`. An error is that of the SD
/// directory where it has one.
pub open spec fn symbol_set_loaded(
    dir: Seq<char>,
    sd_files: Seq<DirFile>,
    hd_files: Seq<DirFile>,
    max_symbols: int,
) -> Result<SymbolSetView, LoadFromDirErrorView> {
    match symbols_loaded_from_dir(sd_dir(dir), sd_files, max_symbols) {
        Ok(sd_symbols) => match symbols_loaded_from_dir(hd_dir(dir), hd_files, max_symbols) {
            Ok(hd_symbols) => match SymbolSetView::of_symbols(sd_symbols, hd_symbols) {
                Ok(set) => Ok(set),
                Err(e) => Err(LoadFromDirErrorView::TileKindError(e)),
            },
            Err(e) => Err(LoadFromDirErrorView::LoadSymbolsFromDirError(e)),
        },
        Err(e) => Err(LoadFromDirErrorView::LoadSymbolsFromDirError(e)),
    }
}

impl SymbolSet {
    /// What holds of every set: see [`SymbolSetView::wf`].
    #[verifier::type_invariant]
    pub open spec fn inv(self) -> bool {
        self@.wf()
    }

    /// That the symbols of a collection are of the expected kind.
    pub fn check_collection_kind(tiles: &Vec<Symbol>, expected_tile_kind: TileKind) -> (r: Result<
        (),
        TileKindError,
    >)
        ensures
            r == checked_kind(symbol_kinds(tiles.deep_view()), expected_tile_kind),
    {
        let tile_kind = match tiles.tile_kind() {
            Ok(tile_kind) => tile_kind,
            Err(e) => {
                return Err(e);
            },
        };
        if tile_kind != expected_tile_kind {
            return Err(
                TileKindError::LoadedDoesNotMatchRequested {
                    requested: expected_tile_kind,
                    loaded: tile_kind,
                },
            );
        }
        Ok(())
    }

    /// The set of two collections, the first of which must hold symbols of SD
    /// tiles and the second symbols of HD tiles.
    pub fn try_from_symbols(sd_symbols: Vec<Symbol>, hd_symbols: Vec<Symbol>) -> (r: Result<
        Self,
        TileKindError,
    >)
        ensures
            match SymbolSetView::of_symbols(sd_symbols.deep_view(), hd_symbols.deep_view()) {
                Ok(set) => r matches Ok(s) && s@ == set,
                Err(e) => r matches Err(err) && err == e,
            },
    {
        match SymbolSet::check_collection_kind(&sd_symbols, TileKind::SD) {
            Ok(_) => {},
            Err(e) => {
                return Err(e);
            },
        }
        match SymbolSet::check_collection_kind(&hd_symbols, TileKind::HD) {
            Ok(_) => {},
            Err(e) => {
                return Err(e);
            },
        }
        Ok(SymbolSet { sd_symbols, hd_symbols })
    }

    pub fn sd_symbols(&self) -> (r: &Vec<Symbol>)
        ensures
            r.deep_view() == self@.sd_symbols,
            self@.wf(),
    {
        proof {
            use_type_invariant(self);
        }
        &self.sd_symbols
    }

    pub fn hd_symbols(&self) -> (r: &Vec<Symbol>)
        ensures
            r.deep_view() == self@.hd_symbols,
            self@.wf(),
    {
        proof {
            use_type_invariant(self);
        }
        &self.hd_symbols
    }

    /// The symbols of a kind.
    pub fn index(&self, tile_kind: TileKind) -> (r: &Vec<Symbol>)
        ensures
            r.deep_view() == (match tile_kind {
                TileKind::SD => self@.sd_symbols,
                TileKind::HD => self@.hd_symbols,
            }),
    {
        match tile_kind {
            TileKind::SD => &self.sd_symbols,
            TileKind::HD => &self.hd_symbols,
        }
    }

    /// The two collections, that of the SD tiles first.
    pub fn into_symbols(self) -> (r: (Vec<Symbol>, Vec<Symbol>))
        ensures
            r.0.deep_view() == self@.sd_symbols,
            r.1.deep_view() == self@.hd_symbols,
            self@.wf(),
    {
        proof {
            use_type_invariant(&self);
        }
        (self.sd_symbols, self.hd_symbols)
    }

    /// The files of the directory `dir` that holds the set, as path and
    /// content: those of the symbol directory of the SD tiles, then those of
    /// that of the HD tiles. The files are for the caller to write.
    pub fn save_to_dir(&self, dir: &str) -> (r: Result<
        Vec<(String, Vec<u8>)>,
        SaveSymbolsToDirError,
    >)
        requires
            symbols_fit(self@.sd_symbols),
            symbols_fit(self@.hd_symbols),
        ensures
            symbols_encode(self@.sd_symbols) && symbols_encode(self@.hd_symbols) ==> (
            r matches Ok(files) && files.deep_view() == symbol_files(
                self@.sd_symbols,
                sd_dir(dir@),
            ) + symbol_files(self@.hd_symbols, hd_dir(dir@))),
            !(symbols_encode(self@.sd_symbols) && symbols_encode(self@.hd_symbols)) ==> r is Err,
    {
        let sd_path = TileKind::SD.set_dir_path(dir);
        let mut files = match self.sd_symbols.save_to_dir(sd_path.as_str()) {
            Ok(files) => files,
            Err(e) => {
                return Err(e);
            },
        };
        let hd_path = TileKind::HD.set_dir_path(dir);
        let mut hd_files = match self.hd_symbols.save_to_dir(hd_path.as_str()) {
            Ok(files) => files,
            Err(e) => {
                return Err(e);
            },
        };
        let ghost sd_view = files.deep_view();
        let ghost hd_view = hd_files.deep_view();
        let ghost sd_shallow = files@;
        let ghost hd_shallow = hd_files@;
        files.append(&mut hd_files);
        proof {
            assert(files@ =~= sd_shallow + hd_shallow);
            assert forall|i: int| 0 <= i < files@.len() implies files.deep_view()[i] == (sd_view
                + hd_view)[i] by {
                if i < sd_shallow.len() {
                    assert(files@[i] == sd_shallow[i]);
                } else {
                    assert(files@[i] == hd_shallow[i - sd_shallow.len()]);
                }
            }
            assert(files.deep_view() =~= sd_view + hd_view);
        }
        Ok(files)
    }

    /// The set of symbols in the directory `dir_path`, whose directories of
    /// the two kinds hold `sd_files` and `hd_files`. Each directory is walked
    /// for `max_symbols` steps.
    pub fn load_from_dir(
        dir_path: &str,
        sd_files: &Vec<DirFile>,
        hd_files: &Vec<DirFile>,
        max_symbols: usize,
    ) -> (r: Result<Self, LoadFromDirError>)
        ensures
            result_view(r) == symbol_set_loaded(
                dir_path@,
                sd_files@,
                hd_files@,
                max_symbols as int,
            ),
    {
        let sd_path = TileKind::SD.set_dir_path(dir_path);
        let sd_symbols = match load_symbols_from_dir(sd_path.as_str(), sd_files, max_symbols) {
            Ok(symbols) => symbols,
            Err(e) => {
                return Err(LoadFromDirError::LoadSymbolsFromDirError(e));
            },
        };
        let hd_path = TileKind::HD.set_dir_path(dir_path);
        let hd_symbols = match load_symbols_from_dir(hd_path.as_str(), hd_files, max_symbols) {
            Ok(symbols) => symbols,
            Err(e) => {
                return Err(LoadFromDirError::LoadSymbolsFromDirError(e));
            },
        };
        match SymbolSet::try_from_symbols(sd_symbols, hd_symbols) {
            Ok(set) => Ok(set),
            Err(e) => Err(LoadFromDirError::TileKindError(e)),
        }
    }
}

} // verus!
