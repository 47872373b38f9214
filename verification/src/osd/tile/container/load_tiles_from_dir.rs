//! The tile directory: one image file for each tile, named by the tile's
//! index. A file that is missing stands for a fully transparent tile, as long
//! as a later one is there.

use crate::decimal::padded3;
use crate::decimal::padded3_string;
use crate::file::IOError;
use crate::file::IOErrorKind;
use crate::osd::tile::Kind as TileKind;
use crate::osd::tile::LoadError as TileLoadError;
use crate::osd::tile::LoadErrorView as TileLoadErrorView;
use crate::osd::tile::Tile;
use crate::osd::tile::TileView;
use crate::outcome::result_view;
use crate::path::spec_join;
use vstd::prelude::*;
use vstd::string::StringExecFns;

verus! {

/// Why the tiles of a directory could not be had.
#[derive(Debug)]
pub enum LoadTilesFromDirError {
    /// A file could not be read as a tile.
    TileLoadError(TileLoadError),
    /// None of the files is there.
    NoTileFound(String),
    /// The directory holds tiles of both kinds.
    KindMismatch(String),
}

/// What a [`LoadTilesFromDirError`] says.
pub enum LoadTilesFromDirErrorView {
    TileLoadError(TileLoadErrorView),
    NoTileFound(Seq<char>),
    KindMismatch(Seq<char>),
}

impl View for LoadTilesFromDirError {
    type V = LoadTilesFromDirErrorView;

    open spec fn view(&self) -> LoadTilesFromDirErrorView {
        match self {
            LoadTilesFromDirError::TileLoadError(error) => LoadTilesFromDirErrorView::TileLoadError(
                error@,
            ),
            LoadTilesFromDirError::NoTileFound(path) => LoadTilesFromDirErrorView::NoTileFound(
                path@,
            ),
            LoadTilesFromDirError::KindMismatch(path) => LoadTilesFromDirErrorView::KindMismatch(
                path@,
            ),
        }
    }
}

impl LoadTilesFromDirError {
    pub fn kind_mismatch(dir_path: &str) -> (r: Self)
        ensures
            r@ == LoadTilesFromDirErrorView::KindMismatch(dir_path@),
    {
        LoadTilesFromDirError::KindMismatch(dir_path.to_owned())
    }

    pub fn no_tile_found(dir_path: &str) -> (r: Self)
        ensures
            r@ == LoadTilesFromDirErrorView::NoTileFound(dir_path@),
    {
        LoadTilesFromDirError::NoTileFound(dir_path.to_owned())
    }

    pub fn from(error: TileLoadError) -> (r: Self)
        ensures
            r@ == LoadTilesFromDirErrorView::TileLoadError(error@),
    {
        LoadTilesFromDirError::TileLoadError(error)
    }
}

/// The name of the file of the tile at `index`: the index in decimal, with
/// zeros before it up to three digits, and `.png`.
pub open spec fn spec_tile_file_name(index: nat) -> Seq<char> {
    padded3(index) + ".png"@
}

/// The name of the file of the tile at `index`.
pub fn tile_file_name(index: usize) -> (r: String)
    ensures
        r@ == spec_tile_file_name(index as nat),
{
    padded3_string(index).concat(".png")
}

/// The path of the file of the tile at `index` in the directory `dir`.
pub fn tile_file_path(dir: &str, index: usize) -> (r: String)
    ensures
        r@ == spec_join(dir@, spec_tile_file_name(index as nat)),
{
    let name = tile_file_name(index);
    crate::path::join(dir, name.as_str())
}

/// Whether reading a file found that it does not exist.
pub open spec fn is_missing(content: Result<Vec<u8>, IOError>) -> bool {
    content matches Err(error) && error.kind == IOErrorKind::NotFound
}

/// What the file of the tile at `index` in `dir` gives: no tile where the
/// file does not exist, else the tile in it.
pub open spec fn tile_slot(
    dir: Seq<char>,
    index: int,
    content: Result<Vec<u8>, IOError>,
) -> Result<Option<TileView>, TileLoadErrorView> {
    if is_missing(content) {
        Ok(None)
    } else {
        match TileView::of_image_file(spec_join(dir, spec_tile_file_name(index as nat)), content) {
            Ok(tile) => Ok(Some(tile)),
            Err(e) => Err(e),
        }
    }
}

/// What a scan has found so far: the kind of the tiles, once there is one,
/// and for each index the tile that is there.
pub struct ScanView {
    pub kind: Option<TileKind>,
    pub slots: Seq<Option<TileView>>,
}

/// What scanning the files of the indices below `upto` finds. The scan goes
/// by rising index and ends at the first file that cannot be read as a tile,
/// or that holds a tile of another kind than the first tile found.
pub open spec fn scan_tiles(
    dir: Seq<char>,
    files: Seq<Result<Vec<u8>, IOError>>,
    upto: int,
) -> Result<ScanView, LoadTilesFromDirErrorView>
    decreases upto,
{
    if upto <= 0 {
        Ok(ScanView { kind: None, slots: Seq::empty() })
    } else {
        match scan_tiles(dir, files, upto - 1) {
            Ok(scan) => match tile_slot(dir, upto - 1, files[upto - 1]) {
                Ok(Some(tile)) => if scan.kind is Some && scan.kind != Some(tile.kind) {
                    Err(LoadTilesFromDirErrorView::KindMismatch(dir))
                } else {
                    Ok(ScanView { kind: Some(tile.kind), slots: scan.slots.push(Some(tile)) })
                },
                Ok(None) => Ok(ScanView { kind: scan.kind, slots: scan.slots.push(None) }),
                Err(e) => Err(LoadTilesFromDirErrorView::TileLoadError(e)),
            },
            Err(e) => Err(e),
        }
    }
}

/// The number of slots up to the last one that holds something.
pub open spec fn present_len<T>(slots: Seq<Option<T>>) -> nat
    decreases slots.len(),
{
    if slots.len() == 0 {
        0
    } else if slots.last() is Some {
        slots.len()
    } else {
        present_len(slots.drop_last())
    }
}

/// The tiles of a scan: those found, and a fully transparent tile of the
/// kind for each index that has none, up to the last tile found.
pub open spec fn filled_tiles(slots: Seq<Option<TileView>>, kind: TileKind) -> Seq<TileView> {
    Seq::new(
        present_len(slots),
        |i: int|
            match slots[i] {
                Some(tile) => tile,
                None => TileView::blank(kind),
            },
    )
}

/// The tiles of the directory `dir`, where `files[i]` is what reading the
/// file of the tile at index `i` gave.
pub open spec fn tiles_loaded_from_dir(
    dir: Seq<char>,
    files: Seq<Result<Vec<u8>, IOError>>,
) -> Result<Seq<TileView>, LoadTilesFromDirErrorView> {
    match scan_tiles(dir, files, files.len() as int) {
        Ok(scan) => match scan.kind {
            Some(kind) => Ok(filled_tiles(scan.slots, kind)),
            None => Err(LoadTilesFromDirErrorView::NoTileFound(dir)),
        },
        Err(e) => Err(e),
    }
}

/// Where a scan has found the given tiles at the first indices and no file
/// at the indices behind them, what is loaded is those tiles: the gaps
/// behind the last tile are dropped.
pub proof fn lemma_tiles_without_gaps(tiles: Seq<TileView>, slots: Seq<Option<TileView>>, kind: TileKind)
    requires
        tiles.len() <= slots.len(),
        forall|i: int| 0 <= i < tiles.len() ==> #[trigger] slots[i] == Some(tiles[i]),
        forall|i: int| tiles.len() <= i < slots.len() ==> (#[trigger] slots[i]) is None,
    ensures
        filled_tiles(slots, kind) == tiles,
    decreases slots.len(),
{
    if slots.len() > tiles.len() {
        let shorter = slots.drop_last();
        assert forall|i: int| 0 <= i < tiles.len() implies #[trigger] shorter[i] == Some(
            tiles[i],
        ) by {
            assert(shorter[i] == slots[i]);
        }
        assert forall|i: int| tiles.len() <= i < shorter.len() implies (
        #[trigger] shorter[i]) is None by {
            assert(shorter[i] == slots[i]);
        }
        lemma_tiles_without_gaps(tiles, shorter, kind);
        assert(slots.last() is None);
        assert(present_len(slots) == present_len(shorter));
        assert(filled_tiles(slots, kind) =~= filled_tiles(shorter, kind)) by {
            assert forall|i: int| 0 <= i < present_len(shorter) implies slots[i] == shorter[i] by {
                lemma_present_len(shorter);
            }
        }
    } else {
        if tiles.len() > 0 {
            assert(slots.last() == Some(tiles[tiles.len() - 1]));
        }
        assert(filled_tiles(slots, kind) =~= tiles);
    }
}

/// What is loaded holds, for each index up to the last at which a tile
/// was found, the tile found there or a fully transparent tile of the
/// kind; it ends with a tile that was found.
pub proof fn lemma_filled_tiles(slots: Seq<Option<TileView>>, kind: TileKind)
    ensures
        filled_tiles(slots, kind).len() <= slots.len(),
        forall|i: int|
            0 <= i < filled_tiles(slots, kind).len() ==> #[trigger] filled_tiles(slots, kind)[i]
                == (match slots[i] {
                Some(tile) => tile,
                None => TileView::blank(kind),
            }),
        filled_tiles(slots, kind).len() > 0 ==> slots[filled_tiles(slots, kind).len() - 1]
            is Some,
        forall|i: int| filled_tiles(slots, kind).len() <= i < slots.len() ==> (
        #[trigger] slots[i]) is None,
{
    lemma_present_len(slots);
}

/// What a scan of files that hold the given tiles, one after the other
/// from index 0, finds at the indices below `upto`: the tiles, and nothing
/// behind them where the files behind them do not exist.
pub proof fn lemma_scan_of_tiles(
    dir: Seq<char>,
    tiles: Seq<TileView>,
    files: Seq<Result<Vec<u8>, IOError>>,
    kind: TileKind,
    upto: int,
)
    requires
        0 <= upto <= files.len(),
        tiles.len() <= files.len(),
        forall|i: int| 0 <= i < tiles.len() ==> (#[trigger] tiles[i]).kind == kind && tiles[i].wf(),
        forall|i: int|
            0 <= i < tiles.len() ==> (#[trigger] files[i]) is Ok && crate::image::png_decoding(
                files[i]->Ok_0@,
            ) == Some(tiles[i].image()),
        forall|i: int| tiles.len() <= i < files.len() ==> is_missing(#[trigger] files[i]),
    ensures
        scan_tiles(dir, files, upto) is Ok,
        scan_tiles(dir, files, upto)->Ok_0.kind == (if upto > 0 && tiles.len() > 0 {
            Some(kind)
        } else {
            None
        }),
        scan_tiles(dir, files, upto)->Ok_0.slots.len() == upto,
        forall|i: int|
            0 <= i < upto && i < tiles.len() ==> #[trigger] scan_tiles(
                dir,
                files,
                upto,
            )->Ok_0.slots[i] == Some(tiles[i]),
        forall|i: int|
            tiles.len() <= i < upto ==> (#[trigger] scan_tiles(dir, files, upto)->Ok_0.slots[i])
                is None,
    decreases upto,
{
    if upto > 0 {
        lemma_scan_of_tiles(dir, tiles, files, kind, upto - 1);
        let before = scan_tiles(dir, files, upto - 1)->Ok_0;
        if upto - 1 < tiles.len() {
            let tile = tiles[upto - 1];
            assert(files[upto - 1] is Ok);
            tile.lemma_image_round_trip();
            assert(tile_slot(dir, upto - 1, files[upto - 1]) == Ok::<
                Option<TileView>,
                TileLoadErrorView,
            >(Some(tile)));
        } else {
            assert(is_missing(files[upto - 1]));
        }
        let after = scan_tiles(dir, files, upto)->Ok_0;
        assert forall|i: int| 0 <= i < upto && i < tiles.len() implies #[trigger] after.slots[i]
            == Some(tiles[i]) by {
            if i < upto - 1 {
                assert(after.slots[i] == before.slots[i]);
            }
        }
        assert forall|i: int| tiles.len() <= i < upto implies (#[trigger] after.slots[i])
            is None by {
            if i < upto - 1 {
                assert(after.slots[i] == before.slots[i]);
            }
        }
    }
}

/// Reading a tile directory that holds the image files of a collection of
/// tiles of one kind gives the tiles back, however many indices without a
/// file are scanned behind them.
pub proof fn lemma_tile_dir_round_trip(
    dir: Seq<char>,
    tiles: Seq<TileView>,
    files: Seq<Result<Vec<u8>, IOError>>,
    kind: TileKind,
)
    requires
        0 < tiles.len() <= files.len(),
        forall|i: int| 0 <= i < tiles.len() ==> (#[trigger] tiles[i]).kind == kind && tiles[i].wf(),
        forall|i: int|
            0 <= i < tiles.len() ==> (#[trigger] files[i]) is Ok && crate::image::png_decoding(
                files[i]->Ok_0@,
            ) == Some(tiles[i].image()),
        forall|i: int| tiles.len() <= i < files.len() ==> is_missing(#[trigger] files[i]),
    ensures
        tiles_loaded_from_dir(dir, files) == Ok::<Seq<TileView>, LoadTilesFromDirErrorView>(tiles),
{
    lemma_scan_of_tiles(dir, tiles, files, kind, files.len() as int);
    let scan = scan_tiles(dir, files, files.len() as int)->Ok_0;
    lemma_tiles_without_gaps(tiles, scan.slots, kind);
}

/// The slots up to the last one that holds something are no more than all slots.
pub proof fn lemma_present_len<T>(slots: Seq<Option<T>>)
    ensures
        present_len(slots) <= slots.len(),
        present_len(slots) > 0 ==> slots[present_len(slots) - 1] is Some,
        forall|i: int| present_len(slots) <= i < slots.len() ==> (#[trigger] slots[i]) is None,
    decreases slots.len(),
{
    if slots.len() > 0 && !(slots.last() is Some) {
        lemma_present_len(slots.drop_last());
        assert forall|i: int| present_len(slots) <= i < slots.len() implies (
        #[trigger] slots[i]) is None by {
            if i < slots.len() - 1 {
                assert(slots.drop_last()[i] == slots[i]);
            }
        }
        if present_len(slots) > 0 {
            assert(slots.drop_last()[present_len(slots) - 1] == slots[present_len(slots) - 1]);
        }
    }
}

/// A scan that has failed stays failed, with the same error.
pub proof fn lemma_scan_tiles_failed(
    dir: Seq<char>,
    files: Seq<Result<Vec<u8>, IOError>>,
    upto: int,
    later: int,
)
    requires
        upto <= later,
        scan_tiles(dir, files, upto) is Err,
    ensures
        scan_tiles(dir, files, later) == scan_tiles(dir, files, upto),
    decreases later - upto,
{
    if upto < later {
        lemma_scan_tiles_failed(dir, files, upto, later - 1);
    }
}

/// The number of slots up to the last one of `slots` that holds something.
pub fn count_present<T: DeepView>(slots: &Vec<Option<T>>) -> (r: usize)
    ensures
        r == present_len(slots.deep_view()),
        r <= slots.len(),
{
    let mut n: usize = slots.len();
    assert(slots.deep_view().take(n as int) =~= slots.deep_view());
    while n > 0
        invariant
            n <= slots.len(),
            present_len(slots.deep_view()) == present_len(slots.deep_view().take(n as int)),
        decreases n,
    {
        let ghost upto = slots.deep_view().take(n as int);
        assert(upto.last() == slots.deep_view()[n - 1]);
        assert(upto.drop_last() =~= slots.deep_view().take(n - 1));
        if slots[n - 1].is_some() {
            return n;
        }
        n -= 1;
    }
    n
}

/// The tiles of the directory `path`, where `files[i]` is what reading the
/// file of the tile at index `i` gave: see [`tile_file_path`] for the file
/// of an index. As many indices are scanned as there are entries in `files`.
///
/// A file that does not exist leaves a gap, which a fully transparent tile
/// of the directory's kind fills. Gaps after the last tile found are
/// dropped. Any other failure to read a file ends the scan.
pub fn load_tiles_from_dir(path: &str, files: &Vec<Result<Vec<u8>, IOError>>) -> (r: Result<
    Vec<Tile>,
    LoadTilesFromDirError,
>)
    ensures
        result_view(r) == tiles_loaded_from_dir(path@, files@),
{
    let mut tiles: Vec<Option<Tile>> = Vec::new();
    let mut tile_kind: Option<TileKind> = None;
    let mut index: usize = 0;
    assert(tiles.deep_view() =~= Seq::<Option<TileView>>::empty());
    while index < files.len()
        invariant
            index <= files.len(),
            scan_tiles(path@, files@, index as int) == Ok::<ScanView, LoadTilesFromDirErrorView>(
                ScanView { kind: tile_kind, slots: tiles.deep_view() },
            ),
        decreases files.len() - index,
    {
        let content = &files[index];
        let missing = match content {
            Ok(_) => false,
            Err(error) => error.kind == IOErrorKind::NotFound,
        };
        let tile = if missing {
            None
        } else {
            let tile_path = tile_file_path(path, index);
            match Tile::load_image_file(tile_path.as_str(), content) {
                Ok(loaded_tile) => Some(loaded_tile),
                Err(error) => {
                    proof {
                        lemma_scan_tiles_failed(path@, files@, index + 1, files@.len() as int);
                    }
                    return Err(LoadTilesFromDirError::from(error));
                },
            }
        };
        match (&tile, &tile_kind) {
            (Some(tile), None) => {
                tile_kind = Some(tile.kind());
            },
            (Some(tile), Some(kind)) => if tile.kind() != *kind {
                proof {
                    lemma_scan_tiles_failed(path@, files@, index + 1, files@.len() as int);
                }
                return Err(LoadTilesFromDirError::kind_mismatch(path));
            },
            _ => {},
        }
        let ghost prev = tiles.deep_view();
        tiles.push(tile);
        assert(tiles.deep_view() =~= prev.push(tile.deep_view()));
        index += 1;
    }
    let tile_kind = match tile_kind {
        Some(tile_kind) => tile_kind,
        None => {
            return Err(LoadTilesFromDirError::no_tile_found(path));
        },
    };
    let count = count_present(&tiles);
    let mut loaded: Vec<Tile> = Vec::new();
    let mut i: usize = 0;
    let ghost slots = tiles.deep_view();
    while i < count
        invariant
            i <= count <= tiles.len(),
            slots == tiles.deep_view(),
            count == present_len(slots),
            loaded.deep_view() == filled_tiles(slots, tile_kind).take(i as int),
        decreases count - i,
    {
        let tile = match &tiles[i] {
            Some(tile) => tile.clone(),
            None => Tile::new(tile_kind),
        };
        let ghost prev = loaded.deep_view();
        loaded.push(tile);
        proof {
            assert(loaded.deep_view() =~= prev.push(tile@));
            assert(slots[i as int] == tiles[i as int].deep_view());
            assert(filled_tiles(slots, tile_kind).take(i + 1) =~= prev.push(tile@));
        }
        i += 1;
    }
    assert(filled_tiles(slots, tile_kind).take(count as int) =~= filled_tiles(slots, tile_kind));
    Ok(loaded)
}

} // verus!
