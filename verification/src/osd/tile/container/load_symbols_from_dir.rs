//! The symbol directory: one image file for each symbol, named by the index
//! of its first tile and, where it spans more than one tile, that of its last.

use crate::decimal::all_digits;
use crate::decimal::digits_value;
use crate::decimal::parse_digits;
use crate::file::IOError;
use crate::osd::tile::container::load_tiles_from_dir::count_present;
use crate::osd::tile::container::load_tiles_from_dir::is_missing;
use crate::osd::tile::container::load_tiles_from_dir::present_len;
use crate::osd::tile::container::symbol::symbol_loaded;
use crate::osd::tile::container::symbol::LoadError as SymbolLoadError;
use crate::osd::tile::container::symbol::LoadErrorView as SymbolLoadErrorView;
use crate::osd::tile::container::symbol::Symbol;
use crate::osd::tile::container::symbol::SymbolView;
use crate::osd::tile::Kind as TileKind;
use crate::osd::tile::TileView;
use crate::outcome::result_view;
use crate::path::spec_join;
use vstd::prelude::*;

verus! {

/// Why the symbols of a directory could not be had.
#[derive(Debug)]
pub enum LoadSymbolsFromDirError {
    /// The files of the directory could not be listed. The library lists no
    /// directory and never returns this; it is for those who do.
    DirListFiles { dir_path: String, error: IOError },
    /// A file could not be read as a symbol.
    LoadError(SymbolLoadError),
    /// Two files hold the same tile.
    OverlappingSymbolFiles(String, String),
    /// A file holds a symbol of another span than its name says.
    SymbolSpanDoesNotMatchName { file_name: String, real_span: usize },
    /// None of the files holds a symbol.
    NoSymbolFound(String),
    /// The directory holds tiles of both kinds.
    KindMismatch(String),
}

/// What a [`LoadSymbolsFromDirError`] says.
pub enum LoadSymbolsFromDirErrorView {
    DirListFiles { dir_path: Seq<char>, error: IOError },
    LoadError(SymbolLoadErrorView),
    OverlappingSymbolFiles(Seq<char>, Seq<char>),
    SymbolSpanDoesNotMatchName { file_name: Seq<char>, real_span: usize },
    NoSymbolFound(Seq<char>),
    KindMismatch(Seq<char>),
}

impl View for LoadSymbolsFromDirError {
    type V = LoadSymbolsFromDirErrorView;

    open spec fn view(&self) -> LoadSymbolsFromDirErrorView {
        match self {
            LoadSymbolsFromDirError::DirListFiles { dir_path, error } => {
                LoadSymbolsFromDirErrorView::DirListFiles { dir_path: dir_path@, error: *error }
            },
            LoadSymbolsFromDirError::LoadError(error) => LoadSymbolsFromDirErrorView::LoadError(
                error@,
            ),
            LoadSymbolsFromDirError::OverlappingSymbolFiles(a, b) => {
                LoadSymbolsFromDirErrorView::OverlappingSymbolFiles(a@, b@)
            },
            LoadSymbolsFromDirError::SymbolSpanDoesNotMatchName { file_name, real_span } => {
                LoadSymbolsFromDirErrorView::SymbolSpanDoesNotMatchName {
                    file_name: file_name@,
                    real_span: *real_span,
                }
            },
            LoadSymbolsFromDirError::NoSymbolFound(path) => {
                LoadSymbolsFromDirErrorView::NoSymbolFound(path@)
            },
            LoadSymbolsFromDirError::KindMismatch(path) => {
                LoadSymbolsFromDirErrorView::KindMismatch(path@)
            },
        }
    }
}

impl LoadSymbolsFromDirError {
    pub fn dir_list_files(dir_path: &str, error: IOError) -> (r: Self)
        ensures
            r@ == (LoadSymbolsFromDirErrorView::DirListFiles { dir_path: dir_path@, error }),
    {
        LoadSymbolsFromDirError::DirListFiles { dir_path: dir_path.to_owned(), error }
    }

    pub fn kind_mismatch(dir_path: &str) -> (r: Self)
        ensures
            r@ == LoadSymbolsFromDirErrorView::KindMismatch(dir_path@),
    {
        LoadSymbolsFromDirError::KindMismatch(dir_path.to_owned())
    }

    pub fn no_symbol_found(dir_path: &str) -> (r: Self)
        ensures
            r@ == LoadSymbolsFromDirErrorView::NoSymbolFound(dir_path@),
    {
        LoadSymbolsFromDirError::NoSymbolFound(dir_path.to_owned())
    }

    pub fn overlapping(first: String, second: String) -> (r: Self)
        ensures
            r@ == LoadSymbolsFromDirErrorView::OverlappingSymbolFiles(first@, second@),
    {
        LoadSymbolsFromDirError::OverlappingSymbolFiles(first, second)
    }
}

/// What the name of a file of a symbol directory says.
#[derive(PartialEq, Eq, Structural, Debug, Clone, Copy)]
pub enum SymbolDirFileType {
    /// The file holds the tile at an index.
    Tile { index: usize },
    /// The file holds the tiles from an index to another, both included.
    Symbol { start_index: usize, end_index: usize },
}

impl SymbolDirFileType {
    /// The index of the first tile in the file.
    pub open spec fn spec_start_index(&self) -> usize {
        match self {
            SymbolDirFileType::Tile { index } => *index,
            SymbolDirFileType::Symbol { start_index, .. } => *start_index,
        }
    }

    /// The number of tiles that the name says the file holds. A name whose
    /// last index lies before its first says none.
    pub open spec fn spec_span(&self) -> usize {
        match self {
            SymbolDirFileType::Tile { .. } => 1,
            SymbolDirFileType::Symbol { start_index, end_index } => if *end_index >= *start_index
                && *end_index - *start_index < usize::MAX {
                (*end_index - *start_index + 1) as usize
            } else {
                0
            },
        }
    }

    pub fn start_index(&self) -> (r: usize)
        ensures
            r == self.spec_start_index(),
    {
        match self {
            SymbolDirFileType::Tile { index } => *index,
            SymbolDirFileType::Symbol { start_index, .. } => *start_index,
        }
    }

    pub fn span(&self) -> (r: usize)
        ensures
            r == self.spec_span(),
    {
        match self {
            SymbolDirFileType::Tile { .. } => 1,
            SymbolDirFileType::Symbol { start_index, end_index } => if *end_index >= *start_index
                && *end_index - *start_index < usize::MAX {
                *end_index - *start_index + 1
            } else {
                0
            },
        }
    }
}

/// What the name of a file says: the name starts with three digits, the
/// index of the file's first tile; then, if more than one tile is in the
/// file, a `-` and three digits, the index of its last tile; then a `.`.
/// What follows the `.` is free. Other names say nothing.
pub open spec fn file_type(name: Seq<char>) -> Option<SymbolDirFileType> {
    if name.len() >= 4 && all_digits(name.subrange(0, 3)) {
        if name[3] == '.' {
            Some(SymbolDirFileType::Tile { index: digits_value(name.subrange(0, 3)) as usize })
        } else if name.len() >= 8 && name[3] == '-' && all_digits(name.subrange(4, 7)) && name[7]
            == '.' {
            Some(
                SymbolDirFileType::Symbol {
                    start_index: digits_value(name.subrange(0, 3)) as usize,
                    end_index: digits_value(name.subrange(4, 7)) as usize,
                },
            )
        } else {
            None
        }
    } else {
        None
    }
}

/// Three digits stand for a number below a thousand.
pub proof fn lemma_three_digits(s: Seq<char>)
    requires
        s.len() == 3,
        all_digits(s),
    ensures
        digits_value(s) < 1000,
{
    let a = s.drop_last();
    let b = a.drop_last();
    let c = b.drop_last();
    assert(c.len() == 0);
    assert(digits_value(c) == 0);
    assert(b.last() == s[0] && a.last() == s[1] && s.last() == s[2]);
    assert(crate::decimal::is_digit(s[0]) && crate::decimal::is_digit(s[1])
        && crate::decimal::is_digit(s[2]));
    assert(digits_value(b) == digits_value(c) * 10 + crate::decimal::digit_value(b.last()));
    assert(digits_value(a) == digits_value(b) * 10 + crate::decimal::digit_value(a.last()));
    assert(digits_value(s) == digits_value(a) * 10 + crate::decimal::digit_value(s.last()));
}

/// The name under which a tile directory holds the tile at an index below
/// a thousand says that the file holds the tile at that index.
pub proof fn lemma_tile_file_name_identified(index: nat)
    requires
        index < 1000,
    ensures
        file_type(crate::osd::tile::container::load_tiles_from_dir::spec_tile_file_name(index))
            == Some(SymbolDirFileType::Tile { index: index as usize }),
{
    let name = crate::osd::tile::container::load_tiles_from_dir::spec_tile_file_name(index);
    crate::decimal::lemma_padded3(index);
    reveal_strlit(".png");
    assert(name.subrange(0, 3) =~= crate::decimal::padded3(index));
    assert(name[3] == ".png"@[0]);
}

/// The name under which a symbol directory holds a symbol says where the
/// symbol starts and how many tiles it spans, as long as all its tiles have
/// an index below a thousand.
pub proof fn lemma_symbol_file_name_identified(start: nat, span: nat)
    requires
        span >= 1,
        start + span <= 1000,
    ensures
        file_type(
            crate::osd::tile::container::save_symbols_to_dir::spec_symbol_file_name(start, span),
        ) is Some,
        file_type(
            crate::osd::tile::container::save_symbols_to_dir::spec_symbol_file_name(start, span),
        )->Some_0.spec_start_index() == start,
        file_type(
            crate::osd::tile::container::save_symbols_to_dir::spec_symbol_file_name(start, span),
        )->Some_0.spec_span() == span,
{
    let name = crate::osd::tile::container::save_symbols_to_dir::spec_symbol_file_name(
        start,
        span,
    );
    crate::decimal::lemma_padded3(start);
    reveal_strlit(".png");
    reveal_strlit("-");
    assert(name.subrange(0, 3) =~= crate::decimal::padded3(start));
    if span == 1 {
        assert(name[3] == ".png"@[0]);
    } else {
        let end = (start + span - 1) as nat;
        crate::decimal::lemma_padded3(end);
        assert(name[3] == "-"@[0]);
        assert(name.subrange(4, 7) =~= crate::decimal::padded3(end));
        assert(name[7] == ".png"@[0]);
    }
}

/// What the name of a file of a symbol directory says: see [`file_type`].
pub fn identify_file_name(name: &str) -> (r: Option<SymbolDirFileType>)
    ensures
        r == file_type(name@),
{
    let len = name.unicode_len();
    if len < 4 {
        return None;
    }
    let start_index = match parse_digits(name, 0, 3) {
        Some(start_index) => start_index,
        None => {
            proof {
                if all_digits(name@.subrange(0, 3)) {
                    lemma_three_digits(name@.subrange(0, 3));
                }
            }
            return None;
        },
    };
    let separator = name.get_char(3);
    if separator == '.' {
        return Some(SymbolDirFileType::Tile { index: start_index });
    }
    if len < 8 || separator != '-' || name.get_char(7) != '.' {
        return None;
    }
    match parse_digits(name, 4, 7) {
        Some(end_index) => Some(SymbolDirFileType::Symbol { start_index, end_index }),
        None => {
            proof {
                if all_digits(name@.subrange(4, 7)) {
                    lemma_three_digits(name@.subrange(4, 7));
                }
            }
            None
        },
    }
}

/// A file of a directory: its name, and what reading it gave.
#[derive(Debug)]
pub struct DirFile {
    pub name: String,
    pub content: Result<Vec<u8>, IOError>,
}

impl DirFile {
    pub fn new(name: String, content: Result<Vec<u8>, IOError>) -> (r: Self)
        ensures
            r.name == name,
            r.content == content,
    {
        DirFile { name, content }
    }
}

/// Whether the name of a file says that the file starts at tile `start`.
pub open spec fn starts_at(file: DirFile, start: int) -> bool {
    file_type(file.name@) matches Some(found) && found.spec_start_index() == start
}

/// The first of the files before `upto` whose name says that it starts at
/// tile `start`.
pub open spec fn find_file(files: Seq<DirFile>, start: int, upto: int) -> Option<int>
    decreases upto,
{
    if upto <= 0 {
        None
    } else {
        match find_file(files, start, upto - 1) {
            Some(i) => Some(i),
            None => if starts_at(files[upto - 1], start) {
                Some(upto - 1)
            } else {
                None
            },
        }
    }
}

/// The first of the files before `upto` that starts at the same tile as a
/// file before it, with the first file that starts there.
pub open spec fn first_clash(files: Seq<DirFile>, upto: int) -> Option<(int, int)>
    decreases upto,
{
    if upto <= 0 {
        None
    } else {
        match first_clash(files, upto - 1) {
            Some(clash) => Some(clash),
            None => match file_type(files[upto - 1].name@) {
                Some(found) => match find_file(
                    files,
                    found.spec_start_index() as int,
                    upto - 1,
                ) {
                    Some(existing) => Some((upto - 1, existing)),
                    None => None,
                },
                None => None,
            },
        }
    }
}

/// The file that starts at the lowest tile from `lo` up to, but not
/// including, `hi`.
pub open spec fn first_file_between(files: Seq<DirFile>, lo: int, hi: int) -> Option<int>
    decreases hi - lo,
{
    if lo >= hi {
        None
    } else {
        match find_file(files, lo, files.len() as int) {
            Some(i) => Some(i),
            None => first_file_between(files, lo + 1, hi),
        }
    }
}

/// What a file gives: no symbol where the file does not exist, else the
/// symbol in it.
pub open spec fn symbol_slot(dir: Seq<char>, file: DirFile) -> Result<
    Option<SymbolView>,
    SymbolLoadErrorView,
> {
    if is_missing(file.content) {
        Ok(None)
    } else {
        match symbol_loaded(spec_join(dir, file.name@), file.content) {
            Ok(symbol) => Ok(Some(symbol)),
            Err(e) => Err(e),
        }
    }
}

/// What a walk over the tile indices has found so far.
pub struct SymbolScanView {
    /// The tile index that the walk has come to.
    pub pos: nat,
    /// The kind of the tiles, once a symbol was found.
    pub kind: Option<TileKind>,
    /// For each step of the walk, the symbol that was found.
    pub slots: Seq<Option<SymbolView>>,
    /// The file of the symbol found in the last step, if one was.
    pub last_file: Option<int>,
}

/// One step of the walk.
///
/// Where the last step found a symbol and a file starts inside it, the two
/// files overlap. Else the file that starts at the current tile index, if
/// there is one, is read: its symbol must span as many tiles as its name
/// says and be of the kind of those found before, and the walk goes on
/// behind it. Where no file starts at the current index, or the file is
/// gone, the step finds nothing and the walk goes on one tile further.
pub open spec fn scan_step(dir: Seq<char>, files: Seq<DirFile>, scan: SymbolScanView) -> Result<
    SymbolScanView,
    LoadSymbolsFromDirErrorView,
> {
    let inside = match scan.last_file {
        Some(last) => first_file_between(
            files,
            file_type(files[last].name@)->Some_0.spec_start_index() + 1,
            scan.pos as int,
        ),
        None => None,
    };
    let nothing = SymbolScanView {
        pos: scan.pos + 1,
        kind: scan.kind,
        slots: scan.slots.push(None),
        last_file: None,
    };
    if inside is Some {
        Err(
            LoadSymbolsFromDirErrorView::OverlappingSymbolFiles(
                spec_join(dir, files[scan.last_file->Some_0].name@),
                spec_join(dir, files[inside->Some_0].name@),
            ),
        )
    } else {
        match find_file(files, scan.pos as int, files.len() as int) {
            Some(i) => match symbol_slot(dir, files[i]) {
                Ok(Some(symbol)) => if symbol.tiles.len() != file_type(
                    files[i].name@,
                )->Some_0.spec_span() {
                    Err(
                        LoadSymbolsFromDirErrorView::SymbolSpanDoesNotMatchName {
                            file_name: spec_join(dir, files[i].name@),
                            real_span: symbol.tiles.len() as usize,
                        },
                    )
                } else if scan.kind is Some && scan.kind != Some(symbol.kind) {
                    Err(LoadSymbolsFromDirErrorView::KindMismatch(dir))
                } else {
                    Ok(
                        SymbolScanView {
                            pos: scan.pos + symbol.tiles.len(),
                            kind: Some(symbol.kind),
                            slots: scan.slots.push(Some(symbol)),
                            last_file: Some(i),
                        },
                    )
                },
                Ok(None) => Ok(nothing),
                Err(e) => Err(LoadSymbolsFromDirErrorView::LoadError(e)),
            },
            None => Ok(nothing),
        }
    }
}

/// What a walk of `steps` steps from tile index 0 finds. The walk ends at
/// the first step that fails.
pub open spec fn scan_symbols(dir: Seq<char>, files: Seq<DirFile>, steps: int) -> Result<
    SymbolScanView,
    LoadSymbolsFromDirErrorView,
>
    decreases steps,
{
    if steps <= 0 {
        Ok(SymbolScanView { pos: 0, kind: None, slots: Seq::empty(), last_file: None })
    } else {
        match scan_symbols(dir, files, steps - 1) {
            Ok(scan) => scan_step(dir, files, scan),
            Err(e) => Err(e),
        }
    }
}

/// The symbols of a walk: those found, and a symbol of one fully transparent
/// tile of the kind for each step that found none, up to the last symbol found.
pub open spec fn filled_symbols(slots: Seq<Option<SymbolView>>, kind: TileKind) -> Seq<
    SymbolView,
> {
    Seq::new(
        present_len(slots),
        |i: int|
            match slots[i] {
                Some(symbol) => symbol,
                None => SymbolView::of_tile(TileView::blank(kind)),
            },
    )
}

/// The symbols of the directory `dir` that holds `files`, found by a walk of
/// `max_symbols` steps.
///
/// Two files that start at the same tile overlap: the later of them in
/// `files` is named first.
pub open spec fn symbols_loaded_from_dir(
    dir: Seq<char>,
    files: Seq<DirFile>,
    max_symbols: int,
) -> Result<Seq<SymbolView>, LoadSymbolsFromDirErrorView> {
    match first_clash(files, files.len() as int) {
        Some((new, existing)) => Err(
            LoadSymbolsFromDirErrorView::OverlappingSymbolFiles(
                spec_join(dir, files[new].name@),
                spec_join(dir, files[existing].name@),
            ),
        ),
        None => match scan_symbols(dir, files, max_symbols) {
            Ok(scan) => match scan.kind {
                Some(kind) => Ok(filled_symbols(scan.slots, kind)),
                None => Err(LoadSymbolsFromDirErrorView::NoSymbolFound(dir)),
            },
            Err(e) => Err(e),
        },
    }
}

/// A file that was found stays found when more files are looked at.
pub proof fn lemma_find_file_more(files: Seq<DirFile>, start: int, upto: int, later: int)
    requires
        upto <= later,
        find_file(files, start, upto) is Some,
    ensures
        find_file(files, start, later) == find_file(files, start, upto),
    decreases later - upto,
{
    if upto < later {
        lemma_find_file_more(files, start, upto, later - 1);
    }
}

/// A clash that was found stays found when more files are looked at.
pub proof fn lemma_first_clash_more(files: Seq<DirFile>, upto: int, later: int)
    requires
        upto <= later,
        first_clash(files, upto) is Some,
    ensures
        first_clash(files, later) == first_clash(files, upto),
    decreases later - upto,
{
    if upto < later {
        lemma_first_clash_more(files, upto, later - 1);
    }
}

/// A walk that has failed stays failed, with the same error.
pub proof fn lemma_scan_symbols_failed(
    dir: Seq<char>,
    files: Seq<DirFile>,
    steps: int,
    later: int,
)
    requires
        steps <= later,
        scan_symbols(dir, files, steps) is Err,
    ensures
        scan_symbols(dir, files, later) == scan_symbols(dir, files, steps),
    decreases later - steps,
{
    if steps < later {
        lemma_scan_symbols_failed(dir, files, steps, later - 1);
    }
}

/// An index as a mathematical integer.
pub open spec fn index_view(index: Option<usize>) -> Option<int> {
    match index {
        Some(i) => Some(i as int),
        None => None,
    }
}

/// What the names of the files say, for each file.
fn identify_files(files: &Vec<DirFile>) -> (r: Vec<Option<SymbolDirFileType>>)
    ensures
        r@.len() == files@.len(),
        forall|i: int| 0 <= i < r@.len() ==> #[trigger] r@[i] == file_type(files@[i].name@),
{
    let mut types: Vec<Option<SymbolDirFileType>> = Vec::new();
    let mut i: usize = 0;
    while i < files.len()
        invariant
            i <= files.len(),
            types@.len() == i,
            forall|k: int| 0 <= k < i ==> #[trigger] types@[k] == file_type(files@[k].name@),
        decreases files.len() - i,
    {
        types.push(identify_file_name(files[i].name.as_str()));
        i += 1;
    }
    types
}

/// The first of the files before `upto` that starts at tile `start`.
fn find_file_index(
    types: &Vec<Option<SymbolDirFileType>>,
    start: u128,
    upto: usize,
    Ghost(files): Ghost<Seq<DirFile>>,
) -> (r: Option<usize>)
    requires
        upto <= types@.len(),
        types@.len() == files.len(),
        forall|i: int| 0 <= i < types@.len() ==> #[trigger] types@[i] == file_type(files[i].name@),
    ensures
        index_view(r) == find_file(files, start as int, upto as int),
        r matches Some(i) ==> i < upto && starts_at(files[i as int], start as int),
{
    let mut i: usize = 0;
    while i < upto
        invariant
            i <= upto <= types@.len(),
            types@.len() == files.len(),
            forall|k: int|
                0 <= k < types@.len() ==> #[trigger] types@[k] == file_type(files[k].name@),
            find_file(files, start as int, i as int) is None,
        decreases upto - i,
    {
        let found = match &types[i] {
            Some(file_type) => file_type.start_index() as u128 == start,
            None => false,
        };
        if found {
            proof {
                assert(find_file(files, start as int, i + 1) == Some(i as int));
                lemma_find_file_more(files, start as int, i + 1, upto as int);
            }
            return Some(i);
        }
        i += 1;
    }
    None
}

/// The file that starts at the lowest tile from `lo` up to, but not
/// including, `hi`.
fn first_file_index_between(
    types: &Vec<Option<SymbolDirFileType>>,
    lo: u128,
    hi: u128,
    Ghost(files): Ghost<Seq<DirFile>>,
) -> (r: Option<usize>)
    requires
        types@.len() == files.len(),
        forall|i: int| 0 <= i < types@.len() ==> #[trigger] types@[i] == file_type(files[i].name@),
    ensures
        index_view(r) == first_file_between(files, lo as int, hi as int),
        r matches Some(i) ==> i < types@.len(),
{
    let mut start: u128 = lo;
    while start < hi
        invariant
            types@.len() == files.len(),
            forall|i: int|
                0 <= i < types@.len() ==> #[trigger] types@[i] == file_type(files[i].name@),
            first_file_between(files, lo as int, hi as int) == first_file_between(
                files,
                start as int,
                hi as int,
            ),
        decreases hi - start,
    {
        match find_file_index(types, start, types.len(), Ghost(files)) {
            Some(i) => {
                return Some(i);
            },
            None => {},
        }
        start += 1;
    }
    None
}

/// The symbols of the directory `dir_path` that holds `files`.
///
/// `files` are the files of the directory, in the order in which the
/// directory lists them, each with what reading it gave. A file whose name
/// is not that of a symbol file is passed over: see [`identify_file_name`].
/// The tile indices are walked from 0 for `max_symbols` steps: see
/// [`scan_step`]. A step that finds no file leaves a gap, which a symbol of
/// one fully transparent tile fills. Gaps after the last symbol found are
/// dropped.
pub fn load_symbols_from_dir(dir_path: &str, files: &Vec<DirFile>, max_symbols: usize) -> (r:
    Result<Vec<Symbol>, LoadSymbolsFromDirError>)
    ensures
        result_view(r) == symbols_loaded_from_dir(dir_path@, files@, max_symbols as int),
{
    let types = identify_files(files);
    let mut new: usize = 0;
    while new < files.len()
        invariant
            new <= files.len(),
            types@.len() == files@.len(),
            forall|i: int|
                0 <= i < types@.len() ==> #[trigger] types@[i] == file_type(files@[i].name@),
            first_clash(files@, new as int) is None,
        decreases files.len() - new,
    {
        match &types[new] {
            Some(file_type) => {
                match find_file_index(
                    &types,
                    file_type.start_index() as u128,
                    new,
                    Ghost(files@),
                ) {
                    Some(existing) => {
                        proof {
                            assert(first_clash(files@, new + 1) == Some(
                                (new as int, existing as int),
                            ));
                            lemma_first_clash_more(files@, new + 1, files@.len() as int);
                        }
                        return Err(
                            LoadSymbolsFromDirError::overlapping(
                                crate::path::join(dir_path, files[new].name.as_str()),
                                crate::path::join(dir_path, files[existing].name.as_str()),
                            ),
                        );
                    },
                    None => {},
                }
            },
            None => {},
        }
        new += 1;
    }
    let mut symbols: Vec<Option<Symbol>> = Vec::new();
    let mut tile_kind: Option<TileKind> = None;
    let mut tile_index: u128 = 0;
    let mut last_file: Option<usize> = None;
    let mut step: usize = 0;
    assert(symbols.deep_view() =~= Seq::<Option<SymbolView>>::empty());
    while step < max_symbols
        invariant
            step <= max_symbols,
            types@.len() == files@.len(),
            forall|i: int|
                0 <= i < types@.len() ==> #[trigger] types@[i] == file_type(files@[i].name@),
            first_clash(files@, files@.len() as int) is None,
            tile_index <= step * 0x1_0000_0000_0000_0000,
            last_file matches Some(last) ==> last < files@.len() && file_type(
                files@[last as int].name@,
            ) is Some,
            scan_symbols(dir_path@, files@, step as int) == Ok::<
                SymbolScanView,
                LoadSymbolsFromDirErrorView,
            >(
                SymbolScanView {
                    pos: tile_index as nat,
                    kind: tile_kind,
                    slots: symbols.deep_view(),
                    last_file: index_view(last_file),
                },
            ),
        decreases max_symbols - step,
    {
        let ghost before = symbols.deep_view();
        match last_file {
            Some(last) => {
                let last_start = match &types[last] {
                    Some(file_type) => file_type.start_index(),
                    None => 0,
                };
                match first_file_index_between(
                    &types,
                    last_start as u128 + 1,
                    tile_index,
                    Ghost(files@),
                ) {
                    Some(inside) => {
                        proof {
                            lemma_scan_symbols_failed(
                                dir_path@,
                                files@,
                                step + 1,
                                max_symbols as int,
                            );
                        }
                        return Err(
                            LoadSymbolsFromDirError::overlapping(
                                crate::path::join(dir_path, files[last].name.as_str()),
                                crate::path::join(dir_path, files[inside].name.as_str()),
                            ),
                        );
                    },
                    None => {},
                }
            },
            None => {},
        }
        let found = find_file_index(&types, tile_index, files.len(), Ghost(files@));
        let symbol: Option<Symbol> = match found {
            Some(i) => {
                let file = &files[i];
                let missing = match &file.content {
                    Ok(_) => false,
                    Err(error) => error.kind == crate::file::IOErrorKind::NotFound,
                };
                if missing {
                    None
                } else {
                    let file_path = crate::path::join(dir_path, file.name.as_str());
                    match Symbol::load_image_file(file_path.as_str(), &file.content) {
                        Ok(loaded_symbol) => {
                            let name_span = match &types[i] {
                                Some(file_type) => file_type.span(),
                                None => 0,
                            };
                            if loaded_symbol.span() != name_span {
                                proof {
                                    lemma_scan_symbols_failed(
                                        dir_path@,
                                        files@,
                                        step + 1,
                                        max_symbols as int,
                                    );
                                }
                                return Err(
                                    LoadSymbolsFromDirError::SymbolSpanDoesNotMatchName {
                                        file_name: file_path,
                                        real_span: loaded_symbol.span(),
                                    },
                                );
                            }
                            Some(loaded_symbol)
                        },
                        Err(error) => {
                            proof {
                                lemma_scan_symbols_failed(
                                    dir_path@,
                                    files@,
                                    step + 1,
                                    max_symbols as int,
                                );
                            }
                            return Err(LoadSymbolsFromDirError::LoadError(error));
                        },
                    }
                }
            },
            None => None,
        };
        match (&symbol, &tile_kind) {
            (Some(symbol), None) => {
                tile_kind = Some(symbol.tile_kind());
            },
            (Some(symbol), Some(kind)) => if symbol.tile_kind() != *kind {
                proof {
                    lemma_scan_symbols_failed(dir_path@, files@, step + 1, max_symbols as int);
                }
                return Err(LoadSymbolsFromDirError::kind_mismatch(dir_path));
            },
            _ => {},
        }
        match &symbol {
            Some(symbol) => {
                tile_index += symbol.span() as u128;
                last_file = found;
            },
            None => {
                tile_index += 1;
                last_file = None;
            },
        }
        symbols.push(symbol);
        assert(symbols.deep_view() =~= before.push(symbol.deep_view()));
        step += 1;
    }
    let tile_kind = match tile_kind {
        Some(tile_kind) => tile_kind,
        None => {
            return Err(LoadSymbolsFromDirError::no_symbol_found(dir_path));
        },
    };
    let count = count_present(&symbols);
    let mut loaded: Vec<Symbol> = Vec::new();
    let mut i: usize = 0;
    let ghost slots = symbols.deep_view();
    while i < count
        invariant
            i <= count <= symbols.len(),
            slots == symbols.deep_view(),
            count == present_len(slots),
            loaded.deep_view() == filled_symbols(slots, tile_kind).take(i as int),
        decreases count - i,
    {
        let symbol = match &symbols[i] {
            Some(symbol) => symbol.clone(),
            None => Symbol::new(tile_kind),
        };
        let ghost prev = loaded.deep_view();
        loaded.push(symbol);
        proof {
            assert(loaded.deep_view() =~= prev.push(symbol@));
            assert(slots[i as int] == symbols[i as int].deep_view());
            assert(filled_symbols(slots, tile_kind).take(i + 1) =~= prev.push(symbol@));
        }
        i += 1;
    }
    assert(filled_symbols(slots, tile_kind).take(count as int) =~= filled_symbols(
        slots,
        tile_kind,
    ));
    Ok(loaded)
}

} // verus!
