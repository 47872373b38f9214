//! Reading a symbol directory that was written from a collection of symbols
//! gives the symbols back.

use crate::image::png_decoding;
use crate::osd::tile::container::load_symbols_from_dir::file_type;
use crate::osd::tile::container::load_symbols_from_dir::filled_symbols;
use crate::osd::tile::container::load_symbols_from_dir::find_file;
use crate::osd::tile::container::load_symbols_from_dir::first_clash;
use crate::osd::tile::container::load_symbols_from_dir::first_file_between;
use crate::osd::tile::container::load_symbols_from_dir::lemma_find_file_more;
use crate::osd::tile::container::load_symbols_from_dir::lemma_symbol_file_name_identified;
use crate::osd::tile::container::load_symbols_from_dir::scan_step;
use crate::osd::tile::container::load_symbols_from_dir::scan_symbols;
use crate::osd::tile::container::load_symbols_from_dir::starts_at;
use crate::osd::tile::container::load_symbols_from_dir::symbol_slot;
use crate::osd::tile::container::load_symbols_from_dir::symbols_loaded_from_dir;
use crate::osd::tile::container::load_symbols_from_dir::DirFile;
use crate::osd::tile::container::load_symbols_from_dir::LoadSymbolsFromDirErrorView;
use crate::osd::tile::container::load_symbols_from_dir::SymbolScanView;
use crate::osd::tile::container::load_tiles_from_dir::lemma_present_len;
use crate::osd::tile::container::load_tiles_from_dir::present_len;
use crate::osd::tile::container::save_symbols_to_dir::lemma_tiles_before_grows;
use crate::osd::tile::container::save_symbols_to_dir::spec_symbol_file_name;
use crate::osd::tile::container::save_symbols_to_dir::tiles_before;
use crate::osd::tile::container::symbol::lemma_symbol_round_trip;
use crate::osd::tile::container::symbol::LoadErrorView as SymbolLoadErrorView;
use crate::osd::tile::container::symbol::SymbolView;
use crate::osd::tile::Kind as TileKind;
use vstd::prelude::*;

verus! {

/// Whether a directory holds the files of a collection of symbols of one
/// kind and nothing else: file `i` has the name of symbol `i` and holds its
/// image. The tiles of the symbols have indices below a thousand.
pub open spec fn holds_symbols(files: Seq<DirFile>, symbols: Seq<SymbolView>, kind: TileKind) -> bool {
    &&& files.len() == symbols.len()
    &&& tiles_before(symbols, symbols.len() as int) <= 1000
    &&& forall|i: int|
        0 <= i < symbols.len() ==> {
            &&& (#[trigger] symbols[i]).wf()
            &&& symbols[i].kind == kind
            &&& forall|j: int| 0 <= j < symbols[i].tiles.len() ==> (#[trigger] symbols[i].tiles[j]).wf()
        }
    &&& forall|i: int|
        0 <= i < files.len() ==> {
            &&& (#[trigger] files[i]).name@ == spec_symbol_file_name(
                tiles_before(symbols, i),
                symbols[i].tiles.len(),
            )
            &&& files[i].content is Ok
            &&& png_decoding(files[i].content->Ok_0@) == Some(symbols[i].image())
        }
}

/// A later symbol starts at a higher tile index.
pub proof fn lemma_starts_rise(symbols: Seq<SymbolView>, i: int, j: int)
    requires
        0 <= i < j <= symbols.len(),
        forall|k: int| 0 <= k < symbols.len() ==> (#[trigger] symbols[k]).wf(),
    ensures
        tiles_before(symbols, i) < tiles_before(symbols, j),
    decreases j - i,
{
    assert(symbols[j - 1].wf());
    if i < j - 1 {
        lemma_starts_rise(symbols, i, j - 1);
    }
}

/// What the name of file `i` says: where symbol `i` starts and how many
/// tiles it spans.
pub proof fn lemma_named(files: Seq<DirFile>, symbols: Seq<SymbolView>, kind: TileKind, i: int)
    requires
        holds_symbols(files, symbols, kind),
        0 <= i < symbols.len(),
    ensures
        file_type(files[i].name@) is Some,
        file_type(files[i].name@)->Some_0.spec_start_index() == tiles_before(symbols, i),
        file_type(files[i].name@)->Some_0.spec_span() == symbols[i].tiles.len(),
        symbols[i].tiles.len() >= 1,
        tiles_before(symbols, i) + symbols[i].tiles.len() == tiles_before(symbols, i + 1),
        tiles_before(symbols, i + 1) <= 1000,
{
    assert(symbols[i].wf());
    assert(files[i].name@ == spec_symbol_file_name(
        tiles_before(symbols, i),
        symbols[i].tiles.len(),
    ));
    lemma_tiles_before_grows(symbols, i + 1, symbols.len() as int);
    lemma_symbol_file_name_identified(tiles_before(symbols, i), symbols[i].tiles.len());
}

/// No file before `upto` starts at a tile at which no symbol before `upto` starts.
pub proof fn lemma_find_absent(
    files: Seq<DirFile>,
    symbols: Seq<SymbolView>,
    kind: TileKind,
    start: int,
    upto: int,
)
    requires
        holds_symbols(files, symbols, kind),
        0 <= upto <= symbols.len(),
        forall|i: int| 0 <= i < upto ==> #[trigger] tiles_before(symbols, i) != start,
    ensures
        find_file(files, start, upto) is None,
    decreases upto,
{
    if upto > 0 {
        lemma_find_absent(files, symbols, kind, start, upto - 1);
        lemma_named(files, symbols, kind, upto - 1);
        assert(tiles_before(symbols, upto - 1) != start);
    }
}

/// The file that starts where symbol `i` starts is file `i`.
pub proof fn lemma_find_present(
    files: Seq<DirFile>,
    symbols: Seq<SymbolView>,
    kind: TileKind,
    i: int,
)
    requires
        holds_symbols(files, symbols, kind),
        0 <= i < symbols.len(),
    ensures
        find_file(files, tiles_before(symbols, i) as int, files.len() as int) == Some(i),
{
    let start = tiles_before(symbols, i) as int;
    assert forall|k: int| 0 <= k < i implies #[trigger] tiles_before(symbols, k) != start by {
        lemma_starts_rise(symbols, k, i);
    }
    lemma_find_absent(files, symbols, kind, start, i);
    lemma_named(files, symbols, kind, i);
    assert(starts_at(files[i], start));
    assert(find_file(files, start, i + 1) == Some(i));
    lemma_find_file_more(files, start, i + 1, files.len() as int);
}

/// No two of the files start at the same tile.
pub proof fn lemma_no_clash(files: Seq<DirFile>, symbols: Seq<SymbolView>, kind: TileKind, upto: int)
    requires
        holds_symbols(files, symbols, kind),
        0 <= upto <= symbols.len(),
    ensures
        first_clash(files, upto) is None,
    decreases upto,
{
    if upto > 0 {
        lemma_no_clash(files, symbols, kind, upto - 1);
        lemma_named(files, symbols, kind, upto - 1);
        let start = tiles_before(symbols, upto - 1) as int;
        assert forall|k: int| 0 <= k < upto - 1 implies #[trigger] tiles_before(symbols, k)
            != start by {
            lemma_starts_rise(symbols, k, upto - 1);
        }
        lemma_find_absent(files, symbols, kind, start, upto - 1);
    }
}

/// No file starts from `lo` up to `hi` where these lie behind the start of
/// symbol `before` and, if there is a symbol behind it, not behind that
/// symbol's start.
pub proof fn lemma_none_between(
    files: Seq<DirFile>,
    symbols: Seq<SymbolView>,
    kind: TileKind,
    before: int,
    lo: int,
    hi: int,
)
    requires
        holds_symbols(files, symbols, kind),
        0 <= before < symbols.len(),
        tiles_before(symbols, before) < lo,
        before + 1 < symbols.len() ==> hi <= tiles_before(symbols, before + 1),
    ensures
        first_file_between(files, lo, hi) is None,
    decreases hi - lo,
{
    if lo < hi {
        assert forall|i: int| 0 <= i < symbols.len() implies #[trigger] tiles_before(symbols, i)
            != lo by {
            if i < before {
                lemma_starts_rise(symbols, i, before);
            } else if i > before {
                if i > before + 1 {
                    lemma_starts_rise(symbols, before + 1, i);
                }
            }
        }
        lemma_find_absent(files, symbols, kind, lo, symbols.len() as int);
        lemma_none_between(files, symbols, kind, before, lo + 1, hi);
    }
}

/// What a walk over such a directory has found after `steps` steps: the
/// first `steps` symbols, and nothing in the steps behind the last symbol.
pub open spec fn walked(symbols: Seq<SymbolView>, kind: TileKind, steps: int) -> SymbolScanView {
    if steps <= symbols.len() {
        SymbolScanView {
            pos: tiles_before(symbols, steps),
            kind: if steps > 0 {
                Some(kind)
            } else {
                None
            },
            slots: Seq::new(steps as nat, |i: int| Some(symbols[i])),
            last_file: if steps > 0 {
                Some(steps - 1)
            } else {
                None
            },
        }
    } else {
        SymbolScanView {
            pos: (tiles_before(symbols, symbols.len() as int) + steps - symbols.len()) as nat,
            kind: Some(kind),
            slots: Seq::new(
                steps as nat,
                |i: int|
                    if i < symbols.len() {
                        Some(symbols[i])
                    } else {
                        None
                    },
            ),
            last_file: None,
        }
    }
}

/// A walk over such a directory finds the symbols one after the other and
/// nothing behind them.
pub proof fn lemma_walk(
    dir: Seq<char>,
    files: Seq<DirFile>,
    symbols: Seq<SymbolView>,
    kind: TileKind,
    steps: int,
)
    requires
        holds_symbols(files, symbols, kind),
        symbols.len() > 0,
        0 <= steps,
    ensures
        scan_symbols(dir, files, steps) == Ok::<SymbolScanView, LoadSymbolsFromDirErrorView>(
            walked(symbols, kind, steps),
        ),
    decreases steps,
{
    let n = symbols.len() as int;
    if steps <= 0 {
        assert(walked(symbols, kind, 0).slots =~= Seq::<Option<SymbolView>>::empty());
    } else {
        lemma_walk(dir, files, symbols, kind, steps - 1);
        let scan = walked(symbols, kind, steps - 1);
        let goal = walked(symbols, kind, steps);
        if scan.last_file is Some {
            let last = steps - 2;
            lemma_named(files, symbols, kind, last);
            lemma_none_between(
                files,
                symbols,
                kind,
                last,
                tiles_before(symbols, last) as int + 1,
                scan.pos as int,
            );
        }
        if steps - 1 < n {
            let i = steps - 1;
            lemma_find_present(files, symbols, kind, i);
            lemma_named(files, symbols, kind, i);
            let symbol = symbols[i];
            assert(symbol.wf());
            assert(symbol.tiles.len() <= 1000);
            kind.lemma_sizes();
            assert(symbol.tiles.len() * kind.spec_width() <= 1000 * 36) by (nonlinear_arith)
                requires
                    symbol.tiles.len() <= 1000,
                    kind.spec_width() <= 36,
            ;
            lemma_symbol_round_trip(symbol);
            assert(files[i].content is Ok);
            assert(symbol_slot(dir, files[i]) == Ok::<Option<SymbolView>, SymbolLoadErrorView>(
                Some(symbol),
            ));
            assert(scan.slots.push(Some(symbol)) =~= goal.slots);
            assert(scan_step(dir, files, scan) == Ok::<
                SymbolScanView,
                LoadSymbolsFromDirErrorView,
            >(goal));
        } else {
            let pos = scan.pos as int;
            assert forall|i: int| 0 <= i < n implies #[trigger] tiles_before(symbols, i)
                != pos by {
                lemma_starts_rise(symbols, i, n);
            }
            lemma_find_absent(files, symbols, kind, pos, n);
            assert(scan.slots.push(None) =~= goal.slots);
            assert(scan_step(dir, files, scan) == Ok::<
                SymbolScanView,
                LoadSymbolsFromDirErrorView,
            >(goal));
        }
    }
}

/// Where a walk has found the given symbols in its first steps and nothing
/// in the steps behind them, what is loaded is those symbols.
pub proof fn lemma_symbols_without_gaps(
    symbols: Seq<SymbolView>,
    slots: Seq<Option<SymbolView>>,
    kind: TileKind,
)
    requires
        symbols.len() <= slots.len(),
        forall|i: int| 0 <= i < symbols.len() ==> #[trigger] slots[i] == Some(symbols[i]),
        forall|i: int| symbols.len() <= i < slots.len() ==> (#[trigger] slots[i]) is None,
    ensures
        filled_symbols(slots, kind) == symbols,
    decreases slots.len(),
{
    if slots.len() > symbols.len() {
        let shorter = slots.drop_last();
        assert forall|i: int| 0 <= i < symbols.len() implies #[trigger] shorter[i] == Some(
            symbols[i],
        ) by {
            assert(shorter[i] == slots[i]);
        }
        assert forall|i: int| symbols.len() <= i < shorter.len() implies (
        #[trigger] shorter[i]) is None by {
            assert(shorter[i] == slots[i]);
        }
        lemma_symbols_without_gaps(symbols, shorter, kind);
        assert(slots.last() is None);
        assert(present_len(slots) == present_len(shorter));
        assert(filled_symbols(slots, kind) =~= filled_symbols(shorter, kind)) by {
            assert forall|i: int| 0 <= i < present_len(shorter) implies slots[i] == shorter[i] by {
                lemma_present_len(shorter);
            }
        }
    } else {
        if symbols.len() > 0 {
            assert(slots.last() == Some(symbols[symbols.len() - 1]));
        }
        assert(filled_symbols(slots, kind) =~= symbols);
    }
}

/// Reading a symbol directory that holds the files of a collection of
/// symbols of one kind gives the symbols back, as long as the walk takes a
/// step for each symbol at least.
pub proof fn lemma_symbol_dir_round_trip(
    dir: Seq<char>,
    files: Seq<DirFile>,
    symbols: Seq<SymbolView>,
    kind: TileKind,
    max_symbols: int,
)
    requires
        holds_symbols(files, symbols, kind),
        0 < symbols.len() <= max_symbols,
    ensures
        symbols_loaded_from_dir(dir, files, max_symbols) == Ok::<
            Seq<SymbolView>,
            LoadSymbolsFromDirErrorView,
        >(symbols),
{
    lemma_no_clash(files, symbols, kind, symbols.len() as int);
    lemma_walk(dir, files, symbols, kind, max_symbols);
    let scan = walked(symbols, kind, max_symbols);
    lemma_symbols_without_gaps(symbols, scan.slots, kind);
}

} // verus!
