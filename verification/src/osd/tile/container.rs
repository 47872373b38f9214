//! Collections of tiles and of symbols, and what turns one into the other.

use crate::osd::tile::Tile;
use crate::osd::tile::TileView;
use symbol::spec::find_start;
use symbol::spec::Spec;
use symbol::spec::Specs as SymbolSpecs;
use symbol::Symbol;
use symbol::SymbolView;
use uniq_tile_kind::TileKindError;
use vstd::prelude::*;

pub mod into_tile_grid;
pub mod load_symbols_from_dir;
pub mod load_tiles_from_dir;
pub mod save_symbols_to_dir;
pub mod save_tiles_to_dir;
pub mod save_to_avatar_file;
pub mod save_to_bin_file;
pub mod save_to_grid;
pub mod symbol;
pub mod symbol_dir_laws;
pub mod symbol_tiles_iter;
pub mod tile_set;
pub mod uniq_tile_kind;

verus! {

/// The tiles of a sequence of symbols, one symbol's tiles after the other's.
pub open spec fn flatten(symbols: Seq<SymbolView>) -> Seq<TileView>
    decreases symbols.len(),
{
    if symbols.len() == 0 {
        Seq::empty()
    } else {
        symbols.first().tiles + flatten(symbols.drop_first())
    }
}

/// The number of tiles of the symbol that starts at tile `index`: the span
/// of the table's first entry for `index`, or one where it has none.
pub open spec fn span_at(specs: Seq<Spec>, index: int) -> nat {
    match find_start(specs, index) {
        Some(spec) => spec.span as nat,
        None => 1,
    }
}

/// Where the symbol that starts at tile `index` ends: after its span, or with
/// the last tile where the span runs past it.
pub open spec fn end_at(tiles: Seq<TileView>, specs: Seq<Spec>, index: int) -> int {
    if index + span_at(specs, index) <= tiles.len() {
        index + span_at(specs, index)
    } else {
        tiles.len() as int
    }
}

/// The symbols that the tiles from index `from` on form.
///
/// The walk takes the symbol that starts at the current index, then goes on
/// behind it. It fails at the first symbol whose span is zero or whose tiles
/// are of both kinds. Entries of the table that start inside a symbol already
/// taken are never looked at.
pub open spec fn segment(tiles: Seq<TileView>, specs: Seq<Spec>, from: int) -> Result<
    Seq<SymbolView>,
    TileKindError,
>
    decreases tiles.len() - from,
{
    if from < 0 || from >= tiles.len() {
        Ok(Seq::empty())
    } else if span_at(specs, from) == 0 {
        Err(TileKindError::EmptyContainer)
    } else {
        match SymbolView::of_tiles(tiles.subrange(from, end_at(tiles, specs, from))) {
            Ok(symbol) => match segment(tiles, specs, end_at(tiles, specs, from)) {
                Ok(rest) => Ok(seq![symbol] + rest),
                Err(e) => Err(e),
            },
            Err(e) => Err(e),
        }
    }
}

/// The tiles of `symbols` followed by one more symbol are the tiles of
/// `symbols` followed by that symbol's tiles.
pub proof fn lemma_flatten_push(symbols: Seq<SymbolView>, symbol: SymbolView)
    ensures
        flatten(symbols.push(symbol)) == flatten(symbols) + symbol.tiles,
    decreases symbols.len(),
{
    if symbols.len() == 0 {
        assert(symbols.push(symbol).drop_first() =~= Seq::<SymbolView>::empty());
        assert(symbols.push(symbol).first() == symbol);
        assert(flatten(symbols.push(symbol).drop_first()) =~= Seq::<TileView>::empty());
        assert(flatten(symbols.push(symbol)) =~= symbol.tiles + Seq::<TileView>::empty());
        assert(flatten(symbols) + symbol.tiles =~= symbol.tiles);
        assert(symbol.tiles + Seq::<TileView>::empty() =~= symbol.tiles);
    } else {
        lemma_flatten_push(symbols.drop_first(), symbol);
        assert(symbols.push(symbol).drop_first() =~= symbols.drop_first().push(symbol));
        assert(symbols.push(symbol).first() == symbols.first());
        assert(flatten(symbols.push(symbol)) =~= flatten(symbols) + symbol.tiles);
    }
}

/// Cutting tiles into symbols loses nothing: the tiles of the symbols that
/// the tiles from `from` on form are those tiles again.
pub proof fn lemma_flatten_segment(tiles: Seq<TileView>, specs: Seq<Spec>, from: int)
    requires
        0 <= from <= tiles.len(),
        segment(tiles, specs, from) is Ok,
    ensures
        flatten(segment(tiles, specs, from)->Ok_0) == tiles.subrange(from, tiles.len() as int),
    decreases tiles.len() - from,
{
    if from >= tiles.len() {
        assert(tiles.subrange(from, tiles.len() as int) =~= Seq::<TileView>::empty());
    } else {
        let end = end_at(tiles, specs, from);
        let symbol = SymbolView::of_tiles(tiles.subrange(from, end))->Ok_0;
        let rest = segment(tiles, specs, end)->Ok_0;
        lemma_flatten_segment(tiles, specs, end);
        assert((seq![symbol] + rest).drop_first() =~= rest);
        assert(tiles.subrange(from, end) + tiles.subrange(end, tiles.len() as int)
            =~= tiles.subrange(from, tiles.len() as int));
    }
}

/// The symbols that tiles of one kind form are of that kind, and there is
/// one where there is a tile.
pub proof fn lemma_segment_kinds(
    tiles: Seq<TileView>,
    specs: Seq<Spec>,
    from: int,
    kind: crate::osd::tile::Kind,
)
    requires
        0 <= from <= tiles.len(),
        forall|i: int| 0 <= i < tiles.len() ==> (#[trigger] tiles[i]).kind == kind,
        segment(tiles, specs, from) is Ok,
    ensures
        forall|i: int|
            0 <= i < segment(tiles, specs, from)->Ok_0.len() ==> (#[trigger] segment(
                tiles,
                specs,
                from,
            )->Ok_0[i]).kind == kind,
        from < tiles.len() ==> segment(tiles, specs, from)->Ok_0.len() > 0,
    decreases tiles.len() - from,
{
    if from < tiles.len() {
        let end = end_at(tiles, specs, from);
        let run = tiles.subrange(from, end);
        let symbol = SymbolView::of_tiles(run)->Ok_0;
        let rest = segment(tiles, specs, end)->Ok_0;
        lemma_segment_kinds(tiles, specs, end, kind);
        assert(uniq_tile_kind::tile_kinds(run)[0] == run[0].kind);
        assert(run[0] == tiles[from]);
        let all = seq![symbol] + rest;
        assert forall|i: int| 0 <= i < all.len() implies (#[trigger] all[i]).kind == kind by {
            if i > 0 {
                assert(all[i] == rest[i - 1]);
            }
        }
    }
}

/// The tiles of well-formed symbols of one kind are of that kind, and there
/// is one where there is a symbol.
pub proof fn lemma_flatten_kinds(symbols: Seq<SymbolView>, kind: crate::osd::tile::Kind)
    requires
        forall|i: int|
            0 <= i < symbols.len() ==> (#[trigger] symbols[i]).wf() && symbols[i].kind == kind,
    ensures
        forall|i: int| 0 <= i < flatten(symbols).len() ==> (#[trigger] flatten(symbols)[i]).kind
            == kind,
        symbols.len() > 0 ==> flatten(symbols).len() > 0,
    decreases symbols.len(),
{
    if symbols.len() > 0 {
        lemma_flatten_kinds(symbols.drop_first(), kind);
        let first = symbols.first();
        let rest = flatten(symbols.drop_first());
        assert(first.wf() && first.kind == kind);
        assert forall|i: int| 0 <= i < flatten(symbols).len() implies (#[trigger] flatten(
            symbols,
        )[i]).kind == kind by {
            if i < first.tiles.len() {
                assert(flatten(symbols)[i] == first.tiles[i]);
            } else {
                assert(flatten(symbols)[i] == rest[i - first.tiles.len()]);
            }
        }
    }
}

/// Cutting tiles into symbols and taking the symbols apart gives the tiles
/// back, whatever the table says.
pub proof fn lemma_symbols_round_trip(tiles: Seq<TileView>, specs: Seq<Spec>)
    requires
        segment(tiles, specs, 0) is Ok,
    ensures
        flatten(segment(tiles, specs, 0)->Ok_0) == tiles,
{
    lemma_flatten_segment(tiles, specs, 0);
    assert(tiles.subrange(0, tiles.len() as int) =~= tiles);
}

/// A collection of symbols that can be taken apart into its tiles.
pub trait IntoTilesVec {
    /// The symbols of the collection, in order.
    spec fn spec_symbols(&self) -> Seq<SymbolView>;

    /// The tiles of all symbols, in order.
    fn into_tiles_vec(self) -> (r: Vec<Tile>)
        ensures
            r.deep_view() == flatten(self.spec_symbols()),
            forall|i: int|
                0 <= i < self.spec_symbols().len() ==> (#[trigger] self.spec_symbols()[i]).wf(),
    ;
}

impl IntoTilesVec for Vec<Symbol> {
    open spec fn spec_symbols(&self) -> Seq<SymbolView> {
        self.deep_view()
    }

    fn into_tiles_vec(self) -> (r: Vec<Tile>) {
        let mut tiles: Vec<Tile> = Vec::new();
        let mut i: usize = 0;
        assert(self.deep_view().take(0) =~= Seq::<SymbolView>::empty());
        while i < self.len()
            invariant
                i <= self.len(),
                tiles.deep_view() == flatten(self.deep_view().take(i as int)),
                forall|k: int| 0 <= k < i ==> (#[trigger] self.deep_view()[k]).wf(),
            decreases self.len() - i,
        {
            let symbol_tiles = self[i].tiles();
            assert(self.deep_view()[i as int] == self[i as int]@);
            let ghost before = tiles.deep_view();
            let mut j: usize = 0;
            while j < symbol_tiles.len()
                invariant
                    j <= symbol_tiles.len(),
                    tiles.deep_view() == before + symbol_tiles.deep_view().take(j as int),
                decreases symbol_tiles.len() - j,
            {
                let ghost prev = tiles.deep_view();
                tiles.push(symbol_tiles[j].clone());
                assert(tiles.deep_view() =~= prev.push(symbol_tiles.deep_view()[j as int]));
                assert(symbol_tiles.deep_view().take(j + 1) =~= symbol_tiles.deep_view().take(
                    j as int,
                ).push(symbol_tiles.deep_view()[j as int]));
                j += 1;
            }
            proof {
                assert(symbol_tiles.deep_view().take(j as int) =~= symbol_tiles.deep_view());
                lemma_flatten_push(self.deep_view().take(i as int), self.deep_view()[i as int]);
                assert(self.deep_view().take(i + 1) =~= self.deep_view().take(i as int).push(
                    self.deep_view()[i as int],
                ));
            }
            i += 1;
        }
        assert(self.deep_view().take(i as int) =~= self.deep_view());
        tiles
    }
}

/// A collection of tiles that can be cut into symbols.
pub trait ToSymbols {
    /// The tiles of the collection, in order.
    spec fn spec_tiles(&self) -> Seq<TileView>;

    /// The symbols that the tiles form, as the table says: see [`segment`].
    fn to_symbols(&self, specs: &SymbolSpecs) -> (r: Result<Vec<Symbol>, TileKindError>)
        ensures
            match segment(self.spec_tiles(), specs@, 0) {
                Ok(symbols) => r matches Ok(v) && v.deep_view() == symbols,
                Err(e) => r matches Err(err) && err == e,
            },
    ;
}

impl ToSymbols for Vec<Tile> {
    open spec fn spec_tiles(&self) -> Seq<TileView> {
        self.deep_view()
    }

    fn to_symbols(&self, specs: &SymbolSpecs) -> (r: Result<Vec<Symbol>, TileKindError>) {
        let ghost all = self.deep_view();
        let mut tile_index: usize = 0;
        let mut symbols: Vec<Symbol> = Vec::new();
        assert(symbols.deep_view() =~= Seq::<SymbolView>::empty());
        while tile_index < self.len()
            invariant
                tile_index <= self.len(),
                all == self.deep_view(),
                segment(all, specs@, 0) == (match segment(all, specs@, tile_index as int) {
                    Ok(rest) => Ok(symbols.deep_view() + rest),
                    Err(e) => Err(e),
                }),
            decreases self.len() - tile_index,
        {
            let span = match specs.find_start_index(tile_index) {
                Some(sym_spec) => sym_spec.span(),
                None => 1,
            };
            if span == 0 {
                return Err(TileKindError::EmptyContainer);
            }
            let end = if span <= self.len() - tile_index {
                tile_index + span
            } else {
                self.len()
            };
            assert(end == end_at(all, specs@, tile_index as int));
            let mut run: Vec<Tile> = Vec::new();
            let mut j: usize = tile_index;
            assert(run.deep_view() =~= all.subrange(tile_index as int, j as int));
            while j < end
                invariant
                    tile_index <= j <= end <= self.len(),
                    all == self.deep_view(),
                    run.deep_view() == all.subrange(tile_index as int, j as int),
                decreases end - j,
            {
                let ghost prev = run.deep_view();
                run.push(self[j].clone());
                assert(run.deep_view() =~= prev.push(all[j as int]));
                assert(all.subrange(tile_index as int, j + 1) =~= prev.push(all[j as int]));
                j += 1;
            }
            match Symbol::try_from(run) {
                Ok(symbol) => {
                    let ghost prev = symbols.deep_view();
                    symbols.push(symbol);
                    proof {
                        assert(symbols.deep_view() =~= prev.push(symbol@));
                        match segment(all, specs@, end as int) {
                            Ok(rest) => {
                                assert(prev + (seq![symbol@] + rest) =~= prev.push(symbol@)
                                    + rest);
                            },
                            Err(e) => {},
                        }
                    }
                },
                Err(e) => {
                    return Err(e);
                },
            }
            tile_index = end;
        }
        assert(symbols.deep_view() + Seq::<SymbolView>::empty() =~= symbols.deep_view());
        Ok(symbols)
    }
}

} // verus!
