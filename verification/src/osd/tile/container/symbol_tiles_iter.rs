//! The tiles of a sequence of symbols, one after the other.

use crate::osd::tile::container::flatten;
use crate::osd::tile::container::lemma_flatten_push;
use crate::osd::tile::container::symbol::Symbol;
use crate::osd::tile::container::symbol::SymbolView;
use crate::osd::tile::Tile;
use vstd::prelude::*;

verus! {

/// A walk over the tiles of a sequence of symbols.
pub struct SymbolTilesIter<'a> {
    symbols: &'a Vec<Symbol>,
    symbol_index: usize,
    symbol_tile_index: usize,
}

/// What a walk is: the symbols, and the number of tiles handed out so far.
pub struct SymbolTilesIterView {
    pub symbols: Seq<SymbolView>,
    pub done: nat,
}

impl<'a> View for SymbolTilesIter<'a> {
    type V = SymbolTilesIterView;

    closed spec fn view(&self) -> SymbolTilesIterView {
        SymbolTilesIterView {
            symbols: self.symbols.deep_view(),
            done: (flatten(self.symbols.deep_view().take(self.symbol_index as int)).len()
                + self.symbol_tile_index) as nat,
        }
    }
}

impl<'a> SymbolTilesIter<'a> {
    /// What holds of every walk: it stands at a tile of a symbol, or at the end.
    #[verifier::type_invariant]
    pub closed spec fn inv(self) -> bool {
        &&& self.symbol_index <= self.symbols@.len()
        &&& self.symbol_index < self.symbols@.len() ==> self.symbol_tile_index
            < self.symbols.deep_view()[self.symbol_index as int].tiles.len()
        &&& self.symbol_index == self.symbols@.len() ==> self.symbol_tile_index == 0
    }

    /// A walk that stands at the first tile of the first symbol.
    pub fn new(symbols: &'a Vec<Symbol>) -> (r: Self)
        ensures
            r@ == (SymbolTilesIterView { symbols: symbols.deep_view(), done: 0 }),
    {
        if symbols.len() > 0 {
            let first = &symbols[0];
            let span = first.span();
            assert(symbols.deep_view()[0] == first@);
        }
        assert(symbols.deep_view().take(0) =~= Seq::<SymbolView>::empty());
        SymbolTilesIter { symbols, symbol_index: 0, symbol_tile_index: 0 }
    }

    /// The next tile, or `None` once all tiles have been handed out.
    pub fn next(&mut self) -> (r: Option<&'a Tile>)
        ensures
            final(self)@.symbols == old(self)@.symbols,
            old(self)@.done < flatten(old(self)@.symbols).len() ==> final(self)@.done == old(self)@.done + 1 && (r matches Some(tile) && tile@ == flatten(old(self)@.symbols)[old(self)@.done as int]),
            old(self)@.done >= flatten(old(self)@.symbols).len() ==> r is None && final(self)@
                == old(self)@,
    {
        proof {
            use_type_invariant(&*self);
        }
        let ghost all = self.symbols.deep_view();
        let ghost index = self.symbol_index as int;
        if self.symbol_index == self.symbols.len() {
            assert(all.take(index) =~= all);
            return None;
        }
        let symbol = &self.symbols[self.symbol_index];
        let symbol_tiles = symbol.tiles();
        let tile = &symbol_tiles[self.symbol_tile_index];
        proof {
            assert(all[index] == symbol@);
            lemma_flatten_push(all.take(index), all[index]);
            assert(all.take(index + 1) =~= all.take(index).push(all[index]));
            lemma_flatten_prefix(all, index + 1);
            assert(symbol_tiles.deep_view()[self.symbol_tile_index as int] == tile@);
            let before = flatten(all.take(index));
            let upto = flatten(all.take(index + 1));
            let t = self.symbol_tile_index as int;
            assert(upto == before + all[index].tiles);
            assert(upto[before.len() + t] == all[index].tiles[t]);
            assert(flatten(all).take(upto.len() as int)[before.len() + t] == flatten(
                all,
            )[before.len() + t]);
        }
        if self.symbol_tile_index == symbol_tiles.len() - 1 {
            let next_index = self.symbol_index + 1;
            if next_index < self.symbols.len() {
                let next = &self.symbols[next_index];
                let next_span = next.span();
                assert(all[next_index as int] == next@);
            }
            self.symbol_tile_index = 0;
            self.symbol_index = next_index;
        } else {
            self.symbol_tile_index = self.symbol_tile_index + 1;
        }
        Some(tile)
    }
}

/// The tiles of the first symbols are the first of the tiles of all symbols.
pub proof fn lemma_flatten_prefix(symbols: Seq<SymbolView>, count: int)
    requires
        0 <= count <= symbols.len(),
    ensures
        flatten(symbols.take(count)).len() <= flatten(symbols).len(),
        flatten(symbols.take(count)) == flatten(symbols).take(
            flatten(symbols.take(count)).len() as int,
        ),
    decreases symbols.len() - count,
{
    if count < symbols.len() {
        lemma_flatten_prefix(symbols, count + 1);
        lemma_flatten_push(symbols.take(count), symbols[count]);
        assert(symbols.take(count + 1) =~= symbols.take(count).push(symbols[count]));
        let shorter = flatten(symbols.take(count));
        let longer = flatten(symbols.take(count + 1));
        assert(shorter =~= longer.take(shorter.len() as int));
        assert(shorter =~= flatten(symbols).take(shorter.len() as int));
    } else {
        assert(symbols.take(count) =~= symbols);
        assert(flatten(symbols).take(flatten(symbols).len() as int) =~= flatten(symbols));
    }
}

/// A collection of symbols whose tiles can be walked.
pub trait IntoSymbolsTilesIter {
    /// The symbols of the collection, in order.
    spec fn spec_symbols_of_iter(&self) -> Seq<SymbolView>;

    /// A walk over the tiles of the symbols.
    fn tiles_iter(&self) -> (r: SymbolTilesIter<'_>)
        ensures
            r@ == (SymbolTilesIterView { symbols: self.spec_symbols_of_iter(), done: 0 }),
    ;
}

impl IntoSymbolsTilesIter for Vec<Symbol> {
    open spec fn spec_symbols_of_iter(&self) -> Seq<SymbolView> {
        self.deep_view()
    }

    fn tiles_iter(&self) -> (r: SymbolTilesIter<'_>) {
        SymbolTilesIter::new(self)
    }
}

/// A collection of symbols whose tiles can be had without taking the
/// symbols apart.
pub trait AsTilesVec {
    /// The symbols of the collection, in order.
    spec fn spec_symbols_of_tiles(&self) -> Seq<SymbolView>;

    /// The tiles of all symbols, in order.
    fn as_tiles_vec(&self) -> (r: Vec<&Tile>)
        ensures
            r.deep_view() == flatten(self.spec_symbols_of_tiles()),
    ;
}

impl AsTilesVec for Vec<Symbol> {
    open spec fn spec_symbols_of_tiles(&self) -> Seq<SymbolView> {
        self.deep_view()
    }

    fn as_tiles_vec(&self) -> (r: Vec<&Tile>) {
        let mut tiles: Vec<&Tile> = Vec::new();
        let mut walk = self.tiles_iter();
        let ghost all = flatten(self.deep_view());
        assert(tiles.deep_view() =~= all.take(0));
        loop
            invariant
                all == flatten(self.deep_view()),
                walk@.symbols == self.deep_view(),
                walk@.done <= all.len(),
                tiles.deep_view() == all.take(walk@.done as int),
            decreases all.len() - walk@.done,
        {
            let ghost done = walk@.done as int;
            match walk.next() {
                Some(tile) => {
                    let ghost before = tiles.deep_view();
                    tiles.push(tile);
                    assert(tiles.deep_view() =~= before.push(tile@));
                    assert(all.take(done + 1) =~= before.push(all[done]));
                },
                None => {
                    assert(all.take(done) =~= all);
                    return tiles;
                },
            }
        }
    }
}

} // verus!
