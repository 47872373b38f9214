//! The one kind that the tiles of a collection share.

use crate::osd::tile::Kind as TileKind;
use crate::osd::tile::Tile;
use crate::osd::tile::TileView;
use vstd::prelude::*;

verus! {

/// Why a collection has no kind, or the wrong one.
#[derive(PartialEq, Eq, Structural, Debug, Clone, Copy)]
pub enum TileKindError {
    /// The collection is empty.
    EmptyContainer,
    /// The collection holds tiles of both kinds.
    MultipleTileKinds,
    /// The collection is of one kind where the other was asked for.
    LoadedDoesNotMatchRequested { requested: TileKind, loaded: TileKind },
}

/// The kind that all of `kinds` are, where there is at least one and they
/// are all the same.
pub open spec fn uniq_kind(kinds: Seq<TileKind>) -> Result<TileKind, TileKindError> {
    if kinds.len() == 0 {
        Err(TileKindError::EmptyContainer)
    } else if forall|i: int| 0 <= i < kinds.len() ==> #[trigger] kinds[i] == kinds.first() {
        Ok(kinds.first())
    } else {
        Err(TileKindError::MultipleTileKinds)
    }
}

/// The kinds of a sequence of tiles, in order.
pub open spec fn tile_kinds(tiles: Seq<TileView>) -> Seq<TileKind> {
    Seq::new(tiles.len(), |i: int| tiles[i].kind)
}

/// That a collection is of the expected kind, or why it is not.
pub open spec fn checked_kind(kinds: Seq<TileKind>, expected: TileKind) -> Result<
    (),
    TileKindError,
> {
    match uniq_kind(kinds) {
        Ok(kind) => if kind == expected {
            Ok(())
        } else {
            Err(TileKindError::LoadedDoesNotMatchRequested { requested: expected, loaded: kind })
        },
        Err(e) => Err(e),
    }
}

/// A collection whose items each have a kind.
pub trait UniqTileKind {
    /// The kinds of the items, in order.
    spec fn spec_kinds(&self) -> Seq<TileKind>;

    /// The kind that all items share. An empty collection has none, and
    /// neither has one that holds both kinds.
    fn tile_kind(&self) -> (r: Result<TileKind, TileKindError>)
        ensures
            r == uniq_kind(self.spec_kinds()),
    ;
}

impl UniqTileKind for Vec<Tile> {
    open spec fn spec_kinds(&self) -> Seq<TileKind> {
        tile_kinds(self.deep_view())
    }

    fn tile_kind(&self) -> (r: Result<TileKind, TileKindError>) {
        if self.len() == 0 {
            return Err(TileKindError::EmptyContainer);
        }
        let first = self[0].kind();
        let mut i: usize = 1;
        while i < self.len()
            invariant
                1 <= i <= self.len(),
                first == self.spec_kinds()[0],
                forall|j: int| 0 <= j < i ==> self.spec_kinds()[j] == first,
            decreases self.len() - i,
        {
            if self[i].kind() != first {
                assert(self.spec_kinds()[i as int] != self.spec_kinds()[0]);
                return Err(TileKindError::MultipleTileKinds);
            }
            i += 1;
        }
        Ok(first)
    }
}

} // verus!
