//! Converting a bin file into another format and back gives the bin file
//! again.
//!
//! The laws here speak of tiles and of images. What the PNG encoder makes of
//! an image, and the decoder of a file, is outside of them.

use crate::image::ImageView;
use crate::osd::avatar_file::avatar_image;
use crate::osd::avatar_file::lemma_avatar_kind_inference;
use crate::osd::avatar_file::lemma_avatar_round_trip;
use crate::osd::bin_file::bin_tiles;
use crate::osd::bin_file::blank_bytes;
use crate::osd::bin_file::lemma_bin_file_round_trip;
use crate::osd::bin_file::tiles_bytes;
use crate::osd::bin_file::wf_tiles_of_kind;
use crate::osd::tile::container::end_at;
use crate::osd::tile::container::flatten;
use crate::osd::tile::container::lemma_symbols_round_trip;
use crate::osd::tile::container::save_to_bin_file::bin_saved;
use crate::osd::tile::container::save_to_bin_file::SaveTilesToBinFileErrorView;
use crate::osd::tile::container::segment;
use crate::osd::tile::container::symbol::lemma_symbol_round_trip;
use crate::osd::tile::container::symbol::spec::Spec;
use crate::osd::tile::container::symbol::symbol_of_image;
use crate::osd::tile::container::symbol::LoadErrorView as SymbolLoadErrorView;
use crate::osd::tile::container::symbol::SymbolView;
use crate::osd::tile::container::tile_set::lemma_tiles_uniform;
use crate::osd::tile::container::uniq_tile_kind::tile_kinds;
use crate::osd::tile::container::uniq_tile_kind::uniq_kind;
use crate::osd::tile::grid::grid_height;
use crate::osd::tile::grid::grid_image;
use crate::osd::tile::grid::grid_image_height;
use crate::osd::tile::grid::grid_image_partial;
use crate::osd::tile::grid::grid_image_width;
use crate::osd::tile::grid::grid_byte;
use crate::osd::tile::grid::grid_tiles;
use crate::osd::tile::grid::image_dimensions_of;
use crate::osd::tile::grid::kind_and_grid_height;
use crate::osd::tile::grid::lemma_grid_kind_inference;
use crate::osd::tile::grid::lemma_grid_round_trip;
use crate::osd::tile::grid::lemma_grid_sizes;
use crate::osd::tile::Kind as TileKind;
use crate::osd::tile::TileView;
use vstd::prelude::*;

verus! {

/// The 256 tiles of a bin file, written as a bin file, give the file again.
pub proof fn lemma_bin_to_bin(data: Seq<u8>, kind: TileKind)
    requires
        data.len() == kind.spec_bin_file_size_bytes(),
    ensures
        bin_saved(bin_tiles(data, kind, 0)) == Ok::<Seq<u8>, SaveTilesToBinFileErrorView>(data),
{
    let tiles = bin_tiles(data, kind, 0);
    lemma_bin_file_round_trip(data, kind);
    assert forall|i: int| 0 <= i < tiles.len() implies (#[trigger] tiles[i]).kind == kind by {}
    lemma_tiles_uniform(tiles, kind);
    assert(tile_kinds(tiles).first() == tiles[0].kind);
    assert(uniq_kind(tile_kinds(tiles)) == Ok::<
        TileKind,
        crate::osd::tile::container::uniq_tile_kind::TileKindError,
    >(kind));
    assert(blank_bytes(kind, 0) =~= Seq::<u8>::empty());
    assert(tiles_bytes(tiles) + Seq::<u8>::empty() =~= data);
}

/// A bin file turned into a grid image and the grid image turned into a bin
/// file gives the bin file again: the grid image has the dimensions from
/// which its kind and its 16 rows are found, and it holds the tiles of the
/// bin file.
pub proof fn lemma_bin_grid_bin(data: Seq<u8>, kind: TileKind)
    requires
        data.len() == kind.spec_bin_file_size_bytes(),
    ensures
        kind_and_grid_height(image_dimensions_of(grid_image(bin_tiles(data, kind, 0), kind)))
            == Some((kind, 16nat)),
        grid_tiles(grid_image(bin_tiles(data, kind, 0), kind), kind, 16) == bin_tiles(
            data,
            kind,
            0,
        ),
        bin_saved(grid_tiles(grid_image(bin_tiles(data, kind, 0), kind), kind, 16)) == Ok::<
            Seq<u8>,
            SaveTilesToBinFileErrorView,
        >(data),
{
    let tiles = bin_tiles(data, kind, 0);
    lemma_bin_file_round_trip(data, kind);
    lemma_bin_to_bin(data, kind);
    assert(grid_height(256) == 16);
    lemma_grid_round_trip(tiles, kind);
    lemma_grid_sizes(kind, 16);
    lemma_grid_kind_inference(kind, 16);
    ImageView::lemma_from_fn(
        grid_image_width(kind),
        grid_image_height(kind, 16),
        |xb: int, y: int| grid_byte(tiles.take(tiles.len() as int), kind, xb, y),
    );
    assert(grid_image(tiles, kind) == grid_image_partial(tiles, kind, 256));
}

/// A bin file turned into an avatar image and the avatar image turned into
/// a bin file gives the bin file again: the avatar image has the dimensions
/// from which its kind is found, and its bytes are those of the bin file.
pub proof fn lemma_bin_avatar_bin(data: Seq<u8>, kind: TileKind)
    requires
        data.len() == kind.spec_bin_file_size_bytes(),
    ensures
        TileKind::spec_for_avatar_image_dimensions(
            image_dimensions_of(avatar_image(bin_tiles(data, kind, 0), kind)),
        ) == Some(kind),
        avatar_image(bin_tiles(data, kind, 0), kind).data == data,
        bin_tiles(avatar_image(bin_tiles(data, kind, 0), kind).data, kind, 0) == bin_tiles(
            data,
            kind,
            0,
        ),
{
    let tiles = bin_tiles(data, kind, 0);
    lemma_bin_file_round_trip(data, kind);
    lemma_avatar_round_trip(tiles, kind);
    kind.lemma_sizes();
    lemma_avatar_kind_inference(kind, image_dimensions_of(avatar_image(tiles, kind)));
}

/// The symbols that well-formed tiles of one kind form are well formed, and
/// so are their tiles.
pub proof fn lemma_segment_wf(tiles: Seq<TileView>, specs: Seq<Spec>, from: int, kind: TileKind)
    requires
        0 <= from <= tiles.len(),
        wf_tiles_of_kind(tiles, kind),
        segment(tiles, specs, from) is Ok,
    ensures
        forall|i: int|
            0 <= i < segment(tiles, specs, from)->Ok_0.len() ==> {
                let symbol = #[trigger] segment(tiles, specs, from)->Ok_0[i];
                &&& symbol.wf()
                &&& symbol.kind == kind
                &&& symbol.tiles.len() <= tiles.len()
                &&& wf_tiles_of_kind(symbol.tiles, kind)
            },
    decreases tiles.len() - from,
{
    if from < tiles.len() {
        let end = end_at(tiles, specs, from);
        let run = tiles.subrange(from, end);
        let symbol = SymbolView::of_tiles(run)->Ok_0;
        let rest = segment(tiles, specs, end)->Ok_0;
        lemma_segment_wf(tiles, specs, end, kind);
        assert(tile_kinds(run).first() == run[0].kind);
        assert(run[0] == tiles[from]);
        assert forall|j: int| 0 <= j < run.len() implies (#[trigger] run[j]).kind == kind
            && run[j].wf() by {
            assert(run[j] == tiles[from + j]);
        }
        let all = seq![symbol] + rest;
        assert forall|i: int| 0 <= i < all.len() implies {
            let s = #[trigger] all[i];
            &&& s.wf()
            &&& s.kind == kind
            &&& s.tiles.len() <= tiles.len()
            &&& wf_tiles_of_kind(s.tiles, kind)
        } by {
            if i > 0 {
                assert(all[i] == rest[i - 1]);
            }
        }
    }
}

/// A bin file cut into symbols, each symbol written as an image and read
/// again, and the symbols taken apart gives the bin file again, whatever
/// the table of symbols says, as long as the tiles can be cut by it.
pub proof fn lemma_bin_symbols_bin(data: Seq<u8>, kind: TileKind, specs: Seq<Spec>)
    requires
        data.len() == kind.spec_bin_file_size_bytes(),
        segment(bin_tiles(data, kind, 0), specs, 0) is Ok,
    ensures
        forall|i: int|
            0 <= i < segment(bin_tiles(data, kind, 0), specs, 0)->Ok_0.len() ==> symbol_of_image(
                (#[trigger] segment(bin_tiles(data, kind, 0), specs, 0)->Ok_0[i]).image(),
            ) == Ok::<SymbolView, SymbolLoadErrorView>(
                segment(bin_tiles(data, kind, 0), specs, 0)->Ok_0[i],
            ),
        bin_saved(flatten(segment(bin_tiles(data, kind, 0), specs, 0)->Ok_0)) == Ok::<
            Seq<u8>,
            SaveTilesToBinFileErrorView,
        >(data),
{
    let tiles = bin_tiles(data, kind, 0);
    let symbols = segment(tiles, specs, 0)->Ok_0;
    lemma_bin_file_round_trip(data, kind);
    lemma_bin_to_bin(data, kind);
    lemma_symbols_round_trip(tiles, specs);
    lemma_segment_wf(tiles, specs, 0, kind);
    kind.lemma_sizes();
    assert forall|i: int| 0 <= i < symbols.len() implies symbol_of_image(
        (#[trigger] symbols[i]).image(),
    ) == Ok::<SymbolView, SymbolLoadErrorView>(symbols[i]) by {
        let symbol = symbols[i];
        assert(symbol.tiles.len() <= 256);
        assert(symbol.tiles.len() * kind.spec_width() <= 256 * 36) by (nonlinear_arith)
            requires
                symbol.tiles.len() <= 256,
                kind.spec_width() <= 36,
        ;
        lemma_symbol_round_trip(symbol);
    }
}

} // verus!
