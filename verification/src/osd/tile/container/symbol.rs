//! A symbol: one glyph that spans one or more consecutive tiles.

use crate::dimensions;
use crate::file::IOError;
use crate::image::image_read;
use crate::image::read_image_file;
use crate::image::Image;
use crate::image::ImageView;
use crate::image::ReadError as ImageReadError;
use crate::image::ReadErrorView as ImageReadErrorView;
use crate::osd::tile::InvalidHeightError;
use crate::outcome::result_view;
use crate::osd::tile::container::uniq_tile_kind::tile_kinds;
use crate::osd::tile::container::uniq_tile_kind::uniq_kind;
use crate::osd::tile::container::uniq_tile_kind::TileKindError;
use crate::osd::tile::container::uniq_tile_kind::UniqTileKind;
use crate::osd::tile::Kind as TileKind;
use crate::osd::tile::Tile;
use crate::osd::tile::TileView;
use vstd::prelude::*;

pub mod set;
pub mod spec;

verus! {

/// What a symbol is: the kind of its tiles, and the tiles from left to right.
pub struct SymbolView {
    pub kind: TileKind,
    pub tiles: Seq<TileView>,
}

impl SymbolView {
    /// A symbol has at least one tile, and its tiles are of its kind.
    pub open spec fn wf(self) -> bool {
        &&& self.tiles.len() > 0
        &&& forall|i: int| 0 <= i < self.tiles.len() ==> (#[trigger] self.tiles[i]).kind == self.kind
    }

    /// The symbol that a run of tiles forms, where there is at least one and
    /// they are of one kind.
    pub open spec fn of_tiles(tiles: Seq<TileView>) -> Result<SymbolView, TileKindError> {
        match uniq_kind(tile_kinds(tiles)) {
            Ok(kind) => Ok(SymbolView { kind, tiles }),
            Err(e) => Err(e),
        }
    }

    /// The symbol of a single tile.
    pub open spec fn of_tile(tile: TileView) -> SymbolView {
        SymbolView { kind: tile.kind, tiles: seq![tile] }
    }

    /// The width in pixels of the symbol's image: that of its tiles side by side.
    pub open spec fn image_width(self) -> nat {
        self.tiles.len() * self.kind.spec_width()
    }

    /// Whether the symbol's image can be made: its width must fit in 32 bits
    /// and its bytes in memory.
    pub open spec fn image_fits(self) -> bool {
        &&& self.image_width() <= u32::MAX
        &&& 4 * self.image_width() * self.kind.spec_height() <= usize::MAX
    }

    /// The byte in byte column `xb` of row `y` of the symbol's image with the
    /// first `drawn` tiles drawn: that of the tile that the column lies in, or
    /// zero to the right of the tiles drawn.
    pub open spec fn byte_partial(self, drawn: int, xb: int, y: int) -> u8 {
        let tile_stride = 4 * self.kind.spec_width() as int;
        if xb / tile_stride < drawn {
            self.tiles[xb / tile_stride].image().at(xb % tile_stride, y)
        } else {
            0u8
        }
    }

    /// The symbol's image with the first `drawn` tiles drawn, side by side
    /// from the left, and fully transparent to the right of them.
    pub open spec fn image_partial(self, drawn: int) -> ImageView {
        ImageView::from_fn(
            self.image_width(),
            self.kind.spec_height(),
            |xb: int, y: int| self.byte_partial(drawn, xb, y),
        )
    }

    /// The symbol's image: its tiles side by side, from the left.
    pub open spec fn image(self) -> ImageView {
        self.image_partial(self.tiles.len() as int)
    }

    /// Drawing the next tile to the right of those drawn so far.
    pub proof fn lemma_draw(self, i: int)
        requires
            0 <= i < self.tiles.len(),
            forall|j: int| 0 <= j < self.tiles.len() ==> (#[trigger] self.tiles[j]).kind == self.kind,
        ensures
            self.image_partial(i).blit(
                self.tiles[i].image(),
                (i * self.kind.spec_width()) as nat,
                0,
            ) == self.image_partial(i + 1),
    {
        let kind = self.kind;
        let before = self.image_partial(i);
        let after = self.image_partial(i + 1);
        let tile = self.tiles[i].image();
        let x = (i * kind.spec_width()) as nat;
        let drawn = before.blit(tile, x, 0);
        kind.lemma_sizes();
        ImageView::lemma_from_fn(
            self.image_width(),
            kind.spec_height(),
            |xb: int, y: int| self.byte_partial(i, xb, y),
        );
        ImageView::lemma_from_fn(
            self.image_width(),
            kind.spec_height(),
            |xb: int, y: int| self.byte_partial(i + 1, xb, y),
        );
        ImageView::lemma_from_fn(
            before.width,
            before.height,
            |xb: int, yy: int|
                if ImageView::in_rect(x, 0, tile.width, tile.height, xb, yy) {
                    tile.at(xb - 4 * x, yy - 0)
                } else {
                    before.at(xb, yy)
                },
        );
        assert forall|xb: int, yy: int|
            0 <= xb < drawn.stride() && 0 <= yy < drawn.height implies drawn.at(xb, yy)
            == after.at(xb, yy) by {
            let inside = ImageView::in_rect(x, 0, tile.width, tile.height, xb, yy);
            let tile_stride = 4 * kind.spec_width() as int;
            assert(tile.width == kind.spec_width() && tile.height == kind.spec_height());
            assert(4 * x == i * tile_stride) by (nonlinear_arith)
                requires
                    x == i * kind.spec_width(),
                    tile_stride == 4 * kind.spec_width(),
            ;
            crate::osd::tile::grid::lemma_cell_of(tile_stride, tile_stride, i, xb);
            vstd::arithmetic::div_mod::lemma_mod_bound(xb, tile_stride);
            assert(inside <==> xb / tile_stride == i);
        }
        ImageView::lemma_ext(drawn, after);
    }
}

/// Why a symbol could not be had from an image file.
#[derive(Debug)]
pub enum LoadError {
    ImageReadError(ImageReadError),
    /// The image has the height of no kind of tile.
    InvalidImageHeightError(InvalidHeightError),
    /// The image is not as wide as a whole number of tiles, at least one.
    InvalidImageWidthError { tile_kind: TileKind, image_width: u32 },
}

/// What a [`LoadError`] says.
pub enum LoadErrorView {
    ImageReadError(ImageReadErrorView),
    InvalidImageHeightError(InvalidHeightError),
    InvalidImageWidthError { tile_kind: TileKind, image_width: u32 },
}

impl View for LoadError {
    type V = LoadErrorView;

    open spec fn view(&self) -> LoadErrorView {
        match self {
            LoadError::ImageReadError(error) => LoadErrorView::ImageReadError(error@),
            LoadError::InvalidImageHeightError(error) => LoadErrorView::InvalidImageHeightError(
                *error,
            ),
            LoadError::InvalidImageWidthError { tile_kind, image_width } => {
                LoadErrorView::InvalidImageWidthError {
                    tile_kind: *tile_kind,
                    image_width: *image_width,
                }
            },
        }
    }
}

impl LoadError {
    /// Whether the symbol could not be had because its file does not exist.
    pub open spec fn spec_is_not_found(&self) -> bool {
        self matches LoadError::ImageReadError(e) && e.spec_is_not_found()
    }

    /// Whether the symbol could not be had because its file does not exist.
    pub fn is_not_found(&self) -> (r: bool)
        ensures
            r == self.spec_is_not_found(),
    {
        match self {
            LoadError::ImageReadError(e) => e.is_not_found(),
            _ => false,
        }
    }
}

pub type ImageDimensions = dimensions::Dimensions;

/// The tile at `index` of the image of a symbol of tiles of a kind.
pub open spec fn symbol_tile(image: ImageView, kind: TileKind, index: int) -> TileView {
    TileView {
        kind,
        pixels: image.crop(
            (index * kind.spec_width()) as nat,
            0,
            kind.spec_width(),
            kind.spec_height(),
        ).data,
    }
}

/// The symbol that an image holds: the height decides the kind of the
/// tiles, and the width must be that of a whole number of them, at least one.
pub open spec fn symbol_of_image(image: ImageView) -> Result<SymbolView, LoadErrorView> {
    match TileKind::spec_for_height(image.height as int) {
        Some(kind) => if image.width % kind.spec_width() != 0 || image.width == 0 {
            Err(
                LoadErrorView::InvalidImageWidthError {
                    tile_kind: kind,
                    image_width: image.width as u32,
                },
            )
        } else {
            Ok(
                SymbolView {
                    kind,
                    tiles: Seq::new(
                        image.width / kind.spec_width(),
                        |i: int| symbol_tile(image, kind, i),
                    ),
                },
            )
        },
        None => Err(
            LoadErrorView::InvalidImageHeightError(InvalidHeightError(image.height as u32)),
        ),
    }
}

/// The symbol in the image file at `path` with this content.
pub open spec fn symbol_loaded(path: Seq<char>, content: Result<Vec<u8>, IOError>) -> Result<
    SymbolView,
    LoadErrorView,
> {
    match image_read(path, content) {
        Ok(image) => symbol_of_image(image),
        Err(error) => Err(LoadErrorView::ImageReadError(error)),
    }
}

/// Writing a symbol as an image and reading the image gives the symbol back.
pub proof fn lemma_symbol_round_trip(symbol: SymbolView)
    requires
        symbol.wf(),
        symbol.image_width() <= u32::MAX,
        forall|i: int| 0 <= i < symbol.tiles.len() ==> (#[trigger] symbol.tiles[i]).wf(),
    ensures
        symbol_of_image(symbol.image()) == Ok::<SymbolView, LoadErrorView>(symbol),
{
    let kind = symbol.kind;
    let image = symbol.image();
    let span = symbol.tiles.len() as int;
    kind.lemma_sizes();
    ImageView::lemma_from_fn(
        symbol.image_width(),
        kind.spec_height(),
        |xb: int, y: int| symbol.byte_partial(span, xb, y),
    );
    let width = kind.spec_width() as int;
    assert(image.width == span * width);
    assert((span * width) % width == 0 && (span * width) / width == span && span * width > 0)
        by (nonlinear_arith)
        requires
            span > 0,
            width > 0,
    ;
    let read = symbol_of_image(image)->Ok_0;
    assert forall|i: int| 0 <= i < span implies symbol_tile(image, kind, i) == symbol.tiles[i] by {
        let x = (i * width) as nat;
        let cut = image.crop(x, 0, kind.spec_width(), kind.spec_height());
        let tile = symbol.tiles[i].image();
        assert(symbol.tiles[i].kind == kind);
        ImageView::lemma_from_fn(
            kind.spec_width(),
            kind.spec_height(),
            |xb: int, yy: int| image.at(4 * x + xb, 0 + yy),
        );
        assert(i * width + width <= span * width) by (nonlinear_arith)
            requires
                0 <= i < span,
                width > 0,
        ;
        assert forall|xb: int, yy: int|
            0 <= xb < cut.stride() && 0 <= yy < cut.height implies cut.at(xb, yy) == tile.at(
            xb,
            yy,
        ) by {
            let tile_stride = 4 * kind.spec_width() as int;
            assert(cut.at(xb, yy) == image.at(4 * x + xb, 0 + yy));
            assert(image.at(4 * x + xb, yy) == symbol.byte_partial(span, 4 * x + xb, yy));
            assert(4 * x == i * tile_stride) by (nonlinear_arith)
                requires
                    x == i * kind.spec_width(),
                    tile_stride == 4 * kind.spec_width(),
            ;
            crate::osd::tile::grid::lemma_cell_of(tile_stride, tile_stride, i, 4 * x + xb);
        }
        ImageView::lemma_ext(cut, tile);
    }
    assert(read.tiles =~= symbol.tiles);
}

/// One glyph: a run of one or more tiles of one kind.
#[derive(Debug)]
pub struct Symbol {
    tile_kind: TileKind,
    tiles: Vec<Tile>,
}

impl View for Symbol {
    type V = SymbolView;

    closed spec fn view(&self) -> SymbolView {
        SymbolView { kind: self.tile_kind, tiles: self.tiles.deep_view() }
    }
}

impl DeepView for Symbol {
    type V = SymbolView;

    open spec fn deep_view(&self) -> SymbolView {
        self@
    }
}

impl Symbol {
    /// What holds of every symbol: it has a tile, and its tiles are of its kind.
    #[verifier::type_invariant]
    pub open spec fn inv(self) -> bool {
        self@.wf()
    }

    /// The symbol of one fully transparent tile.
    pub fn new(tile_kind: TileKind) -> (r: Self)
        ensures
            r@ == SymbolView::of_tile(TileView::blank(tile_kind)),
    {
        let mut tiles: Vec<Tile> = Vec::new();
        tiles.push(Tile::new(tile_kind));
        let r = Symbol { tile_kind, tiles };
        assert(r@.tiles =~= seq![TileView::blank(tile_kind)]);
        r
    }

    /// The symbol that a run of tiles forms. There must be at least one tile,
    /// and the tiles must be of one kind.
    pub fn try_from(tiles: Vec<Tile>) -> (r: Result<Self, TileKindError>)
        ensures
            match SymbolView::of_tiles(tiles.deep_view()) {
                Ok(symbol) => r matches Ok(s) && s@ == symbol,
                Err(e) => r matches Err(err) && err == e,
            },
    {
        match tiles.tile_kind() {
            Ok(tile_kind) => {
                assert forall|i: int| 0 <= i < tiles.deep_view().len() implies (
                #[trigger] tiles.deep_view()[i]).kind == tile_kind by {
                    assert(tile_kinds(tiles.deep_view())[i] == tile_kind);
                }
                Ok(Symbol { tile_kind, tiles })
            },
            Err(e) => Err(e),
        }
    }

    /// The symbol of a single tile.
    pub fn from(tile: Tile) -> (r: Self)
        ensures
            r@ == SymbolView::of_tile(tile@),
    {
        let tile_kind = tile.kind();
        let mut tiles: Vec<Tile> = Vec::new();
        tiles.push(tile);
        let r = Symbol { tile_kind, tiles };
        assert(r@.tiles =~= seq![tile@]);
        r
    }

    pub fn tile_kind(&self) -> (r: TileKind)
        ensures
            r == self@.kind,
    {
        self.tile_kind
    }

    /// The number of tiles of the symbol.
    pub fn span(&self) -> (r: usize)
        ensures
            r == self@.tiles.len(),
            r > 0,
    {
        proof {
            use_type_invariant(self);
        }
        self.tiles.len()
    }

    /// The symbol's tiles, from left to right.
    pub fn tiles(&self) -> (r: &Vec<Tile>)
        ensures
            r.deep_view() == self@.tiles,
            self@.wf(),
    {
        proof {
            use_type_invariant(self);
        }
        &self.tiles
    }

    /// The symbol's tiles, from left to right.
    pub fn into_tiles(self) -> (r: Vec<Tile>)
        ensures
            r.deep_view() == self@.tiles,
            self@.wf(),
    {
        proof {
            use_type_invariant(&self);
        }
        self.tiles
    }

    /// The symbol in the image file at `path`, whose content is `content`.
    pub fn load_image_file(path: &str, content: &Result<Vec<u8>, IOError>) -> (r: Result<
        Self,
        LoadError,
    >)
        ensures
            result_view(r) == symbol_loaded(path@, *content),
    {
        let image = match read_image_file(path, content) {
            Ok(image) => image,
            Err(e) => {
                return Err(LoadError::ImageReadError(e));
            },
        };
        let (image_width, image_height) = image.dimensions();
        let tile_kind = match TileKind::for_height(image_height) {
            Ok(tile_kind) => tile_kind,
            Err(e) => {
                return Err(LoadError::InvalidImageHeightError(e));
            },
        };
        let tile_dimensions = tile_kind.dimensions();
        if image_width % tile_dimensions.width != 0 || image_width == 0 {
            return Err(LoadError::InvalidImageWidthError { tile_kind, image_width });
        }
        let span = image_width / tile_dimensions.width;
        let mut tiles: Vec<Tile> = Vec::new();
        let mut tile_index: u32 = 0;
        proof {
            tile_kind.lemma_sizes();
        }
        while tile_index < span
            invariant
                tile_index <= span,
                span == image_width / tile_dimensions.width,
                image_width % tile_dimensions.width == 0,
                tile_dimensions == tile_kind.spec_dimensions(),
                image@.width == image_width,
                image@.height == tile_kind.spec_height(),
                tiles.deep_view() == Seq::new(
                    tile_index as nat,
                    |i: int| symbol_tile(image@, tile_kind, i),
                ),
            decreases span - tile_index,
        {
            proof {
                tile_kind.lemma_sizes();
                assert(tile_index * tile_dimensions.width + tile_dimensions.width <= image_width)
                    by (nonlinear_arith)
                    requires
                        tile_index < span,
                        span == image_width / tile_dimensions.width,
                        image_width % tile_dimensions.width == 0,
                        tile_dimensions.width > 0,
                ;
            }
            let tile_x = tile_index * tile_dimensions.width;
            let tile_image = image.sub_image(
                tile_x,
                0,
                tile_dimensions.width,
                tile_dimensions.height,
            );
            let tile = Tile::try_from_image(tile_image).unwrap();
            let ghost prev = tiles.deep_view();
            tiles.push(tile);
            proof {
                assert(tile@ == symbol_tile(image@, tile_kind, tile_index as int));
                assert(tiles.deep_view() =~= prev.push(tile@));
                assert(tiles.deep_view() =~= Seq::new(
                    (tile_index + 1) as nat,
                    |i: int| symbol_tile(image@, tile_kind, i),
                ));
            }
            tile_index += 1;
        }
        assert(span >= 1) by (nonlinear_arith)
            requires
                span == image_width / tile_dimensions.width,
                image_width % tile_dimensions.width == 0,
                image_width > 0,
                tile_dimensions.width > 0,
        ;
        Ok(Symbol { tile_kind, tiles })
    }

    /// Whether the symbol's image can be made: see [`SymbolView::image_fits`].
    pub fn image_fits(&self) -> (r: bool)
        ensures
            r == self@.image_fits(),
    {
        proof {
            self.tile_kind.lemma_sizes();
        }
        let dimensions = self.tile_kind.dimensions();
        let span = self.tiles.len() as u128;
        assert(self@.tiles.len() == self.tiles.len());
        assert(span * dimensions.width <= 0x1_0000_0000_0000_0000 * 36) by (nonlinear_arith)
            requires
                0 <= span <= 0x1_0000_0000_0000_0000,
                0 <= dimensions.width <= 36,
        ;
        let width: u128 = span * dimensions.width as u128;
        assert(4 * width * dimensions.height <= 4 * (0x1_0000_0000_0000_0000 * 36) * 54)
            by (nonlinear_arith)
            requires
                0 <= width <= 0x1_0000_0000_0000_0000 * 36,
                0 <= dimensions.height <= 54,
        ;
        width <= u32::MAX as u128 && 4 * width * dimensions.height as u128 <= usize::MAX as u128
    }

    /// Width and height of the symbol's image.
    pub fn image_dimensions(&self) -> (r: ImageDimensions)
        requires
            self@.image_width() <= u32::MAX,
        ensures
            r.width == self@.image_width(),
            r.height == self@.kind.spec_height(),
    {
        proof {
            self.tile_kind.lemma_sizes();
            assert(self@.tiles.len() <= self@.tiles.len() * self.tile_kind.spec_width())
                by (nonlinear_arith)
                requires
                    self.tile_kind.spec_width() >= 1,
            ;
        }
        ImageDimensions {
            width: self.span() as u32 * self.tile_kind.dimensions().width,
            height: self.tile_kind.dimensions().height,
        }
    }

    /// The symbol's image: its tiles side by side.
    pub fn generate_image(&self) -> (r: Image)
        requires
            self@.image_fits(),
        ensures
            r@ == self@.image(),
    {
        proof {
            use_type_invariant(self);
            self.tile_kind.lemma_sizes();
        }
        let dimensions = self.image_dimensions();
        let tile_width = self.tile_kind.dimensions().width;
        let mut image = Image::new(dimensions.width, dimensions.height);
        let ghost symbol = self@;
        proof {
            let zero = ImageView::filled(
                dimensions.width as nat,
                dimensions.height as nat,
                seq![0u8, 0u8, 0u8, 0u8],
            );
            ImageView::lemma_from_fn(
                dimensions.width as nat,
                dimensions.height as nat,
                |xb: int, y: int| seq![0u8, 0u8, 0u8, 0u8][xb % 4],
            );
            ImageView::lemma_from_fn(
                symbol.image_width(),
                symbol.kind.spec_height(),
                |xb: int, y: int| symbol.byte_partial(0 as int, xb, y),
            );
            assert forall|xb: int, y: int|
                0 <= xb < zero.stride() && 0 <= y < zero.height implies zero.at(xb, y)
                == symbol.image_partial(0).at(xb, y) by {
                let tile_stride = 4 * symbol.kind.spec_width() as int;
                assert(0 <= xb / tile_stride);
            }
            ImageView::lemma_ext(zero, symbol.image_partial(0));
        }
        let mut index: usize = 0;
        while index < self.tiles.len()
            invariant
                index <= self.tiles.len(),
                symbol == self@,
                symbol.wf(),
                symbol.image_fits(),
                symbol.tiles.len() == self.tiles.len(),
                tile_width == symbol.kind.spec_width(),
                image@ == symbol.image_partial(index as int),
            decreases self.tiles.len() - index,
        {
            let tile = &self.tiles[index];
            let tile_image = tile.image();
            proof {
                symbol.kind.lemma_sizes();
                assert(symbol.tiles[index as int] == tile@);
                symbol.lemma_draw(index as int);
                assert(index * tile_width + tile_width <= symbol.tiles.len() * tile_width)
                    by (nonlinear_arith)
                    requires
                        index < symbol.tiles.len(),
                        tile_width >= 0,
                ;
                ImageView::lemma_from_fn(
                    symbol.image_width(),
                    symbol.kind.spec_height(),
                    |xb: int, y: int| symbol.byte_partial(index as int, xb, y),
                );
            }
            let x = index as u32 * tile_width;
            image.copy_from(tile_image, x, 0);
            index += 1;
        }
        image
    }

    /// The symbol's tiles, each a copy.
    pub fn clone_tiles(&self) -> (r: Vec<Tile>)
        ensures
            r.deep_view() == self@.tiles,
    {
        let mut tiles: Vec<Tile> = Vec::new();
        let mut i: usize = 0;
        while i < self.tiles.len()
            invariant
                i <= self.tiles.len(),
                tiles.deep_view() == self.tiles.deep_view().take(i as int),
            decreases self.tiles.len() - i,
        {
            let ghost prev = tiles.deep_view();
            tiles.push(self.tiles[i].clone());
            assert(tiles.deep_view() =~= prev.push(self.tiles.deep_view()[i as int]));
            assert(self.tiles.deep_view().take(i + 1) =~= prev.push(
                self.tiles.deep_view()[i as int],
            ));
            i += 1;
        }
        assert(self.tiles.deep_view().take(i as int) =~= self.tiles.deep_view());
        tiles
    }
}

impl Clone for Symbol {
    fn clone(&self) -> (r: Self)
        ensures
            r@ == self@,
    {
        proof {
            use_type_invariant(self);
        }
        Symbol { tile_kind: self.tile_kind, tiles: self.clone_tiles() }
    }
}

/// The kinds of a sequence of symbols, in order.
pub open spec fn symbol_kinds(symbols: Seq<SymbolView>) -> Seq<TileKind> {
    Seq::new(symbols.len(), |i: int| symbols[i].kind)
}

impl UniqTileKind for Vec<Symbol> {
    open spec fn spec_kinds(&self) -> Seq<TileKind> {
        symbol_kinds(self.deep_view())
    }

    fn tile_kind(&self) -> (r: Result<TileKind, TileKindError>) {
        if self.len() == 0 {
            return Err(TileKindError::EmptyContainer);
        }
        let first = self[0].tile_kind();
        let mut i: usize = 1;
        while i < self.len()
            invariant
                1 <= i <= self.len(),
                first == self.spec_kinds()[0],
                forall|j: int| 0 <= j < i ==> self.spec_kinds()[j] == first,
            decreases self.len() - i,
        {
            if self[i].tile_kind() != first {
                assert(self.spec_kinds()[i as int] != self.spec_kinds()[0]);
                return Err(TileKindError::MultipleTileKinds);
            }
            i += 1;
        }
        Ok(first)
    }
}

} // verus!
