//! The grid image: the tiles of a collection laid out in rows of 16, with a
//! border of two pixels between neighbours, on opaque black.

use crate::create_path::CreatePathError;
use crate::dimensions;
use crate::file::IOError;
use crate::image::image_read;
use crate::image::image_written;
use crate::image::read_image_file;
use crate::image::Image;
use crate::image::ImageView;
use crate::image::ReadError as ImageLoadError;
use crate::image::ReadErrorView as ImageLoadErrorView;
use crate::image::WriteError as ImageWriteError;
use crate::image::WriteErrorView as ImageWriteErrorView;
use crate::osd::bin_file::ident_suffix;
use crate::osd::bin_file::ident_view;
use crate::osd::tile::container::tile_set::TileSet;
use crate::osd::tile::container::tile_set::TileSetView;
use crate::osd::tile::container::uniq_tile_kind::checked_kind;
use crate::osd::tile::container::uniq_tile_kind::tile_kinds;
use crate::osd::tile::container::uniq_tile_kind::uniq_kind;
use crate::osd::tile::container::uniq_tile_kind::TileKindError;
use crate::osd::tile::container::uniq_tile_kind::UniqTileKind;
use crate::osd::tile::Kind as TileKind;
use crate::osd::tile::Tile;
use crate::osd::tile::TileView;
use crate::outcome::result_view;
use crate::path::spec_join;
use vstd::prelude::*;
use vstd::string::StringExecFns;

verus! {

/// The image has the dimensions of no grid of tiles.
#[derive(PartialEq, Eq, Structural, Debug, Clone, Copy)]
pub struct InvalidImageDimensionsError;

/// Why a grid could not be had from an image file.
#[derive(Debug)]
pub enum LoadError {
    ImageLoadError(ImageLoadError),
    InvalidImageDimensions(InvalidImageDimensionsError),
    TileKindError(TileKindError),
}

/// What a [`LoadError`] says.
pub enum LoadErrorView {
    ImageLoadError(ImageLoadErrorView),
    InvalidImageDimensions(InvalidImageDimensionsError),
    TileKindError(TileKindError),
}

impl View for LoadError {
    type V = LoadErrorView;

    open spec fn view(&self) -> LoadErrorView {
        match self {
            LoadError::ImageLoadError(error) => LoadErrorView::ImageLoadError(error@),
            LoadError::InvalidImageDimensions(error) => LoadErrorView::InvalidImageDimensions(
                *error,
            ),
            LoadError::TileKindError(error) => LoadErrorView::TileKindError(*error),
        }
    }
}

/// Why a grid could not be written as an image file.
#[derive(Debug)]
pub enum SaveImageError {
    /// The directory for the file could not be created. The library creates
    /// no directory and never returns this; it is for those who do.
    CreatePathError(CreatePathError),
    ImageWriteError(ImageWriteError),
    TileKindError(TileKindError),
}

/// What a [`SaveImageError`] says.
pub enum SaveImageErrorView {
    CreatePathError { path: Seq<char>, error: IOError },
    ImageWriteError(ImageWriteErrorView),
    TileKindError(TileKindError),
}

impl View for SaveImageError {
    type V = SaveImageErrorView;

    open spec fn view(&self) -> SaveImageErrorView {
        match self {
            SaveImageError::CreatePathError(error) => SaveImageErrorView::CreatePathError {
                path: error.path@,
                error: error.error,
            },
            SaveImageError::ImageWriteError(error) => SaveImageErrorView::ImageWriteError(error@),
            SaveImageError::TileKindError(error) => SaveImageErrorView::TileKindError(*error),
        }
    }
}

pub type ImageDimensions = dimensions::Dimensions;

/// The number of tiles in a row of the grid.
pub const WIDTH: usize = 16;

/// The width in pixels of the border between two tiles.
pub const SEPARATOR_THICKNESS: u32 = 2;

/// The width of the grid image of tiles of a kind: 16 tiles and 15 borders.
pub open spec fn grid_image_width(kind: TileKind) -> nat {
    16 * kind.spec_width() + 15 * 2
}

/// The height of the grid image of `grid_height` rows of tiles of a kind:
/// the rows and the borders between them.
pub open spec fn grid_image_height(kind: TileKind, grid_height: nat) -> nat {
    if grid_height == 0 {
        0
    } else {
        (grid_height * kind.spec_height() + (grid_height - 1) * 2) as nat
    }
}

/// The number of rows that `len` tiles fill, the last perhaps in part.
pub open spec fn grid_height(len: nat) -> nat {
    (len + 15) / 16
}

/// The number of rows of tiles of a kind in a grid image of a height, where
/// the height is that of a whole number of rows, at least one.
pub open spec fn grid_rows(kind: TileKind, height: nat) -> Option<nat> {
    if height >= kind.spec_height() && (height - kind.spec_height()) % (kind.spec_height() + 2)
        as int == 0 {
        Some(((height - kind.spec_height()) / (kind.spec_height() + 2) as int + 1) as nat)
    } else {
        None
    }
}

/// The kind of the tiles and the number of their rows in a grid image of
/// these dimensions. The width decides the kind.
pub open spec fn kind_and_grid_height(dimensions: ImageDimensions) -> Option<(TileKind, nat)> {
    if dimensions.width == grid_image_width(TileKind::SD) {
        match grid_rows(TileKind::SD, dimensions.height as nat) {
            Some(rows) => Some((TileKind::SD, rows)),
            None => None,
        }
    } else if dimensions.width == grid_image_width(TileKind::HD) {
        match grid_rows(TileKind::HD, dimensions.height as nat) {
            Some(rows) => Some((TileKind::HD, rows)),
            None => None,
        }
    } else {
        None
    }
}

/// The pixel column of the left edge of the tiles in column `x` of the grid.
pub open spec fn cell_x(kind: TileKind, x: int) -> int {
    x * (kind.spec_width() + 2)
}

/// The pixel row of the top edge of the tiles in row `y` of the grid.
pub open spec fn cell_y(kind: TileKind, y: int) -> int {
    y * (kind.spec_height() + 2)
}

/// The byte of the grid image of `tiles` in byte column `xb` of pixel row
/// `y`: that of the tile whose cell the position lies in, or opaque black
/// on a border and in a cell that has no tile.
pub open spec fn grid_byte(tiles: Seq<TileView>, kind: TileKind, xb: int, y: int) -> u8 {
    let cell_width = 4 * (kind.spec_width() + 2) as int;
    let cell_height = (kind.spec_height() + 2) as int;
    let index = (y / cell_height) * 16 + xb / cell_width;
    if xb % cell_width < 4 * kind.spec_width() && y % cell_height < kind.spec_height() && index
        < tiles.len() {
        tiles[index].image().at(xb % cell_width, y % cell_height)
    } else if xb % 4 == 3 {
        255
    } else {
        0
    }
}

/// The grid image of the first `drawn` of `tiles`, of the size that holds all of them.
pub open spec fn grid_image_partial(tiles: Seq<TileView>, kind: TileKind, drawn: int) -> ImageView {
    ImageView::from_fn(
        grid_image_width(kind),
        grid_image_height(kind, grid_height(tiles.len())),
        |xb: int, y: int| grid_byte(tiles.take(drawn), kind, xb, y),
    )
}

/// The grid image of `tiles`, which are of kind `kind`.
pub open spec fn grid_image(tiles: Seq<TileView>, kind: TileKind) -> ImageView {
    grid_image_partial(tiles, kind, tiles.len() as int)
}

/// The tile at `index` of a grid image of tiles of a kind.
pub open spec fn grid_tile(image: ImageView, kind: TileKind, index: int) -> TileView {
    TileView {
        kind,
        pixels: image.crop(
            cell_x(kind, index % 16) as nat,
            cell_y(kind, index / 16) as nat,
            kind.spec_width(),
            kind.spec_height(),
        ).data,
    }
}

/// The tiles of a grid image of `grid_height` rows of tiles of a kind, row by row.
pub open spec fn grid_tiles(image: ImageView, kind: TileKind, grid_height: nat) -> Seq<TileView> {
    Seq::new(16 * grid_height, |i: int| grid_tile(image, kind, i))
}

/// Whether the grid image of `len` tiles can be made: its height must fit in
/// 32 bits and its bytes in memory. This is asked of SD tiles, the larger kind.
pub open spec fn grid_image_fits(len: nat) -> bool {
    &&& grid_image_height(TileKind::SD, grid_height(len)) <= u32::MAX
    &&& 4 * grid_image_width(TileKind::SD) * grid_image_height(TileKind::SD, grid_height(len))
        <= usize::MAX
}

/// The tiles are all of one kind.
pub open spec fn tiles_of_kind(tiles: Seq<TileView>, kind: TileKind) -> bool {
    forall|i: int| 0 <= i < tiles.len() ==> (#[trigger] tiles[i]).kind == kind
}

/// The sizes of the grid image of a kind, worked out.
pub proof fn lemma_grid_sizes(kind: TileKind, rows: nat)
    ensures
        kind == TileKind::SD ==> grid_image_width(kind) == 606 && (rows >= 1
            ==> grid_image_height(kind, rows) == rows * 56 - 2),
        kind == TileKind::HD ==> grid_image_width(kind) == 414 && (rows >= 1
            ==> grid_image_height(kind, rows) == rows * 38 - 2),
        grid_image_width(kind) <= grid_image_width(TileKind::SD),
        grid_image_height(kind, rows) <= grid_image_height(TileKind::SD, rows),
{
    kind.lemma_sizes();
    TileKind::SD.lemma_sizes();
}

/// The cell of the tile at `index` lies in the grid image of `rows` rows.
pub proof fn lemma_cell_in_image(kind: TileKind, rows: nat, index: int)
    requires
        0 <= index < 16 * rows,
    ensures
        0 <= cell_x(kind, index % 16),
        0 <= cell_y(kind, index / 16),
        cell_x(kind, index % 16) + kind.spec_width() <= grid_image_width(kind),
        cell_y(kind, index / 16) + kind.spec_height() <= grid_image_height(kind, rows),
{
    kind.lemma_sizes();
    lemma_grid_sizes(kind, rows);
    match kind {
        TileKind::SD => {
            assert(cell_x(kind, index % 16) == (index % 16) * 38);
            assert(cell_y(kind, index / 16) == (index / 16) * 56);
        },
        TileKind::HD => {
            assert(cell_x(kind, index % 16) == (index % 16) * 26);
            assert(cell_y(kind, index / 16) == (index / 16) * 38);
        },
    }
}

/// A grid image of a whole number of rows has the height of those rows.
pub proof fn lemma_grid_rows(kind: TileKind, height: nat)
    requires
        grid_rows(kind, height) is Some,
    ensures
        grid_rows(kind, height)->Some_0 >= 1,
        grid_image_height(kind, grid_rows(kind, height)->Some_0) == height,
{
    kind.lemma_sizes();
    match kind {
        TileKind::SD => {
            assert((height - 54) % 56 == 0);
            assert(grid_rows(kind, height)->Some_0 == (height - 54) / 56 + 1);
            vstd::arithmetic::div_mod::lemma_fundamental_div_mod(height - 54, 56);
        },
        TileKind::HD => {
            assert((height - 36) % 38 == 0);
            assert(grid_rows(kind, height)->Some_0 == (height - 36) / 38 + 1);
            vstd::arithmetic::div_mod::lemma_fundamental_div_mod(height - 36, 38);
        },
    }
}

/// Where a position lies in a grid of cells of `cell` units, `used` of which
/// belong to the cell's content: inside the content of the cell at `index`
/// exactly when it is at least `index * cell` and less than `index * cell +
/// used`.
pub proof fn lemma_cell_of(cell: int, used: int, index: int, position: int)
    requires
        0 < used <= cell,
        0 <= index,
        0 <= position,
    ensures
        (index * cell <= position < index * cell + used) <==> (position / cell == index
            && position % cell < used),
        (index * cell <= position < index * cell + used) ==> position - index * cell == position
            % cell,
{
    vstd::arithmetic::div_mod::lemma_fundamental_div_mod(position, cell);
    vstd::arithmetic::div_mod::lemma_mod_bound(position, cell);
    let q = position / cell;
    let r = position % cell;
    assert(position == cell * q + r);
    if index * cell <= position < index * cell + used {
        assert(q == index) by (nonlinear_arith)
            requires
                position == cell * q + r,
                0 <= r < cell,
                index * cell <= position < index * cell + cell,
        ;
        assert(cell * index == index * cell) by (nonlinear_arith);
    }
    if q == index && r < used {
        assert(cell * index == index * cell) by (nonlinear_arith);
    }
}

/// Drawing the next tile into its cell of the grid image of the tiles before
/// it gives the grid image of the tiles up to it.
pub proof fn lemma_grid_draw(tiles: Seq<TileView>, kind: TileKind, i: int)
    requires
        0 <= i < tiles.len(),
        tiles_of_kind(tiles, kind),
    ensures
        grid_image_partial(tiles, kind, i).blit(
            tiles[i].image(),
            cell_x(kind, i % 16) as nat,
            cell_y(kind, i / 16) as nat,
        ) == grid_image_partial(tiles, kind, i + 1),
{
    let rows = grid_height(tiles.len());
    let width = grid_image_width(kind);
    let height = grid_image_height(kind, rows);
    let before = grid_image_partial(tiles, kind, i);
    let after = grid_image_partial(tiles, kind, i + 1);
    let tile = tiles[i].image();
    let x = cell_x(kind, i % 16) as nat;
    let y = cell_y(kind, i / 16) as nat;
    let drawn = before.blit(tile, x, y);
    kind.lemma_sizes();
    lemma_grid_sizes(kind, rows);
    ImageView::lemma_from_fn(
        width,
        height,
        |xb: int, yy: int| grid_byte(tiles.take(i), kind, xb, yy),
    );
    ImageView::lemma_from_fn(
        width,
        height,
        |xb: int, yy: int| grid_byte(tiles.take(i + 1), kind, xb, yy),
    );
    ImageView::lemma_from_fn(
        before.width,
        before.height,
        |xb: int, yy: int|
            if ImageView::in_rect(x, y, tile.width, tile.height, xb, yy) {
                tile.at(xb - 4 * x, yy - y)
            } else {
                before.at(xb, yy)
            },
    );
    assert forall|xb: int, yy: int| 0 <= xb < drawn.stride() && 0 <= yy < drawn.height implies drawn.at(
        xb,
        yy,
    ) == after.at(xb, yy) by {
        let inside = ImageView::in_rect(x, y, tile.width, tile.height, xb, yy);
        let cell_width = 4 * (kind.spec_width() + 2) as int;
        let cell_height = (kind.spec_height() + 2) as int;
        let index = (yy / cell_height) * 16 + xb / cell_width;
        assert(tiles.take(i + 1)[i] == tiles[i]);
        assert(tile.width == kind.spec_width() && tile.height == kind.spec_height());
        lemma_cell_of(cell_width, 4 * kind.spec_width() as int, i % 16, xb);
        lemma_cell_of(cell_height, kind.spec_height() as int, i / 16, yy);
        lemma_cell_of(cell_width, 4 * kind.spec_width() as int, xb / cell_width, xb);
        assert(4 * x == (i % 16) * cell_width) by (nonlinear_arith)
            requires
                x == (i % 16) * (kind.spec_width() + 2),
                cell_width == 4 * (kind.spec_width() + 2),
        ;
        assert(y == (i / 16) * cell_height);
        assert(xb < 16 * cell_width);
        assert(0 <= xb / cell_width < 16) by {
            vstd::arithmetic::div_mod::lemma_div_pos_is_pos(xb, cell_width);
            vstd::arithmetic::div_mod::lemma_multiply_divide_lt(xb, cell_width, 16);
        }
        assert(inside <==> (index == i && xb % cell_width < 4 * kind.spec_width() && yy
            % cell_height < kind.spec_height()));
        if !inside && index < i {
            assert(tiles.take(i + 1)[index] == tiles.take(i)[index]);
        }
    }
    ImageView::lemma_ext(drawn, after);
}

/// The grid image before any tile is drawn is opaque black all over.
pub proof fn lemma_grid_background(tiles: Seq<TileView>, kind: TileKind)
    ensures
        grid_image_partial(tiles, kind, 0) == ImageView::filled(
            grid_image_width(kind),
            grid_image_height(kind, grid_height(tiles.len())),
            seq![0u8, 0u8, 0u8, 255u8],
        ),
{
    let width = grid_image_width(kind);
    let height = grid_image_height(kind, grid_height(tiles.len()));
    let a = grid_image_partial(tiles, kind, 0);
    let b = ImageView::filled(width, height, seq![0u8, 0u8, 0u8, 255u8]);
    ImageView::lemma_from_fn(
        width,
        height,
        |xb: int, yy: int| grid_byte(tiles.take(0), kind, xb, yy),
    );
    ImageView::lemma_from_fn(
        width,
        height,
        |xb: int, yy: int| seq![0u8, 0u8, 0u8, 255u8][xb % 4],
    );
    assert forall|xb: int, yy: int| 0 <= xb < a.stride() && 0 <= yy < a.height implies a.at(xb, yy)
        == b.at(xb, yy) by {
        assert(tiles.take(0).len() == 0);
        kind.lemma_sizes();
        let cell_width = 4 * (kind.spec_width() + 2) as int;
        let cell_height = (kind.spec_height() + 2) as int;
        assert(0 <= yy / cell_height && 0 <= xb / cell_width);
    }
    ImageView::lemma_ext(a, b);
}

/// The dimensions of an image.
pub open spec fn image_dimensions_of(image: ImageView) -> ImageDimensions {
    ImageDimensions { width: image.width as u32, height: image.height as u32 }
}

/// The tiles in the grid image file at `path` with this content.
pub open spec fn grid_loaded(path: Seq<char>, content: Result<Vec<u8>, IOError>) -> Result<
    Seq<TileView>,
    LoadErrorView,
> {
    match image_read(path, content) {
        Ok(image) => match kind_and_grid_height(image_dimensions_of(image)) {
            Some((kind, rows)) => Ok(grid_tiles(image, kind, rows)),
            None => Err(LoadErrorView::InvalidImageDimensions(InvalidImageDimensionsError)),
        },
        Err(error) => Err(LoadErrorView::ImageLoadError(error)),
    }
}

/// The grid image of `tiles`, or why they have none.
pub open spec fn grid_image_of(tiles: Seq<TileView>) -> Result<ImageView, TileKindError> {
    match uniq_kind(tile_kinds(tiles)) {
        Ok(kind) => Ok(grid_image(tiles, kind)),
        Err(e) => Err(e),
    }
}

/// The content of the grid image file at `path` that holds `tiles`.
pub open spec fn grid_saved(tiles: Seq<TileView>, path: Seq<char>) -> Result<
    Seq<u8>,
    SaveImageErrorView,
> {
    match grid_image_of(tiles) {
        Ok(image) => match image_written(image, path) {
            Ok(bytes) => Ok(bytes),
            Err(e) => Err(SaveImageErrorView::ImageWriteError(e)),
        },
        Err(e) => Err(SaveImageErrorView::TileKindError(e)),
    }
}

/// The name of the grid image file of a kind and an identifier: `grid`,
/// then `_` and the identifier if there is one, then `_hd` for HD tiles,
/// then `.png`.
pub open spec fn spec_normalized_image_file_name(
    tile_kind: TileKind,
    ident: Option<Seq<char>>,
) -> Seq<char> {
    "grid"@ + ident_suffix(ident) + (match tile_kind {
        TileKind::SD => Seq::empty(),
        TileKind::HD => "_hd"@,
    }) + ".png"@
}

/// The name of the grid image file of a kind and an identifier.
pub fn normalized_image_file_name(tile_kind: TileKind, ident: &Option<&str>) -> (r: String)
    ensures
        r@ == spec_normalized_image_file_name(tile_kind, ident_view(*ident)),
{
    let mut name = String::from_str("grid");
    match ident {
        Some(ident) => {
            name = name.concat("_").concat(ident);
        },
        None => {
            assert(name@ + Seq::<char>::empty() =~= name@);
        },
    }
    let ghost with_ident = name@;
    match tile_kind {
        TileKind::SD => {
            assert(name@ + Seq::<char>::empty() =~= name@);
        },
        TileKind::HD => {
            name = name.concat("_hd");
        },
    }
    let name = name.concat(".png");
    proof {
        assert(with_ident =~= "grid"@ + ident_suffix(ident_view(*ident)));
    }
    name
}

/// The path of the grid image file of a kind and an identifier in `dir`.
pub fn normalized_image_file_path(dir: &str, tile_kind: TileKind, ident: &Option<&str>) -> (r:
    String)
    ensures
        r@ == spec_join(dir@, spec_normalized_image_file_name(tile_kind, ident_view(*ident))),
{
    let name = normalized_image_file_name(tile_kind, ident);
    crate::path::join(dir, name.as_str())
}

/// The path in `dir` and the content of the grid image file of `tiles` and
/// an identifier.
pub open spec fn grid_saved_norm(
    tiles: Seq<TileView>,
    dir: Seq<char>,
    ident: Option<Seq<char>>,
) -> Result<(Seq<char>, Seq<u8>), SaveImageErrorView> {
    match uniq_kind(tile_kinds(tiles)) {
        Ok(kind) => match grid_saved(
            tiles,
            spec_join(dir, spec_normalized_image_file_name(kind, ident)),
        ) {
            Ok(bytes) => Ok((spec_join(dir, spec_normalized_image_file_name(kind, ident)), bytes)),
            Err(e) => Err(e),
        },
        Err(e) => Err(SaveImageErrorView::TileKindError(e)),
    }
}

/// The number of rows that the tiles fill, the last perhaps in part.
pub fn tiles_grid_height(tiles: &Vec<Tile>) -> (r: usize)
    ensures
        r == grid_height(tiles.deep_view().len()),
{
    let h_full_width = tiles.len() / WIDTH;
    if tiles.len() % WIDTH == 0 {
        h_full_width
    } else {
        h_full_width + 1
    }
}

/// Whether the grid image of `tiles` can be made: see [`grid_image_fits`].
pub fn tiles_image_fits(tiles: &Vec<Tile>) -> (r: bool)
    ensures
        r == grid_image_fits(tiles.deep_view().len()),
{
    proof {
        TileKind::SD.lemma_sizes();
    }
    let rows = tiles_grid_height(tiles) as u128;
    if rows == 0 {
        return true;
    }
    let height: u128 = rows * 54 + (rows - 1) * 2;
    assert(4 * 606 * height == 2424 * height) by (nonlinear_arith);
    assert(4 * grid_image_width(TileKind::SD) * grid_image_height(
        TileKind::SD,
        grid_height(tiles.deep_view().len()),
    ) == 2424 * height) by (nonlinear_arith)
        requires
            grid_image_width(TileKind::SD) == 606,
            grid_image_height(TileKind::SD, grid_height(tiles.deep_view().len())) == height,
    ;
    if height > u32::MAX as u128 {
        return false;
    }
    2424 * height <= usize::MAX as u128
}

/// The grid image of `tiles`, which must be of one kind.
pub fn generate_tiles_image(tiles: &Vec<Tile>) -> (r: Result<Image, TileKindError>)
    requires
        grid_image_fits(tiles.deep_view().len()),
    ensures
        match grid_image_of(tiles.deep_view()) {
            Ok(image) => r matches Ok(i) && i@ == image,
            Err(e) => r matches Err(err) && err == e,
        },
{
    let tile_kind = match tiles.tile_kind() {
        Ok(tile_kind) => tile_kind,
        Err(e) => {
            return Err(e);
        },
    };
    let ghost all = tiles.deep_view();
    let rows = tiles_grid_height(tiles);
    proof {
        lemma_grid_sizes(tile_kind, rows as nat);
        lemma_grid_sizes(tile_kind, grid_height(all.len()));
        tile_kind.lemma_sizes();
        TileKind::SD.lemma_sizes();
        assert(all.len() == tiles.len());
    }
    let img_dim = Grid::image_dimensions(&tile_kind, rows);
    assert(4 * img_dim.width * img_dim.height <= 4 * grid_image_width(TileKind::SD)
        * grid_image_height(TileKind::SD, rows as nat)) by (nonlinear_arith)
        requires
            img_dim.width <= grid_image_width(TileKind::SD),
            img_dim.height <= grid_image_height(TileKind::SD, rows as nat),
    ;
    let mut image = Image::from_pixel(img_dim.width(), img_dim.height(), [0u8, 0u8, 0u8, 255u8]);
    proof {
        lemma_grid_background(all, tile_kind);
        assert forall|i: int| 0 <= i < all.len() implies (#[trigger] all[i]).kind
            == tile_kind by {
            assert(tile_kinds(all)[i] == tile_kind);
        }
    }
    let mut index: usize = 0;
    while index < tiles.len()
        invariant
            index <= tiles.len(),
            all == tiles.deep_view(),
            all.len() == tiles.len(),
            rows == grid_height(all.len()),
            rows >= 1,
            grid_image_height(tile_kind, rows as nat) <= u32::MAX,
            forall|i: int| 0 <= i < all.len() ==> (#[trigger] all[i]).kind == tile_kind,
            image@ == grid_image_partial(all, tile_kind, index as int),
        decreases tiles.len() - index,
    {
        let (x, y) = Grid::index_to_grid_coordinates(index);
        let tile = &tiles[index];
        let tile_image = tile.image();
        proof {
            tile_kind.lemma_sizes();
            lemma_grid_sizes(tile_kind, rows as nat);
            assert(all[index as int] == tile@);
            lemma_grid_draw(all, tile_kind, index as int);
            assert(index < 16 * rows);
            lemma_cell_in_image(tile_kind, rows as nat, index as int);
            ImageView::lemma_from_fn(
                grid_image_width(tile_kind),
                grid_image_height(tile_kind, rows as nat),
                |xb: int, yy: int| grid_byte(all.take(index as int), tile_kind, xb, yy),
            );
            assert(y < rows);
        }
        let (tile_x_position, tile_y_position) = Grid::image_tile_position(
            &tile_kind,
            x as u32,
            y as u32,
        );
        image.copy_from(tile_image, tile_x_position, tile_y_position);
        index += 1;
    }
    Ok(image)
}

/// The name of the grid image file of `tiles` and an identifier.
pub fn tiles_normalized_image_file_name(tiles: &Vec<Tile>, ident: &Option<&str>) -> (r: Result<
    String,
    TileKindError,
>)
    ensures
        match uniq_kind(tile_kinds(tiles.deep_view())) {
            Ok(kind) => r matches Ok(name) && name@ == spec_normalized_image_file_name(
                kind,
                ident_view(*ident),
            ),
            Err(e) => r matches Err(err) && err == e,
        },
{
    match tiles.tile_kind() {
        Ok(tile_kind) => Ok(normalized_image_file_name(tile_kind, ident)),
        Err(e) => Err(e),
    }
}

/// The path of the grid image file of `tiles` and an identifier in `dir`.
pub fn tiles_normalized_image_file_path(tiles: &Vec<Tile>, dir: &str, ident: &Option<&str>) -> (r: Result<
    String,
    TileKindError,
>)
    ensures
        match uniq_kind(tile_kinds(tiles.deep_view())) {
            Ok(kind) => r matches Ok(path) && path@ == spec_join(
                dir@,
                spec_normalized_image_file_name(kind, ident_view(*ident)),
            ),
            Err(e) => r matches Err(err) && err == e,
        },
{
    match tiles.tile_kind() {
        Ok(tile_kind) => Ok(normalized_image_file_path(dir, tile_kind, ident)),
        Err(e) => Err(e),
    }
}

/// The content of the grid image file of `tiles`, which is meant to go to `path`.
pub fn save_tiles_image(tiles: &Vec<Tile>, path: &str) -> (r: Result<Vec<u8>, SaveImageError>)
    requires
        grid_image_fits(tiles.deep_view().len()),
    ensures
        result_view(r) == grid_saved(tiles.deep_view(), path@),
{
    match generate_tiles_image(tiles) {
        Ok(image) => match image.write_image_file(path) {
            Ok(bytes) => Ok(bytes),
            Err(e) => Err(SaveImageError::ImageWriteError(e)),
        },
        Err(e) => Err(SaveImageError::TileKindError(e)),
    }
}

/// The path in `dir` and the content of the grid image file of `tiles` and
/// an identifier.
pub fn save_tiles_image_norm(tiles: &Vec<Tile>, dir: &str, ident: &Option<&str>) -> (r: Result<
    (String, Vec<u8>),
    SaveImageError,
>)
    requires
        grid_image_fits(tiles.deep_view().len()),
    ensures
        result_view(r) == grid_saved_norm(tiles.deep_view(), dir@, ident_view(*ident)),
{
    let path = match tiles_normalized_image_file_path(tiles, dir, ident) {
        Ok(path) => path,
        Err(e) => {
            return Err(SaveImageError::TileKindError(e));
        },
    };
    match save_tiles_image(tiles, path.as_str()) {
        Ok(content) => {
            proof {
                crate::outcome::lemma_bytes_deep_view(content);
            }
            Ok((path, content))
        },
        Err(e) => Err(e),
    }
}


/// A collection of tiles as a grid of 16 columns.
#[derive(Debug)]
pub struct Grid(pub Vec<Tile>);

impl View for Grid {
    type V = Seq<TileView>;

    open spec fn view(&self) -> Seq<TileView> {
        self.0.deep_view()
    }
}

impl DeepView for Grid {
    type V = Seq<TileView>;

    open spec fn deep_view(&self) -> Seq<TileView> {
        self@
    }
}

impl Grid {
    /// The grid of these tiles.
    pub fn from(vec: Vec<Tile>) -> (r: Self)
        ensures
            r@ == vec.deep_view(),
    {
        Grid(vec)
    }

    /// Column and row of the tile at `index`.
    pub fn index_to_grid_coordinates(index: usize) -> (r: (usize, usize))
        ensures
            r.0 == index % 16,
            r.1 == index / 16,
    {
        (index % WIDTH, index / WIDTH)
    }

    /// The index of the tile in column `x` of row `y`.
    pub fn grid_coordinates_to_index(x: usize, y: usize) -> (r: usize)
        requires
            x < 16,
            x + y * 16 <= usize::MAX,
        ensures
            r == x + y * 16,
    {
        x + y * WIDTH
    }

    /// The pixel column and row of the top left pixel of the tiles in column
    /// `x` and row `y` of the grid.
    pub fn image_tile_position(tile_kind: &TileKind, x: u32, y: u32) -> (r: (u32, u32))
        requires
            cell_x(*tile_kind, x as int) <= u32::MAX,
            cell_y(*tile_kind, y as int) <= u32::MAX,
        ensures
            r.0 == cell_x(*tile_kind, x as int),
            r.1 == cell_y(*tile_kind, y as int),
    {
        let tile_dimensions = tile_kind.dimensions();
        (
            x * (SEPARATOR_THICKNESS + tile_dimensions.width()),
            y * (SEPARATOR_THICKNESS + tile_dimensions.height()),
        )
    }

    /// The kind of the tiles and the number of their rows in a grid image of
    /// these dimensions.
    pub fn image_tile_kind_and_grid_height(image_dimensions: ImageDimensions) -> (r: Result<
        (TileKind, usize),
        InvalidImageDimensionsError,
    >)
        ensures
            match kind_and_grid_height(image_dimensions) {
                Some((kind, rows)) => r matches Ok((k, h)) && k == kind && h == rows,
                None => r is Err,
            },
    {
        let kinds = TileKind::iter();
        let mut i: usize = 0;
        while i < 2
            invariant
                i <= 2,
                kinds@ == seq![TileKind::SD, TileKind::HD],
                forall|j: int| 0 <= j < i ==> image_dimensions.width != grid_image_width(kinds@[j]),
            decreases 2 - i,
        {
            let tile_kind = kinds[i];
            let tile_dimensions = tile_kind.dimensions();
            let expected_width = (WIDTH as u32 - 1) * SEPARATOR_THICKNESS + WIDTH as u32
                * tile_dimensions.width;
            if image_dimensions.width == expected_width {
                if image_dimensions.height >= tile_dimensions.height && (image_dimensions.height
                    - tile_dimensions.height) % (tile_dimensions.height + SEPARATOR_THICKNESS)
                    == 0 {
                    let grid_height = (image_dimensions.height - tile_dimensions.height) / (
                    tile_dimensions.height + SEPARATOR_THICKNESS) + 1;
                    return Ok((tile_kind, grid_height as usize));
                } else {
                    return Err(InvalidImageDimensionsError);
                }
            }
            i += 1;
        }
        Err(InvalidImageDimensionsError)
    }

    /// The dimensions of the grid image of `height` rows of tiles of a kind.
    pub fn image_dimensions(tile_kind: &TileKind, height: usize) -> (r: ImageDimensions)
        requires
            1 <= height,
            grid_image_height(*tile_kind, height as nat) <= u32::MAX,
        ensures
            r.width == grid_image_width(*tile_kind),
            r.height == grid_image_height(*tile_kind, height as nat),
    {
        let tile_dimensions = tile_kind.dimensions();
        assert(height * tile_dimensions.height + (height - 1) * 2 <= u32::MAX);
        assert(height <= height * tile_dimensions.height) by (nonlinear_arith)
            requires
                tile_dimensions.height >= 1,
        ;
        ImageDimensions {
            width: WIDTH as u32 * tile_dimensions.width() + (WIDTH as u32 - 1)
                * SEPARATOR_THICKNESS,
            height: height as u32 * tile_dimensions.height() + (height as u32 - 1)
                * SEPARATOR_THICKNESS,
        }
    }

    /// The number of rows of the grid, the last perhaps filled in part.
    pub fn height(&self) -> (r: usize)
        ensures
            r == grid_height(self@.len()),
    {
        tiles_grid_height(&self.0)
    }

    /// Whether the grid image of these tiles can be made: see [`grid_image_fits`].
    pub fn image_fits(&self) -> (r: bool)
        ensures
            r == grid_image_fits(self@.len()),
    {
        tiles_image_fits(&self.0)
    }

    /// The grid image of the tiles, which must be of one kind.
    pub fn generate_image(&self) -> (r: Result<Image, TileKindError>)
        requires
            grid_image_fits(self@.len()),
        ensures
            match grid_image_of(self@) {
                Ok(image) => r matches Ok(i) && i@ == image,
                Err(e) => r matches Err(err) && err == e,
            },
    {
        generate_tiles_image(&self.0)
    }

    /// The grid in the image file at `path`, whose content is `content`.
    ///
    /// The image must have the width of 16 tiles of one kind with their
    /// borders, and the height of a whole number of rows of them.
    pub fn load_from_image(path: &str, content: &Result<Vec<u8>, IOError>) -> (r: Result<
        Self,
        LoadError,
    >)
        ensures
            result_view(r) == grid_loaded(path@, *content),
    {
        let image = match read_image_file(path, content) {
            Ok(image) => image,
            Err(e) => {
                return Err(LoadError::ImageLoadError(e));
            },
        };
        let (img_dim_width, img_dim_height) = image.dimensions();
        let (tile_kind, grid_height) = match Grid::image_tile_kind_and_grid_height(
            ImageDimensions { width: img_dim_width, height: img_dim_height },
        ) {
            Ok(found) => found,
            Err(e) => {
                return Err(LoadError::InvalidImageDimensions(e));
            },
        };
        let tile_dimensions = tile_kind.dimensions();
        let mut tiles_container: Vec<Tile> = Vec::new();
        proof {
            tile_kind.lemma_sizes();
            lemma_grid_rows(tile_kind, img_dim_height as nat);
        }
        let mut y: usize = 0;
        while y < grid_height
            invariant
                y <= grid_height,
                tile_dimensions == tile_kind.spec_dimensions(),
                image@.wf(),
                image@.width == grid_image_width(tile_kind),
                image@.height == grid_image_height(tile_kind, grid_height as nat),
                grid_height >= 1,
                image@.height <= u32::MAX,
                tiles_container.deep_view() == Seq::new(
                    (16 * y) as nat,
                    |i: int| grid_tile(image@, tile_kind, i),
                ),
            decreases grid_height - y,
        {
            let mut x: usize = 0;
            while x < WIDTH
                invariant
                    x <= 16,
                    y < grid_height,
                    tile_dimensions == tile_kind.spec_dimensions(),
                    image@.wf(),
                    image@.width == grid_image_width(tile_kind),
                    image@.height == grid_image_height(tile_kind, grid_height as nat),
                    grid_height >= 1,
                    image@.height <= u32::MAX,
                    tiles_container.deep_view() == Seq::new(
                        (16 * y + x) as nat,
                        |i: int| grid_tile(image@, tile_kind, i),
                    ),
                decreases 16 - x,
            {
                proof {
                    tile_kind.lemma_sizes();
                    lemma_grid_sizes(tile_kind, grid_height as nat);
                    assert((16 * y + x) % 16 == x && (16 * y + x) / 16 == y);
                    lemma_cell_in_image(tile_kind, grid_height as nat, (16 * y + x) as int);
                }
                let (tile_pos_x, tile_pos_y) = Grid::image_tile_position(
                    &tile_kind,
                    x as u32,
                    y as u32,
                );
                let tile_view = image.sub_image(
                    tile_pos_x,
                    tile_pos_y,
                    tile_dimensions.width,
                    tile_dimensions.height,
                );
                proof {
                    ImageView::lemma_from_fn(
                        tile_kind.spec_width(),
                        tile_kind.spec_height(),
                        |xb: int, yy: int| image@.at(4 * tile_pos_x + xb, tile_pos_y + yy),
                    );
                }
                let tile = Tile::try_from_image(tile_view).unwrap();
                let ghost prev = tiles_container.deep_view();
                tiles_container.push(tile);
                proof {
                    let index = 16 * y + x;
                    assert(index % 16 == x && index / 16 == y);
                    assert(tile@ == grid_tile(image@, tile_kind, index as int));
                    assert(tiles_container.deep_view() =~= prev.push(tile@));
                    assert(tiles_container.deep_view() =~= Seq::new(
                        (16 * y + x + 1) as nat,
                        |i: int| grid_tile(image@, tile_kind, i),
                    ));
                }
                x += 1;
            }
            y += 1;
        }
        Ok(Grid(tiles_container))
    }

    /// The grid in the grid image file of a kind and an identifier in `dir`,
    /// whose content is `content`.
    pub fn load_from_image_norm(
        dir: &str,
        tile_kind: TileKind,
        ident: &Option<&str>,
        content: &Result<Vec<u8>, IOError>,
    ) -> (r: Result<Self, LoadError>)
        ensures
            result_view(r) == grid_loaded(
                spec_join(dir@, spec_normalized_image_file_name(tile_kind, ident_view(*ident))),
                *content,
            ),
    {
        let path = normalized_image_file_path(dir, tile_kind, ident);
        Grid::load_from_image(path.as_str(), content)
    }

    /// The name of the grid image file of these tiles and an identifier.
    pub fn normalized_image_file_name(&self, ident: &Option<&str>) -> (r: Result<
        String,
        TileKindError,
    >)
        ensures
            match uniq_kind(tile_kinds(self@)) {
                Ok(kind) => r matches Ok(name) && name@ == spec_normalized_image_file_name(
                    kind,
                    ident_view(*ident),
                ),
                Err(e) => r matches Err(err) && err == e,
            },
    {
        tiles_normalized_image_file_name(&self.0, ident)
    }

    /// The path of the grid image file of these tiles and an identifier in `dir`.
    pub fn normalized_image_file_path(&self, dir: &str, ident: &Option<&str>) -> (r: Result<
        String,
        TileKindError,
    >)
        ensures
            match uniq_kind(tile_kinds(self@)) {
                Ok(kind) => r matches Ok(path) && path@ == spec_join(
                    dir@,
                    spec_normalized_image_file_name(kind, ident_view(*ident)),
                ),
                Err(e) => r matches Err(err) && err == e,
            },
    {
        tiles_normalized_image_file_path(&self.0, dir, ident)
    }

    /// The content of the grid image file of the tiles, which is meant to go to `path`.
    pub fn save_image(&self, path: &str) -> (r: Result<Vec<u8>, SaveImageError>)
        requires
            grid_image_fits(self@.len()),
        ensures
            result_view(r) == grid_saved(self@, path@),
    {
        save_tiles_image(&self.0, path)
    }

    /// The path in `dir` and the content of the grid image file of the tiles
    /// and an identifier.
    pub fn save_image_norm(&self, dir: &str, ident: &Option<&str>) -> (r: Result<
        (String, Vec<u8>),
        SaveImageError,
    >)
        requires
            grid_image_fits(self@.len()),
        ensures
            result_view(r) == grid_saved_norm(self@, dir@, ident_view(*ident)),
    {
        save_tiles_image_norm(&self.0, dir, ident)
    }

    /// The number of tiles.
    pub fn len(&self) -> (r: usize)
        ensures
            r == self@.len(),
    {
        self.0.len()
    }

    /// The tile in column `x` of row `y`.
    pub fn get(&self, x: usize, y: usize) -> (r: &Tile)
        requires
            x < 16,
            x + y * 16 < self@.len(),
        ensures
            r@ == self@[x + y * 16],
    {
        assert(self@.len() == self.0.len());
        &self.0[Grid::grid_coordinates_to_index(x, y)]
    }

    /// The tiles of the grid, row by row.
    pub fn to_vec(self) -> (r: Vec<Tile>)
        ensures
            r.deep_view() == self@,
    {
        self.0
    }
}

/// What a set of grids is: the SD tiles and the HD tiles.
pub struct GridSetView {
    pub sd_grid: Seq<TileView>,
    pub hd_grid: Seq<TileView>,
}

impl GridSetView {
    /// Both grids hold a tile, the first only SD tiles, the second only HD tiles.
    pub open spec fn wf(self) -> bool {
        &&& checked_kind(tile_kinds(self.sd_grid), TileKind::SD) is Ok
        &&& checked_kind(tile_kinds(self.hd_grid), TileKind::HD) is Ok
    }
}

/// The grid of the SD tiles and that of the HD tiles of a font.
#[derive(Debug)]
pub struct GridSet {
    sd_grid: Grid,
    hd_grid: Grid,
}

impl View for GridSet {
    type V = GridSetView;

    closed spec fn view(&self) -> GridSetView {
        GridSetView { sd_grid: self.sd_grid@, hd_grid: self.hd_grid@ }
    }
}

impl DeepView for GridSet {
    type V = GridSetView;

    open spec fn deep_view(&self) -> GridSetView {
        self@
    }
}

/// The tiles in a grid image file, which must be of kind `expected`.
pub open spec fn grid_loaded_of_kind(
    path: Seq<char>,
    content: Result<Vec<u8>, IOError>,
    expected: TileKind,
) -> Result<Seq<TileView>, LoadErrorView> {
    match grid_loaded(path, content) {
        Ok(tiles) => match checked_kind(tile_kinds(tiles), expected) {
            Ok(_) => Ok(tiles),
            Err(e) => Err(LoadErrorView::TileKindError(e)),
        },
        Err(e) => Err(e),
    }
}

/// The set in two grid image files, the first of which must hold SD tiles
/// and the second HD tiles. An error is that of the first file that has one.
pub open spec fn set_loaded(
    sd_path: Seq<char>,
    sd_content: Result<Vec<u8>, IOError>,
    hd_path: Seq<char>,
    hd_content: Result<Vec<u8>, IOError>,
) -> Result<GridSetView, LoadErrorView> {
    match grid_loaded_of_kind(sd_path, sd_content, TileKind::SD) {
        Ok(sd_grid) => match grid_loaded_of_kind(hd_path, hd_content, TileKind::HD) {
            Ok(hd_grid) => Ok(GridSetView { sd_grid, hd_grid }),
            Err(e) => Err(e),
        },
        Err(e) => Err(e),
    }
}

/// The contents of the two grid image files of a set, that of the SD tiles first.
pub open spec fn set_saved(set: GridSetView, sd_path: Seq<char>, hd_path: Seq<char>) -> Result<
    (Seq<u8>, Seq<u8>),
    SaveImageErrorView,
> {
    match grid_saved(set.sd_grid, sd_path) {
        Ok(sd_bytes) => match grid_saved(set.hd_grid, hd_path) {
            Ok(hd_bytes) => Ok((sd_bytes, hd_bytes)),
            Err(e) => Err(e),
        },
        Err(e) => Err(e),
    }
}

impl GridSet {
    /// What holds of every set: see [`GridSetView::wf`].
    #[verifier::type_invariant]
    pub open spec fn inv(self) -> bool {
        self@.wf()
    }

    pub fn sd_grid(&self) -> (r: &Grid)
        ensures
            r@ == self@.sd_grid,
            self@.wf(),
    {
        proof {
            use_type_invariant(self);
        }
        &self.sd_grid
    }

    pub fn hd_grid(&self) -> (r: &Grid)
        ensures
            r@ == self@.hd_grid,
            self@.wf(),
    {
        proof {
            use_type_invariant(self);
        }
        &self.hd_grid
    }

    /// That the tiles of a grid are of the expected kind.
    pub fn check_grid_kind(grid: &Grid, expected_tile_kind: TileKind) -> (r: Result<
        (),
        TileKindError,
    >)
        ensures
            r == checked_kind(tile_kinds(grid@), expected_tile_kind),
    {
        let tile_kind = match grid.0.tile_kind() {
            Ok(tile_kind) => tile_kind,
            Err(e) => {
                return Err(e);
            },
        };
        if tile_kind != expected_tile_kind {
            return Err(
                TileKindError::LoadedDoesNotMatchRequested {
                    requested: expected_tile_kind,
                    loaded: tile_kind,
                },
            );
        }
        Ok(())
    }

    /// The grid in a grid image file, which must hold tiles of the expected kind.
    fn load_grid_of_kind(
        path: &str,
        content: &Result<Vec<u8>, IOError>,
        expected_tile_kind: TileKind,
    ) -> (r: Result<Grid, LoadError>)
        ensures
            result_view(r) == grid_loaded_of_kind(path@, *content, expected_tile_kind),
    {
        let grid = match Grid::load_from_image(path, content) {
            Ok(grid) => grid,
            Err(e) => {
                return Err(e);
            },
        };
        match GridSet::check_grid_kind(&grid, expected_tile_kind) {
            Ok(_) => Ok(grid),
            Err(e) => Err(LoadError::TileKindError(e)),
        }
    }

    /// The set in the grid image files at `sd_grid_image_path` and
    /// `hd_grid_image_path`, whose contents are `sd_content` and `hd_content`.
    pub fn load_from_images(
        sd_grid_image_path: &str,
        hd_grid_image_path: &str,
        sd_content: &Result<Vec<u8>, IOError>,
        hd_content: &Result<Vec<u8>, IOError>,
    ) -> (r: Result<Self, LoadError>)
        ensures
            result_view(r) == set_loaded(
                sd_grid_image_path@,
                *sd_content,
                hd_grid_image_path@,
                *hd_content,
            ),
    {
        let sd_grid = match GridSet::load_grid_of_kind(sd_grid_image_path, sd_content, TileKind::SD) {
            Ok(grid) => grid,
            Err(e) => {
                return Err(e);
            },
        };
        let hd_grid = match GridSet::load_grid_of_kind(hd_grid_image_path, hd_content, TileKind::HD) {
            Ok(grid) => grid,
            Err(e) => {
                return Err(e);
            },
        };
        Ok(GridSet { sd_grid, hd_grid })
    }

    /// The set in the two grid image files of an identifier in `dir`, whose
    /// contents are `sd_content` and `hd_content`.
    pub fn load_from_images_norm(
        dir: &str,
        ident: &Option<&str>,
        sd_content: &Result<Vec<u8>, IOError>,
        hd_content: &Result<Vec<u8>, IOError>,
    ) -> (r: Result<Self, LoadError>)
        ensures
            result_view(r) == set_loaded(
                spec_join(dir@, spec_normalized_image_file_name(TileKind::SD, ident_view(*ident))),
                *sd_content,
                spec_join(dir@, spec_normalized_image_file_name(TileKind::HD, ident_view(*ident))),
                *hd_content,
            ),
    {
        let sd_path = normalized_image_file_path(dir, TileKind::SD, ident);
        let hd_path = normalized_image_file_path(dir, TileKind::HD, ident);
        GridSet::load_from_images(sd_path.as_str(), hd_path.as_str(), sd_content, hd_content)
    }

    /// The contents of the two grid image files of the set, that of the SD
    /// tiles first. They are meant to go to `sd_grid_path` and `hd_grid_path`.
    pub fn save_images(&self, sd_grid_path: &str, hd_grid_path: &str) -> (r: Result<
        (Vec<u8>, Vec<u8>),
        SaveImageError,
    >)
        requires
            grid_image_fits(self@.sd_grid.len()),
            grid_image_fits(self@.hd_grid.len()),
        ensures
            match set_saved(self@, sd_grid_path@, hd_grid_path@) {
                Ok((sd_bytes, hd_bytes)) => r matches Ok((sd, hd)) && sd@ == sd_bytes && hd@
                    == hd_bytes,
                Err(e) => r matches Err(err) && err@ == e,
            },
    {
        let sd = match self.sd_grid.save_image(sd_grid_path) {
            Ok(bytes) => bytes,
            Err(e) => {
                return Err(e);
            },
        };
        let hd = match self.hd_grid.save_image(hd_grid_path) {
            Ok(bytes) => bytes,
            Err(e) => {
                return Err(e);
            },
        };
        proof {
            crate::outcome::lemma_bytes_deep_view(sd);
            crate::outcome::lemma_bytes_deep_view(hd);
        }
        Ok((sd, hd))
    }

    /// The paths in `dir` and the contents of the two grid image files of
    /// the set and an identifier, those of the SD tiles first.
    pub fn save_images_norm(&self, dir: &str, ident: &Option<&str>) -> (r: Result<
        ((String, Vec<u8>), (String, Vec<u8>)),
        SaveImageError,
    >)
        requires
            grid_image_fits(self@.sd_grid.len()),
            grid_image_fits(self@.hd_grid.len()),
        ensures
            result_view(r) == (match grid_saved_norm(self@.sd_grid, dir@, ident_view(*ident)) {
                Ok(sd) => match grid_saved_norm(self@.hd_grid, dir@, ident_view(*ident)) {
                    Ok(hd) => Ok((sd, hd)),
                    Err(e) => Err(e),
                },
                Err(e) => Err(e),
            }),
    {
        let sd = match self.sd_grid.save_image_norm(dir, ident) {
            Ok(sd) => sd,
            Err(e) => {
                return Err(e);
            },
        };
        let hd = match self.hd_grid.save_image_norm(dir, ident) {
            Ok(hd) => hd,
            Err(e) => {
                return Err(e);
            },
        };
        Ok((sd, hd))
    }

    /// The tiles of the two grids as a set of tiles.
    pub fn into_tile_set(self) -> (r: TileSet)
        ensures
            r@ == (TileSetView { sd_tiles: self@.sd_grid, hd_tiles: self@.hd_grid }),
    {
        proof {
            use_type_invariant(&self);
        }
        TileSet::try_from_tiles(self.sd_grid.0, self.hd_grid.0).unwrap()
    }
}

/// Each kind of grid image is found again from the dimensions of the grid
/// image of a number of rows of its tiles.
pub proof fn lemma_grid_kind_inference(kind: TileKind, rows: nat)
    requires
        rows >= 1,
        grid_image_height(kind, rows) <= u32::MAX,
    ensures
        kind_and_grid_height(
            ImageDimensions {
                width: grid_image_width(kind) as u32,
                height: grid_image_height(kind, rows) as u32,
            },
        ) == Some((kind, rows)),
{
    lemma_grid_sizes(kind, rows);
    kind.lemma_sizes();
    match kind {
        TileKind::SD => {
            vstd::arithmetic::div_mod::lemma_fundamental_div_mod_converse(
                rows * 56 - 2 - 54,
                56,
                rows - 1,
                0,
            );
        },
        TileKind::HD => {
            vstd::arithmetic::div_mod::lemma_fundamental_div_mod_converse(
                rows * 38 - 2 - 36,
                38,
                rows - 1,
                0,
            );
        },
    }
}

/// The tile at each index of the grid image of a collection is the tile at
/// that index of the collection.
pub proof fn lemma_grid_tile(tiles: Seq<TileView>, kind: TileKind, i: int)
    requires
        0 <= i < tiles.len(),
        tiles_of_kind(tiles, kind),
        tiles[i].wf(),
    ensures
        grid_tile(grid_image(tiles, kind), kind, i) == tiles[i],
{
    let rows = grid_height(tiles.len());
    let image = grid_image(tiles, kind);
    let x = cell_x(kind, i % 16) as nat;
    let y = cell_y(kind, i / 16) as nat;
    let cut = image.crop(x, y, kind.spec_width(), kind.spec_height());
    let tile = tiles[i].image();
    kind.lemma_sizes();
    lemma_grid_sizes(kind, rows);
    lemma_cell_in_image(kind, rows, i);
    assert(tiles.take(tiles.len() as int) =~= tiles);
    ImageView::lemma_from_fn(
        grid_image_width(kind),
        grid_image_height(kind, rows),
        |xb: int, yy: int| grid_byte(tiles.take(tiles.len() as int), kind, xb, yy),
    );
    ImageView::lemma_from_fn(
        kind.spec_width(),
        kind.spec_height(),
        |xb: int, yy: int| image.at(4 * x + xb, y + yy),
    );
    assert forall|xb: int, yy: int| 0 <= xb < cut.stride() && 0 <= yy < cut.height implies cut.at(
        xb,
        yy,
    ) == tile.at(xb, yy) by {
        let cell_width = 4 * (kind.spec_width() + 2) as int;
        let cell_height = (kind.spec_height() + 2) as int;
        assert(cut.at(xb, yy) == image.at(4 * x + xb, y + yy));
        assert(image.at(4 * x + xb, y + yy) == grid_byte(tiles, kind, 4 * x + xb, y + yy));
        assert(4 * x == (i % 16) * cell_width) by (nonlinear_arith)
            requires
                x == (i % 16) * (kind.spec_width() + 2),
                cell_width == 4 * (kind.spec_width() + 2),
        ;
        assert(y == (i / 16) * cell_height);
        lemma_cell_of(cell_width, 4 * kind.spec_width() as int, i % 16, 4 * x + xb);
        lemma_cell_of(cell_height, kind.spec_height() as int, i / 16, y + yy);
    }
    ImageView::lemma_ext(cut, tile);
}

/// Writing a collection of whole rows of tiles of one kind as a grid image
/// and reading the image gives the tiles back.
pub proof fn lemma_grid_round_trip(tiles: Seq<TileView>, kind: TileKind)
    requires
        tiles.len() > 0,
        tiles.len() % 16 == 0,
        tiles_of_kind(tiles, kind),
        forall|i: int| 0 <= i < tiles.len() ==> (#[trigger] tiles[i]).wf(),
    ensures
        grid_image_of(tiles) == Ok::<ImageView, TileKindError>(grid_image(tiles, kind)),
        grid_tiles(grid_image(tiles, kind), kind, grid_height(tiles.len())) == tiles,
{
    assert(tile_kinds(tiles).first() == tiles[0].kind);
    let read = grid_tiles(grid_image(tiles, kind), kind, grid_height(tiles.len()));
    assert forall|i: int| 0 <= i < tiles.len() implies read[i] == tiles[i] by {
        lemma_grid_tile(tiles, kind, i);
    }
    assert(read =~= tiles);
}

} // verus!
