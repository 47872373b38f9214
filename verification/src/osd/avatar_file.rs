//! The avatar image: the 256 tiles of a collection in one column, one below
//! the other, with nothing between them.

use crate::dimensions;
use crate::file::IOError;
use crate::image::image_read;
use crate::image::image_written;
use crate::image::read_image_file;
use crate::image::Image;
use crate::image::ImageView;
use crate::image::ReadError as ImageReadError;
use crate::image::ReadErrorView as ImageReadErrorView;
use crate::image::WriteError as ImageWriteError;
use crate::image::WriteErrorView as ImageWriteErrorView;
use crate::osd::bin_file::bin_tiles;
use crate::osd::bin_file::lemma_tiles_bytes_len;
use crate::osd::bin_file::tiles_bytes;
use crate::osd::bin_file::tiles_to_bytes;
use crate::osd::bin_file::BinFileReader;
use crate::osd::tile::container::uniq_tile_kind::tile_kinds;
use crate::osd::tile::container::uniq_tile_kind::uniq_kind;
use crate::osd::tile::container::uniq_tile_kind::TileKindError;
use crate::osd::tile::container::uniq_tile_kind::UniqTileKind;
use crate::osd::tile::InvalidDimensionsError;
use crate::osd::tile::Kind as TileKind;
use crate::osd::tile::Tile;
use crate::osd::tile::TileView;
use crate::outcome::result_view;
use vstd::prelude::*;

verus! {

pub type ImageDimensions = dimensions::Dimensions;

/// The number of tiles in an avatar image.
pub const TILE_COUNT: usize = 256;

impl TileKind {
    /// The dimensions of the avatar image of tiles of this kind: as wide as
    /// one tile, as high as 256.
    pub open spec fn spec_avatar_image_dimensions(&self) -> ImageDimensions {
        ImageDimensions {
            width: self.spec_dimensions().width,
            height: (256 * self.spec_dimensions().height) as u32,
        }
    }

    /// The kind of the tiles of an avatar image of these dimensions.
    pub open spec fn spec_for_avatar_image_dimensions(dimensions: ImageDimensions) -> Option<
        TileKind,
    > {
        if dimensions == TileKind::SD.spec_avatar_image_dimensions() {
            Some(TileKind::SD)
        } else if dimensions == TileKind::HD.spec_avatar_image_dimensions() {
            Some(TileKind::HD)
        } else {
            None
        }
    }

    pub fn avatar_image_dimensions(&self) -> (r: ImageDimensions)
        ensures
            r == self.spec_avatar_image_dimensions(),
    {
        let tile_dimensions = self.dimensions();
        ImageDimensions {
            width: tile_dimensions.width,
            height: TILE_COUNT as u32 * tile_dimensions.height,
        }
    }

    pub fn for_avatar_image_dimensions(dimensions: ImageDimensions) -> (r: Result<
        Self,
        InvalidDimensionsError,
    >)
        ensures
            match TileKind::spec_for_avatar_image_dimensions(dimensions) {
                Some(kind) => r == Ok::<TileKind, InvalidDimensionsError>(kind),
                None => r == Err::<TileKind, InvalidDimensionsError>(
                    InvalidDimensionsError { dimensions },
                ),
            },
    {
        let kinds = TileKind::iter();
        let mut i: usize = 0;
        while i < 2
            invariant
                i <= 2,
                kinds@ == seq![TileKind::SD, TileKind::HD],
                forall|j: int| 0 <= j < i ==> dimensions != kinds@[j].spec_avatar_image_dimensions(),
            decreases 2 - i,
        {
            let kind = kinds[i];
            if dimensions.width == kind.dimensions().width && dimensions.height == TILE_COUNT as u32
                * kind.dimensions().height {
                return Ok(kind);
            }
            i += 1;
        }
        Err(InvalidDimensionsError { dimensions })
    }
}

/// Why the tiles of an avatar image file could not be had.
#[derive(Debug)]
pub enum LoadError {
    ImageReadError(ImageReadError),
    /// The image has the dimensions of no avatar image.
    InvalidDimensionsError { file_path: String, dimensions: ImageDimensions },
}

/// What a [`LoadError`] says.
pub enum LoadErrorView {
    ImageReadError(ImageReadErrorView),
    InvalidDimensionsError { file_path: Seq<char>, dimensions: ImageDimensions },
}

impl View for LoadError {
    type V = LoadErrorView;

    open spec fn view(&self) -> LoadErrorView {
        match self {
            LoadError::ImageReadError(error) => LoadErrorView::ImageReadError(error@),
            LoadError::InvalidDimensionsError { file_path, dimensions } => {
                LoadErrorView::InvalidDimensionsError {
                    file_path: file_path@,
                    dimensions: *dimensions,
                }
            },
        }
    }
}

impl LoadError {
    pub fn invalid_dimensions(file_path: &str, dimensions: ImageDimensions) -> (r: Self)
        ensures
            r@ == (LoadErrorView::InvalidDimensionsError { file_path: file_path@, dimensions }),
    {
        LoadError::InvalidDimensionsError { file_path: file_path.to_owned(), dimensions }
    }
}

/// The tiles in the avatar image file at `path` with this content: since a
/// tile is as wide as the image, the bytes of the image are those of the
/// tiles, one tile after the other.
pub open spec fn avatar_loaded(path: Seq<char>, content: Result<Vec<u8>, IOError>) -> Result<
    Seq<TileView>,
    LoadErrorView,
> {
    match image_read(path, content) {
        Ok(image) => {
            let dimensions = ImageDimensions {
                width: image.width as u32,
                height: image.height as u32,
            };
            match TileKind::spec_for_avatar_image_dimensions(dimensions) {
                Some(kind) => Ok(bin_tiles(image.data, kind, 0)),
                None => Err(LoadErrorView::InvalidDimensionsError { file_path: path, dimensions }),
            }
        },
        Err(error) => Err(LoadErrorView::ImageReadError(error)),
    }
}

/// The tiles in the avatar image file at `path`, whose content is `content`.
pub fn load(path: &str, content: &Result<Vec<u8>, IOError>) -> (r: Result<Vec<Tile>, LoadError>)
    ensures
        result_view(r) == avatar_loaded(path@, *content),
{
    let image = match read_image_file(path, content) {
        Ok(image) => image,
        Err(e) => {
            return Err(LoadError::ImageReadError(e));
        },
    };
    let (width, height) = image.dimensions();
    let tile_kind = match TileKind::for_avatar_image_dimensions(
        ImageDimensions { width, height },
    ) {
        Ok(tile_kind) => tile_kind,
        Err(e) => {
            return Err(LoadError::invalid_dimensions(path, e.dimensions));
        },
    };
    let data = image.into_raw();
    proof {
        tile_kind.lemma_sizes();
        assert((4 * width) * height == 256 * tile_kind.spec_raw_rgba_size_bytes())
            by (nonlinear_arith)
            requires
                width == tile_kind.spec_width(),
                height == 256 * tile_kind.spec_height(),
                (4 * tile_kind.spec_width()) * tile_kind.spec_height()
                    == tile_kind.spec_raw_rgba_size_bytes(),
        ;
        TileKind::SD.lemma_sizes();
        TileKind::HD.lemma_sizes();
    }
    let reader = BinFileReader::open(path, Ok(data)).unwrap();
    Ok(reader.read_tiles().unwrap())
}

/// Why the avatar image file of a collection could not be made.
#[derive(Debug)]
pub enum SaveError {
    TileKindError(TileKindError),
    ImageWriteError(ImageWriteError),
    /// The collection holds fewer than 256 tiles: this many.
    WrongCollectionSize(usize),
}

/// What a [`SaveError`] says.
pub enum SaveErrorView {
    TileKindError(TileKindError),
    ImageWriteError(ImageWriteErrorView),
    WrongCollectionSize(usize),
}

impl View for SaveError {
    type V = SaveErrorView;

    open spec fn view(&self) -> SaveErrorView {
        match self {
            SaveError::TileKindError(error) => SaveErrorView::TileKindError(*error),
            SaveError::ImageWriteError(error) => SaveErrorView::ImageWriteError(error@),
            SaveError::WrongCollectionSize(size) => SaveErrorView::WrongCollectionSize(*size),
        }
    }
}

/// The avatar image of the first 256 of `tiles`, which are of kind `kind`.
pub open spec fn avatar_image(tiles: Seq<TileView>, kind: TileKind) -> ImageView {
    ImageView {
        width: kind.spec_width(),
        height: 256 * kind.spec_height(),
        data: tiles_bytes(tiles.take(256)),
    }
}

/// The content of the avatar image file at `path` that holds the first 256
/// of `tiles`. There must be at least 256 tiles, and all tiles, those after
/// the first 256 too, must be of one kind.
pub open spec fn avatar_saved(tiles: Seq<TileView>, path: Seq<char>) -> Result<
    Seq<u8>,
    SaveErrorView,
> {
    if tiles.len() < 256 {
        Err(SaveErrorView::WrongCollectionSize(tiles.len() as usize))
    } else {
        match uniq_kind(tile_kinds(tiles)) {
            Ok(kind) => match image_written(avatar_image(tiles, kind), path) {
                Ok(bytes) => Ok(bytes),
                Err(e) => Err(SaveErrorView::ImageWriteError(e)),
            },
            Err(e) => Err(SaveErrorView::TileKindError(e)),
        }
    }
}

/// The content of the avatar image file of `tiles`, which is meant to go to `path`.
pub fn save(tiles: &Vec<Tile>, path: &str) -> (r: Result<Vec<u8>, SaveError>)
    ensures
        result_view(r) == avatar_saved(tiles.deep_view(), path@),
{
    if tiles.len() < TILE_COUNT {
        return Err(SaveError::WrongCollectionSize(tiles.len()));
    }
    let tile_kind = match tiles.tile_kind() {
        Ok(tile_kind) => tile_kind,
        Err(e) => {
            return Err(SaveError::TileKindError(e));
        },
    };
    let img_dim = tile_kind.avatar_image_dimensions();
    let data = tiles_to_bytes(tiles, TILE_COUNT);
    proof {
        let first = tiles.deep_view().take(256);
        assert forall|i: int| 0 <= i < first.len() implies (#[trigger] first[i]).kind
            == tile_kind && first[i].wf() by {
            assert(tile_kinds(tiles.deep_view())[i] == tile_kind);
            assert(first[i] == tiles.deep_view()[i]);
        }
        lemma_tiles_bytes_len(first, tile_kind);
        tile_kind.lemma_sizes();
        assert(tiles.deep_view().len() == tiles.len());
        assert(first.len() == 256);
        assert(4 * img_dim.width * img_dim.height == 256 * tile_kind.spec_raw_rgba_size_bytes())
            by (nonlinear_arith)
            requires
                img_dim.width == tile_kind.spec_width(),
                img_dim.height == 256 * tile_kind.spec_height(),
                4 * tile_kind.spec_width() * tile_kind.spec_height()
                    == tile_kind.spec_raw_rgba_size_bytes(),
        ;
    }
    let image = Image::from_raw(img_dim.width, img_dim.height, data).unwrap();
    match image.write_image_file(path) {
        Ok(bytes) => Ok(bytes),
        Err(e) => Err(SaveError::ImageWriteError(e)),
    }
}

/// Each kind of avatar image is found again from its dimensions, and no
/// dimensions belong to both kinds.
pub proof fn lemma_avatar_kind_inference(kind: TileKind, dimensions: ImageDimensions)
    ensures
        TileKind::spec_for_avatar_image_dimensions(kind.spec_avatar_image_dimensions()) == Some(
            kind,
        ),
        TileKind::spec_for_avatar_image_dimensions(dimensions) == Some(kind) <==> dimensions
            == kind.spec_avatar_image_dimensions(),
{
    TileKind::SD.lemma_sizes();
    TileKind::HD.lemma_sizes();
}

/// Writing 256 tiles of one kind as an avatar image and reading the image
/// gives the tiles back, and the image holds the bytes of a bin file of
/// the tiles.
pub proof fn lemma_avatar_round_trip(tiles: Seq<TileView>, kind: TileKind)
    requires
        tiles.len() == 256,
        crate::osd::bin_file::wf_tiles_of_kind(tiles, kind),
    ensures
        avatar_image(tiles, kind).wf(),
        avatar_image(tiles, kind).data == tiles_bytes(tiles),
        bin_tiles(avatar_image(tiles, kind).data, kind, 0) == tiles,
{
    assert(tiles.take(256) =~= tiles);
    crate::osd::bin_file::lemma_tiles_round_trip(tiles, kind);
    kind.lemma_sizes();
    let image = avatar_image(tiles, kind);
    assert(image.stride() * image.height == 256 * kind.spec_raw_rgba_size_bytes())
        by (nonlinear_arith)
        requires
            image.stride() == 4 * kind.spec_width(),
            image.height == 256 * kind.spec_height(),
            (4 * kind.spec_width()) * kind.spec_height() == kind.spec_raw_rgba_size_bytes(),
    ;
}

} // verus!
