//! A tile: one glyph cell of an OSD font, an RGBA image of one of two fixed
//! sizes.

use crate::dimensions;
use crate::file::FileError;
use crate::file::IOError;
use crate::image::read_image_file;
use crate::osd::bin_file::BinFileReader;
use crate::image::Image;
use crate::image::ImageView;
use crate::image::image_read;
use crate::image::ReadError as ImageReadError;
use crate::image::ReadErrorView as ImageReadErrorView;
use crate::outcome::result_view;
use vstd::prelude::*;

pub mod container;
pub mod grid;

verus! {

pub type Dimensions = dimensions::Dimensions;

/// The dimensions that match no kind of tile.
#[derive(PartialEq, Eq, Structural, Debug, Clone, Copy)]
pub struct InvalidDimensionsError {
    pub dimensions: Dimensions,
}

impl InvalidDimensionsError {
    pub fn dimensions(&self) -> (r: &Dimensions)
        ensures
            *r == self.dimensions,
    {
        &self.dimensions
    }
}

/// The number of bytes that matches no kind of tile.
#[derive(PartialEq, Eq, Structural, Debug, Clone, Copy)]
pub struct InvalidSizeError(pub u64);

/// The height in pixels that matches no kind of tile.
#[derive(PartialEq, Eq, Structural, Debug, Clone, Copy)]
pub struct InvalidHeightError(pub u32);

/// The resolution class of a tile.
#[derive(PartialEq, Eq, Structural, Debug, Clone, Copy)]
pub enum Kind {
    SD,
    HD,
}

impl Kind {
    /// Width and height of a tile of this kind: 36 by 54 for SD, 24 by 36 for HD.
    pub open spec fn spec_dimensions(&self) -> Dimensions {
        match self {
            Kind::SD => Dimensions { width: 36, height: 54 },
            Kind::HD => Dimensions { width: 24, height: 36 },
        }
    }

    /// Width of a tile of this kind, in pixels.
    pub open spec fn spec_width(&self) -> nat {
        self.spec_dimensions().width as nat
    }

    /// Height of a tile of this kind, in pixels.
    pub open spec fn spec_height(&self) -> nat {
        self.spec_dimensions().height as nat
    }

    /// Number of bytes of a tile of this kind: four for each pixel.
    pub open spec fn spec_raw_rgba_size_bytes(&self) -> nat {
        self.spec_width() * self.spec_height() * 4
    }

    /// The kind whose tiles have these dimensions.
    pub open spec fn spec_for_dimensions(dimensions: Dimensions) -> Option<Kind> {
        if dimensions == Kind::SD.spec_dimensions() {
            Some(Kind::SD)
        } else if dimensions == Kind::HD.spec_dimensions() {
            Some(Kind::HD)
        } else {
            None
        }
    }

    /// The kind whose tiles hold this number of bytes.
    pub open spec fn spec_for_size_bytes(bytes: int) -> Option<Kind> {
        if bytes == Kind::SD.spec_raw_rgba_size_bytes() {
            Some(Kind::SD)
        } else if bytes == Kind::HD.spec_raw_rgba_size_bytes() {
            Some(Kind::HD)
        } else {
            None
        }
    }

    /// The kind whose tiles have this height.
    pub open spec fn spec_for_height(height: int) -> Option<Kind> {
        if height == Kind::SD.spec_height() {
            Some(Kind::SD)
        } else if height == Kind::HD.spec_height() {
            Some(Kind::HD)
        } else {
            None
        }
    }

    /// The sizes of the two kinds, worked out.
    pub proof fn lemma_sizes(self)
        ensures
            self == Kind::SD ==> self.spec_width() == 36 && self.spec_height() == 54
                && self.spec_raw_rgba_size_bytes() == 7776,
            self == Kind::HD ==> self.spec_width() == 24 && self.spec_height() == 36
                && self.spec_raw_rgba_size_bytes() == 3456,
            (4 * self.spec_width()) * self.spec_height() == self.spec_raw_rgba_size_bytes(),
            4 * self.spec_width() * self.spec_height() == self.spec_raw_rgba_size_bytes(),
    {
        match self {
            Kind::SD => {
                assert((4 * 36) * 54 == 7776 && 36 * 54 * 4 == 7776) by (nonlinear_arith);
            },
            Kind::HD => {
                assert((4 * 24) * 36 == 3456 && 24 * 36 * 4 == 3456) by (nonlinear_arith);
            },
        }
    }

    /// Each kind is found again from the size, the dimensions and the height
    /// of its tiles, and whatever a kind is found from is that of the kind:
    /// no size, no dimensions and no height belong to both kinds.
    pub proof fn lemma_kind_inference(self, bytes: int, dimensions: Dimensions, height: int)
        ensures
            Kind::spec_for_size_bytes(self.spec_raw_rgba_size_bytes() as int) == Some(self),
            Kind::spec_for_dimensions(self.spec_dimensions()) == Some(self),
            Kind::spec_for_height(self.spec_height() as int) == Some(self),
            Kind::spec_for_size_bytes(bytes) == Some(self) <==> bytes
                == self.spec_raw_rgba_size_bytes(),
            Kind::spec_for_dimensions(dimensions) == Some(self) <==> dimensions
                == self.spec_dimensions(),
            Kind::spec_for_height(height) == Some(self) <==> height == self.spec_height(),
    {
        Kind::SD.lemma_sizes();
        Kind::HD.lemma_sizes();
    }

    #[verifier::when_used_as_spec(spec_dimensions)]
    pub fn dimensions(&self) -> (r: Dimensions)
        ensures
            r == self.spec_dimensions(),
    {
        match self {
            Kind::SD => Dimensions { width: 36, height: 54 },
            Kind::HD => Dimensions { width: 24, height: 36 },
        }
    }

    /// The name of the directory that holds this kind's part of a set.
    pub fn set_dir_name(&self) -> (r: &'static str)
        ensures
            r@ == self.spec_set_dir_name(),
    {
        match self {
            Kind::SD => "SD",
            Kind::HD => "HD",
        }
    }

    pub open spec fn spec_set_dir_name(&self) -> Seq<char> {
        match self {
            Kind::SD => "SD"@,
            Kind::HD => "HD"@,
        }
    }

    /// The path of the directory that holds this kind's part of the set in `base_dir`.
    pub fn set_dir_path(&self, base_dir: &str) -> (r: String)
        ensures
            r@ == crate::path::spec_join(base_dir@, self.spec_set_dir_name()),
    {
        crate::path::join(base_dir, self.set_dir_name())
    }

    #[verifier::when_used_as_spec(spec_raw_rgba_size_bytes_usize)]
    pub fn raw_rgba_size_bytes(&self) -> (r: usize)
        ensures
            r == self.spec_raw_rgba_size_bytes(),
            r == 7776 || r == 3456,
    {
        match self {
            Kind::SD => 7776,
            Kind::HD => 3456,
        }
    }

    pub open spec fn spec_raw_rgba_size_bytes_usize(&self) -> usize {
        self.spec_raw_rgba_size_bytes() as usize
    }

    pub fn for_size_bytes(bytes: u64) -> (r: Result<Self, InvalidSizeError>)
        ensures
            match Kind::spec_for_size_bytes(bytes as int) {
                Some(kind) => r == Ok::<Kind, InvalidSizeError>(kind),
                None => r == Err::<Kind, InvalidSizeError>(InvalidSizeError(bytes)),
            },
    {
        if bytes == 7776 {
            Ok(Kind::SD)
        } else if bytes == 3456 {
            Ok(Kind::HD)
        } else {
            Err(InvalidSizeError(bytes))
        }
    }

    pub fn for_height(height: u32) -> (r: Result<Self, InvalidHeightError>)
        ensures
            match Kind::spec_for_height(height as int) {
                Some(kind) => r == Ok::<Kind, InvalidHeightError>(kind),
                None => r == Err::<Kind, InvalidHeightError>(InvalidHeightError(height)),
            },
    {
        if height == 54 {
            Ok(Kind::SD)
        } else if height == 36 {
            Ok(Kind::HD)
        } else {
            Err(InvalidHeightError(height))
        }
    }

    /// The kind whose tiles have these dimensions.
    pub fn try_from(dimensions: Dimensions) -> (r: Result<Self, InvalidDimensionsError>)
        ensures
            match Kind::spec_for_dimensions(dimensions) {
                Some(kind) => r == Ok::<Kind, InvalidDimensionsError>(kind),
                None => r == Err::<Kind, InvalidDimensionsError>(
                    InvalidDimensionsError { dimensions },
                ),
            },
    {
        if dimensions.width == 36 && dimensions.height == 54 {
            Ok(Kind::SD)
        } else if dimensions.width == 24 && dimensions.height == 36 {
            Ok(Kind::HD)
        } else {
            Err(InvalidDimensionsError { dimensions })
        }
    }

    /// The kind whose tiles have these dimensions.
    pub fn for_dimensions(dimensions: Dimensions) -> (r: Result<Self, InvalidDimensionsError>)
        ensures
            match Kind::spec_for_dimensions(dimensions) {
                Some(kind) => r == Ok::<Kind, InvalidDimensionsError>(kind),
                None => r == Err::<Kind, InvalidDimensionsError>(
                    InvalidDimensionsError { dimensions },
                ),
            },
    {
        Kind::try_from(dimensions)
    }

    /// The kind as it reads in a message: `SD` or `HD`.
    pub fn name(&self) -> (r: &'static str)
        ensures
            r@ == self.spec_set_dir_name(),
    {
        self.set_dir_name()
    }

    /// The kind as it reads in a message: `SD` or `HD`.
    pub fn to_string(&self) -> (r: String)
        ensures
            r@ == self.spec_set_dir_name(),
    {
        self.set_dir_name().to_owned()
    }

    /// Both kinds, SD first.
    pub fn iter() -> (r: [Kind; 2])
        ensures
            r@ == seq![Kind::SD, Kind::HD],
    {
        [Kind::SD, Kind::HD]
    }
}

/// Why a tile could not be had from a file.
#[derive(Debug)]
pub enum LoadError {
    /// The file could not be read.
    FileError(FileError),
    /// The file could not be read as an image.
    ImageReadError(ImageReadError),
    /// The image in the file has the dimensions of no kind of tile.
    InvalidDimensionsError { file_path: String, dimensions: Dimensions },
}

/// What a [`LoadError`] says.
pub enum LoadErrorView {
    FileError(FileError),
    ImageReadError(ImageReadErrorView),
    InvalidDimensionsError { file_path: Seq<char>, dimensions: Dimensions },
}

impl View for LoadError {
    type V = LoadErrorView;

    open spec fn view(&self) -> LoadErrorView {
        match self {
            LoadError::FileError(error) => LoadErrorView::FileError(*error),
            LoadError::ImageReadError(error) => LoadErrorView::ImageReadError(error@),
            LoadError::InvalidDimensionsError { file_path, dimensions } => {
                LoadErrorView::InvalidDimensionsError {
                    file_path: file_path@,
                    dimensions: *dimensions,
                }
            },
        }
    }
}

impl LoadError {
    pub fn invalid_dimensions(file_path: &str, dimensions: Dimensions) -> (r: Self)
        ensures
            r matches LoadError::InvalidDimensionsError { file_path: p, dimensions: d } && p@
                == file_path@ && d == dimensions,
    {
        LoadError::InvalidDimensionsError { file_path: file_path.to_owned(), dimensions }
    }

    /// Whether the tile could not be had because its file does not exist.
    pub open spec fn spec_is_not_found(&self) -> bool {
        self matches LoadError::ImageReadError(e) && e.spec_is_not_found()
    }

    /// Whether the tile could not be had because its file does not exist.
    pub fn is_not_found(&self) -> (r: bool)
        ensures
            r == self.spec_is_not_found(),
    {
        match self {
            LoadError::ImageReadError(e) => e.is_not_found(),
            _ => false,
        }
    }
}

pub type Bytes = Vec<u8>;

/// What a tile is: its kind and its bytes, row after row, four for each pixel.
pub struct TileView {
    pub kind: Kind,
    pub pixels: Seq<u8>,
}

impl TileView {
    /// The tile holds as many bytes as its kind asks for.
    pub open spec fn wf(self) -> bool {
        self.pixels.len() == self.kind.spec_raw_rgba_size_bytes()
    }

    /// The tile as an image.
    pub open spec fn image(self) -> ImageView {
        ImageView { width: self.kind.spec_width(), height: self.kind.spec_height(), data: self.pixels }
    }

    /// The fully transparent tile of a kind: every byte is zero.
    pub open spec fn blank(kind: Kind) -> TileView {
        TileView { kind, pixels: Seq::new(kind.spec_raw_rgba_size_bytes(), |i: int| 0u8) }
    }

    /// The tile that an image of a tile's dimensions holds.
    pub open spec fn of_image(image: ImageView) -> Option<TileView> {
        match Kind::spec_for_dimensions(
            Dimensions { width: image.width as u32, height: image.height as u32 },
        ) {
            Some(kind) => Some(TileView { kind, pixels: image.data }),
            None => None,
        }
    }

    /// The image of a tile holds the tile.
    pub proof fn lemma_image_round_trip(self)
        ensures
            TileView::of_image(self.image()) == Some(self),
    {
        self.kind.lemma_sizes();
    }

    /// The tile in the image file at `path` with this content.
    pub open spec fn of_image_file(path: Seq<char>, content: Result<Vec<u8>, IOError>) -> Result<
        TileView,
        LoadErrorView,
    > {
        match image_read(path, content) {
            Ok(image) => match TileView::of_image(image) {
                Some(tile) => Ok(tile),
                None => Err(
                    LoadErrorView::InvalidDimensionsError {
                        file_path: path,
                        dimensions: Dimensions {
                            width: image.width as u32,
                            height: image.height as u32,
                        },
                    },
                ),
            },
            Err(error) => Err(LoadErrorView::ImageReadError(error)),
        }
    }
}

/// An RGBA image of the dimensions of its kind.
#[derive(Debug)]
pub struct Tile {
    kind: Kind,
    image: Image,
}

impl View for Tile {
    type V = TileView;

    closed spec fn view(&self) -> TileView {
        TileView { kind: self.kind, pixels: self.image@.data }
    }
}

impl DeepView for Tile {
    type V = TileView;

    open spec fn deep_view(&self) -> TileView {
        self@
    }
}

impl Clone for Tile {
    fn clone(&self) -> (r: Self)
        ensures
            r@ == self@,
    {
        proof {
            use_type_invariant(self);
        }
        Tile { kind: self.kind, image: self.image.clone() }
    }
}

impl Tile {
    /// What holds of every tile: its image has the dimensions of its kind.
    #[verifier::type_invariant]
    pub closed spec fn inv(self) -> bool {
        &&& self.image@.wf()
        &&& self.image@.width == self.kind.spec_width()
        &&& self.image@.height == self.kind.spec_height()
    }

    /// The fully transparent tile of a kind.
    pub fn new(kind: Kind) -> (r: Self)
        ensures
            r@ == TileView::blank(kind),
    {
        let Dimensions { width, height } = kind.dimensions();
        proof {
            kind.lemma_sizes();
        }
        let image = Image::new(width, height);
        proof {
            ImageView::lemma_from_fn(
                width as nat,
                height as nat,
                |xb: int, y: int| seq![0u8, 0u8, 0u8, 0u8][xb % 4],
            );
            assert(image@.data =~= TileView::blank(kind).pixels);
        }
        Tile { kind, image }
    }

    pub fn kind(&self) -> (r: Kind)
        ensures
            r == self@.kind,
    {
        self.kind
    }

    /// The tile's image. It has the dimensions of the tile's kind.
    pub fn image(&self) -> (r: &Image)
        ensures
            r@ == self@.image(),
            self@.wf(),
    {
        proof {
            use_type_invariant(self);
            self.kind.lemma_sizes();
        }
        &self.image
    }

    /// Width and height of the tile's image, in this order.
    pub fn dimensions(&self) -> (r: (u32, u32))
        ensures
            r.0 == self@.kind.spec_width(),
            r.1 == self@.kind.spec_height(),
    {
        proof {
            use_type_invariant(self);
        }
        self.image.dimensions()
    }

    /// The tile's bytes, row after row.
    pub fn as_raw(&self) -> (r: &Vec<u8>)
        ensures
            r@ == self@.pixels,
            self@.wf(),
    {
        proof {
            use_type_invariant(self);
            self.kind.lemma_sizes();
        }
        self.image.as_raw()
    }

    /// The tile in the image file at `path`, whose content is `content`.
    ///
    /// The file must decode to an image of a tile's dimensions, which decide
    /// the kind.
    pub fn load_image_file(path: &str, content: &Result<Vec<u8>, IOError>) -> (r: Result<
        Self,
        LoadError,
    >)
        ensures
            result_view(r) == TileView::of_image_file(path@, *content),
            r matches Ok(t) ==> t@.wf(),
    {
        match read_image_file(path, content) {
            Ok(image) => match Tile::try_from_image(image) {
                Ok(tile) => Ok(tile),
                Err(error) => Err(LoadError::invalid_dimensions(path, error.dimensions)),
            },
            Err(error) => Err(LoadError::ImageReadError(error)),
        }
    }

    /// The tile at the current position of a bin file, which moves on by
    /// one tile. At the end of the file there is nothing to read.
    pub fn read_from_bin_file(file: &mut BinFileReader) -> (r: Result<Self, LoadError>)
        ensures
            final(file)@.wf(),
            final(file)@.file_path == old(file)@.file_path,
            final(file)@.tile_kind == old(file)@.tile_kind,
            final(file)@.data == old(file)@.data,
            old(file)@.pos < 256 ==> final(file)@.pos == old(file)@.pos + 1 && (r matches Ok(tile)
                && tile@ == crate::osd::bin_file::bin_tile(
                old(file)@.data,
                old(file)@.tile_kind,
                old(file)@.pos as int,
            )),
            old(file)@.pos >= 256 ==> final(file)@.pos == old(file)@.pos && (r matches Err(
                LoadError::FileError(e),
            ) && e.action == crate::file::Action::Read && e.path@ == old(file)@.file_path
                && e.error.kind == crate::file::IOErrorKind::UnexpectedEof),
    {
        match file.read_tile() {
            Ok(tile) => Ok(tile),
            Err(error) => {
                let path = file.file_path();
                Err(LoadError::FileError(FileError::new(crate::file::Action::Read, path, error)))
            },
        }
    }

    /// The tile made of these bytes, whose number decides the kind.
    pub fn try_from(bytes: Bytes) -> (r: Result<Self, InvalidSizeError>)
        ensures
            match Kind::spec_for_size_bytes(bytes@.len() as int) {
                Some(kind) => r matches Ok(t) && t@ == (TileView { kind, pixels: bytes@ }),
                None => r matches Err(e) && e == InvalidSizeError(bytes@.len() as u64),
            },
            r matches Ok(t) ==> t@.wf(),
    {
        let ghost pixels = bytes@;
        match Kind::for_size_bytes(bytes.len() as u64) {
            Ok(kind) => {
                let Dimensions { width, height } = kind.dimensions();
                proof {
                    kind.lemma_sizes();
                }
                let image = Image::from_raw(width, height, bytes).unwrap();
                Ok(Tile { kind, image })
            },
            Err(error) => Err(error),
        }
    }

    /// The tile that an image of a tile's dimensions holds.
    pub fn try_from_image(image: Image) -> (r: Result<Self, InvalidDimensionsError>)
        ensures
            match TileView::of_image(image@) {
                Some(tile) => r matches Ok(t) && t@ == tile,
                None => r matches Err(e) && e.dimensions == (Dimensions {
                    width: image@.width as u32,
                    height: image@.height as u32,
                }),
            },
            r matches Ok(t) ==> t@.wf(),
    {
        let (width, height) = image.dimensions();
        proof {
            use_type_invariant(&image);
        }
        match Kind::try_from(Dimensions { width, height }) {
            Ok(kind) => {
                proof {
                    kind.lemma_sizes();
                }
                Ok(Tile { kind, image })
            },
            Err(error) => Err(error),
        }
    }
}

} // verus!
