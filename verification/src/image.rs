//! RGBA pixel buffers and their PNG encoding.
//!
//! An [`Image`] holds `height` rows of `width` pixels, four bytes per pixel
//! (red, green, blue, alpha), row after row. Contracts speak of its
//! [`ImageView`]: the dimensions and the bytes, addressed by byte column and
//! row.

use crate::file::IOError;
use crate::outcome::lemma_bytes_deep_view;
use crate::outcome::result_view;
use vstd::prelude::*;

verus! {

/// The error type of the `image` crate.
#[verifier::external_type_specification]
#[verifier::external_body]
pub struct ExImageError(::image::ImageError);

/// The image that decoding `bytes` as a PNG file gives, or `None` where the
/// decoder rejects them.
pub uninterp spec fn png_decoding(bytes: Seq<u8>) -> Option<ImageView>;

/// The content of the PNG file that holds `image`, or `None` where the
/// encoder rejects the image.
pub uninterp spec fn png_encoding(image: ImageView) -> Option<Seq<u8>>;

/// Calls `image::load_from_memory_with_format` for the PNG format and takes
/// the result as 8-bit RGBA (`DynamicImage::into_rgba8`). The decoded image is
/// a function of the bytes alone, and its buffer holds exactly four bytes for
/// each pixel of the dimensions the decoder reports.
#[verifier::external_body]
fn decode_png(bytes: &[u8]) -> (r: Result<Image, ::image::ImageError>)
    ensures
        r is Ok <==> png_decoding(bytes@) is Some,
        r matches Ok(img) ==> png_decoding(bytes@) == Some(img@) && img@.wf(),
{
    let decoded = ::image::load_from_memory_with_format(bytes, ::image::ImageFormat::Png)?;
    let rgba = decoded.into_rgba8();
    let (width, height) = rgba.dimensions();
    Ok(Image { width, height, data: rgba.into_raw() })
}

/// Calls `image::write_buffer_with_format` for the PNG format on the image's
/// bytes as 8-bit RGBA, writing into memory. The file content is a function of
/// the image alone.
#[verifier::external_body]
fn encode_png(image: &Image) -> (r: Result<Vec<u8>, ::image::ImageError>)
    requires
        image@.wf(),
    ensures
        r is Ok <==> png_encoding(image@) is Some,
        r matches Ok(bytes) ==> png_encoding(image@) == Some(bytes@),
{
    let mut out = std::io::Cursor::new(Vec::new());
    ::image::write_buffer_with_format(
        &mut out,
        &image.data,
        image.width,
        image.height,
        ::image::ColorType::Rgba8,
        ::image::ImageFormat::Png,
    )?;
    Ok(out.into_inner())
}

/// Why an image file could not be read.
#[derive(Debug)]
#[allow(inconsistent_fields)]
pub enum ReadError {
    /// The file could not be opened or read.
    OpenError { file_path: String, error: IOError },
    /// The file's content is no PNG image.
    DecodeError { file_path: String, error: ::image::ImageError },
}

/// What a [`ReadError`] says.
pub enum ReadErrorView {
    OpenError { file_path: Seq<char>, error: IOError },
    DecodeError { file_path: Seq<char> },
}

impl View for ReadError {
    type V = ReadErrorView;

    open spec fn view(&self) -> ReadErrorView {
        match self {
            ReadError::OpenError { file_path, error } => ReadErrorView::OpenError {
                file_path: file_path@,
                error: *error,
            },
            ReadError::DecodeError { file_path, .. } => ReadErrorView::DecodeError {
                file_path: file_path@,
            },
        }
    }
}

/// The image in the image file at `path` with this content.
pub open spec fn image_read(path: Seq<char>, content: Result<Vec<u8>, IOError>) -> Result<
    ImageView,
    ReadErrorView,
> {
    match content {
        Ok(bytes) => match png_decoding(bytes@) {
            Some(image) => Ok(image),
            None => Err(ReadErrorView::DecodeError { file_path: path }),
        },
        Err(error) => Err(ReadErrorView::OpenError { file_path: path, error }),
    }
}

impl ReadError {
    pub fn open_error(file_path: &str, error: IOError) -> (r: Self)
        ensures
            r matches ReadError::OpenError { file_path: p, error: e } && p@ == file_path@ && e
                == error,
    {
        ReadError::OpenError { file_path: file_path.to_owned(), error }
    }

    pub fn decode_error(path: &str, error: ::image::ImageError) -> (r: Self)
        ensures
            r matches ReadError::DecodeError { file_path: p, error: e } && p@ == path@ && e
                == error,
    {
        ReadError::DecodeError { file_path: path.to_owned(), error }
    }

    /// Whether the file could not be read because it does not exist.
    pub open spec fn spec_is_not_found(&self) -> bool {
        self matches ReadError::OpenError { error, .. } && error.kind
            == crate::file::IOErrorKind::NotFound
    }

    /// Whether the file could not be read because it does not exist.
    pub fn is_not_found(&self) -> (r: bool)
        ensures
            r == self.spec_is_not_found(),
    {
        match self {
            ReadError::OpenError { error, .. } => error.kind == crate::file::IOErrorKind::NotFound,
            ReadError::DecodeError { .. } => false,
        }
    }
}

/// What reading the image file at `path` gives: the image that the PNG decoder
/// finds in the file's content.
///
/// `content` is what reading the file gave. A file that could not be read is
/// an `OpenError` with the failure handed in; content that the decoder
/// rejects is a `DecodeError`.
pub fn read_image_file(path: &str, content: &Result<Vec<u8>, IOError>) -> (r: Result<
    Image,
    ReadError,
>)
    ensures
        result_view(r) == image_read(path@, *content),
        r matches Ok(img) ==> img@.wf(),
{
    match content {
        Ok(bytes) => match decode_png(bytes.as_slice()) {
            Ok(image) => Ok(image),
            Err(error) => Err(ReadError::decode_error(path, error)),
        },
        Err(error) => Err(ReadError::open_error(path, *error)),
    }
}

/// Why an image could not be written as a file.
#[derive(Debug)]
pub struct WriteError {
    pub file_path: String,
    pub error: ::image::ImageError,
}

/// What a [`WriteError`] says: the file that could not be written.
pub struct WriteErrorView {
    pub file_path: Seq<char>,
}

impl View for WriteError {
    type V = WriteErrorView;

    open spec fn view(&self) -> WriteErrorView {
        WriteErrorView { file_path: self.file_path@ }
    }
}

/// The content of the image file at `path` that holds `image`.
pub open spec fn image_written(image: ImageView, path: Seq<char>) -> Result<
    Seq<u8>,
    WriteErrorView,
> {
    match png_encoding(image) {
        Some(bytes) => Ok(bytes),
        None => Err(WriteErrorView { file_path: path }),
    }
}

impl WriteError {
    pub fn new(path: &str, error: ::image::ImageError) -> (r: Self)
        ensures
            r.file_path@ == path@,
            r.error == error,
    {
        WriteError { file_path: path.to_owned(), error }
    }
}

/// What an image is: its dimensions and its bytes in row-major order.
pub struct ImageView {
    pub width: nat,
    pub height: nat,
    pub data: Seq<u8>,
}

impl ImageView {
    /// Number of bytes in one row.
    pub open spec fn stride(self) -> nat {
        4 * self.width
    }

    /// The buffer holds exactly `height` rows.
    pub open spec fn wf(self) -> bool {
        self.data.len() == self.stride() * self.height
    }

    /// The byte in byte column `xb` of row `y`.
    pub open spec fn at(self, xb: int, y: int) -> u8
        recommends
            0 <= xb < self.stride(),
            0 <= y < self.height,
    {
        self.data[y * self.stride() + xb]
    }

    /// The image of the given dimensions whose byte in column `xb` of row `y` is `f(xb, y)`.
    pub open spec fn from_fn(width: nat, height: nat, f: spec_fn(int, int) -> u8) -> ImageView {
        ImageView {
            width,
            height,
            data: Seq::new(
                (4 * width) * height,
                |i: int| f(i % (4 * width) as int, i / (4 * width) as int),
            ),
        }
    }

    /// The image of the given dimensions in which every pixel is `pixel`.
    pub open spec fn filled(width: nat, height: nat, pixel: Seq<u8>) -> ImageView {
        ImageView::from_fn(width, height, |xb: int, y: int| pixel[xb % 4])
    }

    /// The rectangle of `width` by `height` pixels whose top left pixel is `(x, y)`.
    pub open spec fn crop(self, x: nat, y: nat, width: nat, height: nat) -> ImageView {
        ImageView::from_fn(width, height, |xb: int, yy: int| self.at(4 * x + xb, y + yy))
    }

    /// Whether byte column `xb` of row `yy` lies in the rectangle of `width` by
    /// `height` pixels whose top left pixel is `(x, y)`.
    pub open spec fn in_rect(x: nat, y: nat, width: nat, height: nat, xb: int, yy: int) -> bool {
        4 * x <= xb < 4 * (x + width) && y <= yy < y + height
    }

    /// This image with `src` drawn over it, the top left pixel of `src` at `(x, y)`.
    pub open spec fn blit(self, src: ImageView, x: nat, y: nat) -> ImageView {
        ImageView::from_fn(
            self.width,
            self.height,
            |xb: int, yy: int|
                if ImageView::in_rect(x, y, src.width, src.height, xb, yy) {
                    src.at(xb - 4 * x, yy - y)
                } else {
                    self.at(xb, yy)
                },
        )
    }

    /// `from_fn` yields a well-formed image that holds `f(xb, y)` at `(xb, y)`.
    pub proof fn lemma_from_fn(width: nat, height: nat, f: spec_fn(int, int) -> u8)
        ensures
            ImageView::from_fn(width, height, f).wf(),
            ImageView::from_fn(width, height, f).width == width,
            ImageView::from_fn(width, height, f).height == height,
            forall|xb: int, y: int|
                0 <= xb < 4 * width && 0 <= y < height ==> #[trigger] ImageView::from_fn(
                    width,
                    height,
                    f,
                ).at(xb, y) == f(xb, y),
    {
        let img = ImageView::from_fn(width, height, f);
        let s = (4 * width) as int;
        assert forall|xb: int, y: int| 0 <= xb < 4 * width && 0 <= y < height implies #[trigger] img.at(
            xb,
            y,
        ) == f(xb, y) by {
            lemma_cell_index(s, height as int, xb, y);
        }
    }

    /// Two well-formed images of the same dimensions that agree at every
    /// position are the same image.
    pub proof fn lemma_ext(a: ImageView, b: ImageView)
        requires
            a.wf(),
            b.wf(),
            a.width == b.width,
            a.height == b.height,
            forall|xb: int, y: int|
                0 <= xb < a.stride() && 0 <= y < a.height ==> a.at(xb, y) == b.at(xb, y),
        ensures
            a == b,
    {
        let s = a.stride() as int;
        assert forall|i: int| 0 <= i < a.data.len() implies a.data[i] == b.data[i] by {
            lemma_index_cell(s, a.height as int, i);
            let y = i / s;
            let xb = i % s;
            assert(a.at(xb, y) == b.at(xb, y));
        }
        assert(a.data =~= b.data);
    }
}

/// An RGBA image: `height` rows of `width` pixels of four bytes each.
#[derive(Debug)]
pub struct Image {
    width: u32,
    height: u32,
    data: Vec<u8>,
}

impl View for Image {
    type V = ImageView;

    closed spec fn view(&self) -> ImageView {
        ImageView { width: self.width as nat, height: self.height as nat, data: self.data@ }
    }
}

impl DeepView for Image {
    type V = ImageView;

    open spec fn deep_view(&self) -> ImageView {
        self@
    }
}

impl Clone for Image {
    fn clone(&self) -> (r: Self)
        ensures
            r@ == self@,
    {
        proof {
            use_type_invariant(self);
        }
        let data = self.data.clone();
        assert(data@ =~= self.data@);
        Image { width: self.width, height: self.height, data }
    }
}

impl Image {
    /// What holds of every image: its buffer holds exactly its rows.
    #[verifier::type_invariant]
    pub open spec fn inv(self) -> bool {
        self@.wf()
    }

    /// Whether an image of these dimensions fits in memory.
    pub open spec fn spec_fits(width: u32, height: u32) -> bool {
        4 * width * height <= usize::MAX
    }

    /// Whether an image of these dimensions fits in memory.
    pub fn fits(width: u32, height: u32) -> (r: bool)
        ensures
            r == Image::spec_fits(width, height),
    {
        assert(4 * width * height <= 0x4_0000_0000_0000_0000) by (nonlinear_arith)
            requires
                width <= 0xffff_ffff,
                height <= 0xffff_ffff,
        ;
        4u128 * (width as u128) * (height as u128) <= usize::MAX as u128
    }

    /// A fully transparent black image.
    pub fn new(width: u32, height: u32) -> (r: Self)
        requires
            Image::spec_fits(width, height),
        ensures
            r@ == ImageView::filled(width as nat, height as nat, seq![0u8, 0u8, 0u8, 0u8]),
    {
        Image::from_pixel(width, height, [0u8, 0u8, 0u8, 0u8])
    }

    /// An image in which every pixel is `pixel`.
    pub fn from_pixel(width: u32, height: u32, pixel: [u8; 4]) -> (r: Self)
        requires
            Image::spec_fits(width, height),
        ensures
            r@ == ImageView::filled(width as nat, height as nat, pixel@),
    {
        assert(4 * width * height == (4 * width) * height) by (nonlinear_arith);
        assert(height > 0 ==> 4 * width <= (4 * width) * height) by (nonlinear_arith);
        let stride: usize = if height == 0 {
            0
        } else {
            4 * (width as usize)
        };
        let n: usize = stride * (height as usize);
        let mut data: Vec<u8> = Vec::with_capacity(n);
        let mut i: usize = 0;
        while i < n
            invariant
                i <= n,
                data@.len() == i,
                forall|j: int| 0 <= j < i ==> data@[j] == pixel@[j % 4],
            decreases n - i,
        {
            data.push(pixel[i % 4]);
            i += 1;
        }
        assert(n == (4 * width) * height) by (nonlinear_arith)
            requires
                n == stride * height,
                height == 0 || stride == 4 * width,
        ;
        let r = Image { width, height, data };
        proof {
            let goal = ImageView::filled(width as nat, height as nat, pixel@);
            ImageView::lemma_from_fn(
                width as nat,
                height as nat,
                |xb: int, y: int| pixel@[xb % 4],
            );
            assert forall|xb: int, y: int| 0 <= xb < r@.stride() && 0 <= y < r@.height implies r@.at(
                xb,
                y,
            ) == goal.at(xb, y) by {
                lemma_cell_index(4 * width as int, height as int, xb, y);
                let k = y * (4 * width) + xb;
                assert(k % 4 == xb % 4) by {
                    vstd::arithmetic::div_mod::lemma_mod_mod(k, 4, width as int);
                }
            }
            ImageView::lemma_ext(r@, goal);
        }
        r
    }

    /// The image of the given dimensions over `data`, if `data` holds exactly
    /// four bytes for each of its pixels.
    pub fn from_raw(width: u32, height: u32, data: Vec<u8>) -> (r: Option<Self>)
        ensures
            r is Some <==> data@.len() == 4 * width * height,
            r matches Some(img) ==> img@ == (ImageView {
                width: width as nat,
                height: height as nat,
                data: data@,
            }),
    {
        assert(4 * width * height <= 0x4_0000_0000_0000_0000) by (nonlinear_arith)
            requires
                width <= 0xffff_ffff,
                height <= 0xffff_ffff,
        ;
        assert(4 * width * height == (4 * width) * height) by (nonlinear_arith);
        if 4u128 * (width as u128) * (height as u128) == data.len() as u128 {
            Some(Image { width, height, data })
        } else {
            None
        }
    }

    pub fn width(&self) -> (r: u32)
        ensures
            r == self@.width,
    {
        self.width
    }

    pub fn height(&self) -> (r: u32)
        ensures
            r == self@.height,
    {
        self.height
    }

    /// Width and height, in this order.
    pub fn dimensions(&self) -> (r: (u32, u32))
        ensures
            r.0 == self@.width,
            r.1 == self@.height,
    {
        (self.width, self.height)
    }

    /// The rectangle of `width` by `height` pixels whose top left pixel is
    /// `(x, y)`, as an image of its own.
    pub fn sub_image(&self, x: u32, y: u32, width: u32, height: u32) -> (r: Image)
        requires
            x + width <= self@.width,
            y + height <= self@.height,
        ensures
            r@ == self@.crop(x as nat, y as nat, width as nat, height as nat),
    {
        proof {
            use_type_invariant(self);
            ImageView::lemma_from_fn(
                width as nat,
                height as nat,
                |xb: int, yy: int| self@.at(4 * x + xb, y + yy),
            );
        }
        let ghost goal = self@.crop(x as nat, y as nat, width as nat, height as nat);
        let mut data: Vec<u8> = Vec::new();
        if width == 0 || height == 0 {
            assert((4 * width) * height == 0) by (nonlinear_arith)
                requires
                    width == 0 || height == 0,
            ;
            let r = Image { width, height, data };
            assert(r@.data =~= goal.data);
            return r;
        }
        assert(self.data@.len() == (4 * self.width) * self.height);
        assert(self.data.len() <= usize::MAX);
        assert(4 * self.width <= (4 * self.width) * self.height) by (nonlinear_arith)
            requires
                self.height > 0,
        ;
        let sstride: usize = 4 * (self.width as usize);
        let ostride: usize = 4 * (width as usize);
        let mut r: usize = 0;
        while r < height as usize
            invariant
                r <= height,
                0 < width,
                x + width <= self.width,
                y + height <= self.height,
                sstride == 4 * self.width,
                ostride == 4 * width,
                self.data@.len() == sstride * self.height,
                self.data@.len() <= usize::MAX,
                self@.wf(),
                goal.wf(),
                goal.width == width,
                goal.height == height,
                goal == self@.crop(x as nat, y as nat, width as nat, height as nat),
                forall|xb: int, yy: int|
                    0 <= xb < 4 * width && 0 <= yy < height ==> #[trigger] goal.at(xb, yy)
                        == self@.at(4 * x + xb, y + yy),
                data@.len() == r * ostride,
                data@.len() <= goal.data.len(),
                forall|j: int| 0 <= j < data@.len() ==> data@[j] == goal.data[j],
            decreases height - r,
        {
            proof {
                lemma_cell_index(sstride as int, self.height as int, 4 * x as int, y + r);
            }
            let src_row: usize = (y as usize + r) * sstride + 4 * (x as usize);
            let mut b: usize = 0;
            while b < ostride
                invariant
                    b <= ostride,
                    r < height,
                    0 < width,
                    x + width <= self.width,
                    y + height <= self.height,
                    sstride == 4 * self.width,
                    ostride == 4 * width,
                    self.data@.len() == sstride * self.height,
                self.data@.len() <= usize::MAX,
                    self@.wf(),
                    goal.wf(),
                    goal.width == width,
                    goal.height == height,
                    forall|xb: int, yy: int|
                        0 <= xb < 4 * width && 0 <= yy < height ==> #[trigger] goal.at(xb, yy)
                            == self@.at(4 * x + xb, y + yy),
                    src_row == (y + r) * sstride + 4 * x,
                    data@.len() == r * ostride + b,
                    data@.len() <= goal.data.len(),
                forall|j: int| 0 <= j < data@.len() ==> data@[j] == goal.data[j],
                decreases ostride - b,
            {
                proof {
                    lemma_cell_index(sstride as int, self.height as int, 4 * x + b, y + r);
                    lemma_cell_index(ostride as int, height as int, b as int, r as int);
                    assert(goal.at(b as int, r as int) == self@.at(4 * x + b, y + r));
                }
                data.push(self.data[src_row + b]);
                b += 1;
            }
            assert((r + 1) * ostride == r * ostride + ostride) by (nonlinear_arith);
            r += 1;
        }
        assert(height * ostride == (4 * width) * height) by (nonlinear_arith)
            requires
                ostride == 4 * width,
        ;
        let r = Image { width, height, data };
        assert(r@.data =~= goal.data);
        r
    }

    /// Draws `src` over this image, the top left pixel of `src` at `(x, y)`.
    pub fn copy_from(&mut self, src: &Image, x: u32, y: u32)
        requires
            x + src@.width <= old(self)@.width,
            y + src@.height <= old(self)@.height,
        ensures
            final(self)@ == old(self)@.blit(src@, x as nat, y as nat),
    {
        proof {
            use_type_invariant(&*self);
            use_type_invariant(src);
            ImageView::lemma_from_fn(
                self@.width,
                self@.height,
                |xb: int, yy: int|
                    if ImageView::in_rect(x as nat, y as nat, src@.width, src@.height, xb, yy) {
                        src@.at(xb - 4 * x, yy - y)
                    } else {
                        self@.at(xb, yy)
                    },
            );
        }
        let ghost before = self@;
        let ghost goal = before.blit(src@, x as nat, y as nat);
        if src.width == 0 || src.height == 0 {
            proof {
                ImageView::lemma_ext(self@, goal);
            }
            return ;
        }
        assert(self.data@.len() == (4 * self.width) * self.height);
        assert(self.data.len() <= usize::MAX);
        assert(src.data@.len() == (4 * src.width) * src.height);
        assert(src.data.len() <= usize::MAX);
        assert(4 * self.width <= (4 * self.width) * self.height) by (nonlinear_arith)
            requires
                self.height > 0,
        ;
        let dstride: usize = 4 * (self.width as usize);
        let sstride: usize = 4 * (src.width as usize);
        let mut r: usize = 0;
        while r < src.height as usize
            invariant
                r <= src.height,
                0 < src.width,
                x + src.width <= self.width,
                y + src.height <= self.height,
                dstride == 4 * self.width,
                sstride == 4 * src.width,
                self.data@.len() == dstride * self.height,
                src.data@.len() == sstride * src.height,
                self.data@.len() <= usize::MAX,
                src.data@.len() <= usize::MAX,
                src@.wf(),
                self@.wf(),
                self@.width == before.width,
                self@.height == before.height,
                forall|xb: int, yy: int|
                    0 <= xb < dstride && 0 <= yy < self.height ==> #[trigger] self@.at(xb, yy) == (
                    if ImageView::in_rect(x as nat, y as nat, src@.width, r as nat, xb, yy) {
                        src@.at(xb - 4 * x, yy - y)
                    } else {
                        before.at(xb, yy)
                    }),
            decreases src.height - r,
        {
            proof {
                lemma_cell_index(dstride as int, self.height as int, 4 * x as int, y + r);
                lemma_cell_index(sstride as int, src.height as int, 0, r as int);
            }
            let dst_row: usize = (y as usize + r) * dstride + 4 * (x as usize);
            let src_row: usize = r * sstride;
            let mut b: usize = 0;
            while b < sstride
                invariant
                    b <= sstride,
                    r < src.height,
                    0 < src.width,
                    x + src.width <= self.width,
                    y + src.height <= self.height,
                    dstride == 4 * self.width,
                    sstride == 4 * src.width,
                    self.data@.len() == dstride * self.height,
                    src.data@.len() == sstride * src.height,
                    self.data@.len() <= usize::MAX,
                    src.data@.len() <= usize::MAX,
                    src@.wf(),
                    self@.wf(),
                    self@.width == before.width,
                    self@.height == before.height,
                    dst_row == (y + r) * dstride + 4 * x,
                    src_row == r * sstride,
                    forall|xb: int, yy: int|
                        0 <= xb < dstride && 0 <= yy < self.height ==> #[trigger] self@.at(xb, yy)
                            == (if ImageView::in_rect(
                            x as nat,
                            y as nat,
                            src@.width,
                            r as nat,
                            xb,
                            yy,
                        ) || (yy == y + r && 4 * x <= xb < 4 * x + b) {
                            src@.at(xb - 4 * x, yy - y)
                        } else {
                            before.at(xb, yy)
                        }),
                decreases sstride - b,
            {
                proof {
                    lemma_cell_index(dstride as int, self.height as int, 4 * x + b, y + r);
                    lemma_cell_index(sstride as int, src.height as int, b as int, r as int);
                }
                let ghost prev = self@;
                let v = src.data[src_row + b];
                self.data[dst_row + b] = v;
                proof {
                    assert forall|xb: int, yy: int|
                        0 <= xb < dstride && 0 <= yy < self.height implies #[trigger] self@.at(
                        xb,
                        yy,
                    ) == (if ImageView::in_rect(x as nat, y as nat, src@.width, r as nat, xb, yy)
                        || (yy == y + r && 4 * x <= xb < 4 * x + b + 1) {
                        src@.at(xb - 4 * x, yy - y)
                    } else {
                        before.at(xb, yy)
                    }) by {
                        lemma_cell_index(dstride as int, self.height as int, xb, yy);
                        assert(prev.at(xb, yy) == prev.data[yy * dstride + xb]);
                        if yy == y + r && xb == 4 * x + b {
                            assert(src@.at(xb - 4 * x, yy - y) == v);
                        } else {
                            assert(yy * dstride + xb != dst_row + b);
                        }
                    }
                }
                b += 1;
            }
            r += 1;
        }
        proof {
            ImageView::lemma_ext(self@, goal);
        }
    }

    /// The content of the PNG file that holds this image. `path` is where the
    /// file is meant to go; it is named in the error where the encoder rejects
    /// the image.
    pub fn write_image_file(&self, path: &str) -> (r: Result<Vec<u8>, WriteError>)
        ensures
            result_view(r) == image_written(self@, path@),
    {
        proof {
            use_type_invariant(self);
        }
        match encode_png(self) {
            Ok(bytes) => {
                proof {
                    lemma_bytes_deep_view(bytes);
                }
                Ok(bytes)
            },
            Err(error) => Err(WriteError::new(path, error)),
        }
    }

    /// The bytes of the image, row after row.
    pub fn as_raw(&self) -> (r: &Vec<u8>)
        ensures
            r@ == self@.data,
            self@.wf(),
    {
        proof {
            use_type_invariant(self);
        }
        &self.data
    }

    /// The bytes of the image, row after row.
    pub fn into_raw(self) -> (r: Vec<u8>)
        ensures
            r@ == self@.data,
            self@.wf(),
    {
        proof {
            use_type_invariant(&self);
        }
        self.data
    }
}

/// Position `(xb, y)` of a buffer with rows of `s` bytes is index `y * s + xb`,
/// which lies in the buffer and from which `xb` and `y` are found again.
pub proof fn lemma_cell_index(s: int, h: int, xb: int, y: int)
    requires
        0 <= xb < s,
        0 <= y < h,
    ensures
        0 <= y * s + xb < s * h,
        (y * s + xb) % s == xb,
        (y * s + xb) / s == y,
{
    assert(0 <= y * s && y * s + s <= s * h) by (nonlinear_arith)
        requires
            0 <= y < h,
            0 < s,
    ;
    vstd::arithmetic::div_mod::lemma_fundamental_div_mod_converse(y * s + xb, s, y, xb);
}

/// Index `i` of a buffer of `h` rows of `s` bytes is position `(i % s, i / s)`.
pub proof fn lemma_index_cell(s: int, h: int, i: int)
    requires
        0 <= i < s * h,
        0 <= s,
        0 <= h,
    ensures
        0 < s,
        0 <= i % s < s,
        0 <= i / s < h,
        i == (i / s) * s + i % s,
{
    assert(0 < s) by (nonlinear_arith)
        requires
            0 <= i < s * h,
            0 <= s,
    ;
    vstd::arithmetic::div_mod::lemma_fundamental_div_mod(i, s);
    vstd::arithmetic::div_mod::lemma_mod_bound(i, s);
    vstd::arithmetic::div_mod::lemma_div_pos_is_pos(i, s);
    vstd::arithmetic::div_mod::lemma_multiply_divide_lt(i, s, h);
    assert(s * (i / s) == (i / s) * s) by (nonlinear_arith);
}

} // verus!
