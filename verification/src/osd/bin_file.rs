//! The bin file: 256 tiles of one kind, the bytes of one after those of the
//! other, with nothing before, between or after them.

use crate::file::IOError;
use crate::file::IOErrorKind;
use crate::osd::tile::container::uniq_tile_kind::tile_kinds;
use crate::osd::tile::container::tile_set::TileSet;
use crate::osd::tile::container::tile_set::TileSetView;
use crate::osd::tile::grid::Grid as TileGrid;
use crate::osd::tile::InvalidSizeError;
use crate::osd::tile::Kind as TileKind;
use crate::osd::tile::Tile;
use crate::osd::tile::TileView;
use crate::outcome::result_view;
use crate::path::spec_join;
use vstd::prelude::*;
use vstd::slice::slice_subrange;
use vstd::slice::slice_to_vec;
use vstd::string::StringExecFns;

verus! {

/// The number of tiles in a bin file.
pub const TILE_COUNT: usize = 256;

impl TileKind {
    /// The size of a bin file of this kind: that of 256 tiles.
    pub open spec fn spec_bin_file_size_bytes(&self) -> nat {
        256 * self.spec_raw_rgba_size_bytes()
    }

    /// The kind of the bin files of this size.
    pub open spec fn spec_for_bin_file_size_bytes(bytes: int) -> Option<TileKind> {
        if bytes == TileKind::SD.spec_bin_file_size_bytes() {
            Some(TileKind::SD)
        } else if bytes == TileKind::HD.spec_bin_file_size_bytes() {
            Some(TileKind::HD)
        } else {
            None
        }
    }

    pub fn bin_file_size_bytes(&self) -> (r: usize)
        ensures
            r == self.spec_bin_file_size_bytes(),
    {
        proof {
            self.lemma_sizes();
        }
        self.raw_rgba_size_bytes() * TILE_COUNT
    }

    pub fn for_bin_file_size_bytes(bytes: u64) -> (r: Result<Self, InvalidSizeError>)
        ensures
            match TileKind::spec_for_bin_file_size_bytes(bytes as int) {
                Some(kind) => r == Ok::<TileKind, InvalidSizeError>(kind),
                None => r == Err::<TileKind, InvalidSizeError>(InvalidSizeError(bytes)),
            },
    {
        proof {
            TileKind::SD.lemma_sizes();
            TileKind::HD.lemma_sizes();
        }
        if bytes == TileKind::SD.bin_file_size_bytes() as u64 {
            Ok(TileKind::SD)
        } else if bytes == TileKind::HD.bin_file_size_bytes() as u64 {
            Ok(TileKind::HD)
        } else {
            Err(InvalidSizeError(bytes))
        }
    }
}

/// The tile at `index` of a bin file of the given kind.
pub open spec fn bin_tile(data: Seq<u8>, kind: TileKind, index: int) -> TileView {
    TileView {
        kind,
        pixels: data.subrange(
            index * kind.spec_raw_rgba_size_bytes(),
            (index + 1) * kind.spec_raw_rgba_size_bytes(),
        ),
    }
}

/// Where the bytes of the tile at `index` lie in a bin file.
pub proof fn lemma_bin_tile_range(kind: TileKind, index: int)
    requires
        0 <= index < 256,
    ensures
        0 <= index * kind.spec_raw_rgba_size_bytes(),
        (index + 1) * kind.spec_raw_rgba_size_bytes() == index * kind.spec_raw_rgba_size_bytes()
            + kind.spec_raw_rgba_size_bytes(),
        (index + 1) * kind.spec_raw_rgba_size_bytes() <= kind.spec_bin_file_size_bytes(),
        kind.spec_bin_file_size_bytes() <= 256 * 7776,
{
    kind.lemma_sizes();
    let size = kind.spec_raw_rgba_size_bytes() as int;
    assert(0 <= index * size && (index + 1) * size == index * size + size && (index + 1) * size
        <= 256 * size) by (nonlinear_arith)
        requires
            0 <= index < 256,
            0 <= size,
    ;
}

/// The tiles of a bin file of the given kind from index `from` on.
pub open spec fn bin_tiles(data: Seq<u8>, kind: TileKind, from: int) -> Seq<TileView> {
    Seq::new((256 - from) as nat, |i: int| bin_tile(data, kind, from + i))
}

/// The bytes of a sequence of tiles, those of one tile after those of the other.
pub open spec fn tiles_bytes(tiles: Seq<TileView>) -> Seq<u8>
    decreases tiles.len(),
{
    if tiles.len() == 0 {
        Seq::empty()
    } else {
        tiles_bytes(tiles.drop_last()) + tiles.last().pixels
    }
}

/// Why a bin file could not be opened.
#[derive(Debug)]
pub enum OpenError {
    /// The file could not be read.
    FileError(IOError),
    /// The file has the size of no kind of bin file.
    InvalidSizeError { file_path: String, size: u64 },
}

impl OpenError {
    pub fn invalid_size(file_path: &str, size: u64) -> (r: Self)
        ensures
            r matches OpenError::InvalidSizeError { file_path: p, size: s } && p@ == file_path@
                && s == size,
    {
        OpenError::InvalidSizeError { file_path: file_path.to_owned(), size }
    }
}

/// Why the position in a bin file could not be changed.
#[derive(Debug)]
pub enum SeekError {
    /// The file system failed. The library reads from memory and never
    /// returns this; it is for those who read from a file.
    FileError(IOError),
    /// The new position would be outside of the file.
    OutOfBoundsError { file_path: String, new_pos: isize },
}

impl SeekError {
    pub fn out_of_bounds(file_path: &str, new_pos: isize) -> (r: Self)
        ensures
            r matches SeekError::OutOfBoundsError { file_path: p, new_pos: n } && p@
                == file_path@ && n == new_pos,
    {
        SeekError::OutOfBoundsError { file_path: file_path.to_owned(), new_pos }
    }
}

/// Why a tile could not be read at a position.
#[derive(Debug)]
pub enum SeekReadError {
    SeekError(SeekError),
    FileError(IOError),
}

/// Why the tiles of a bin file could not be had.
#[derive(Debug)]
pub enum LoadError {
    /// The file could not be opened.
    OpenError(OpenError),
    /// The file could not be read to its end.
    ReadError(IOError),
    /// The file holds tiles of one kind where the other was asked for.
    LoadedTileKindDoesNotMatchRequested { file_path: String, loaded: TileKind, requested: TileKind },
}

impl LoadError {
    pub fn tile_kind_mismatch(file_path: &str, loaded: TileKind, requested: TileKind) -> (r: Self)
        ensures
            r matches LoadError::LoadedTileKindDoesNotMatchRequested {
                file_path: p,
                loaded: l,
                requested: q,
            } && p@ == file_path@ && l == loaded && q == requested,
    {
        LoadError::LoadedTileKindDoesNotMatchRequested {
            file_path: file_path.to_owned(),
            loaded,
            requested,
        }
    }

    /// Whether the tiles could not be had because the file does not exist.
    pub open spec fn spec_because_file_is_missing(&self) -> bool {
        self matches LoadError::OpenError(OpenError::FileError(file_error)) && file_error.kind
            == IOErrorKind::NotFound
    }

    /// Whether the tiles could not be had because the file does not exist.
    pub fn because_file_is_missing(&self) -> (r: bool)
        ensures
            r == self.spec_because_file_is_missing(),
    {
        match self {
            LoadError::OpenError(OpenError::FileError(file_error)) => file_error.kind
                == IOErrorKind::NotFound,
            _ => false,
        }
    }
}

/// A position in a bin file, counted in tiles.
#[derive(Debug)]
pub enum SeekFrom {
    /// So many tiles after the first.
    Start(usize),
    /// So many tiles after the last: zero is the last tile, negative numbers
    /// are tiles before it.
    End(isize),
    /// So many tiles after the current position.
    Current(isize),
}

impl SeekFrom {
    /// The tile index that this position is when the current position is `pos`.
    pub open spec fn spec_resolve(&self, pos: int) -> int {
        match self {
            SeekFrom::Start(pos_from_start) => *pos_from_start as int,
            SeekFrom::End(pos_from_end) => 255 + *pos_from_end,
            SeekFrom::Current(pos_from_current) => pos + *pos_from_current,
        }
    }
}

/// The nearest `isize` to `v`.
pub open spec fn clamp_isize(v: int) -> isize {
    if v > isize::MAX {
        isize::MAX
    } else if v < isize::MIN {
        isize::MIN
    } else {
        v as isize
    }
}

/// What a reader is: the file's kind and content, and the index of the tile
/// that is read next.
pub struct BinFileReaderView {
    pub file_path: Seq<char>,
    pub tile_kind: TileKind,
    pub pos: nat,
    pub data: Seq<u8>,
}

impl BinFileReaderView {
    /// The content is that of a bin file of the reader's kind, and the
    /// position is at a tile or at the end.
    pub open spec fn wf(self) -> bool {
        &&& self.data.len() == self.tile_kind.spec_bin_file_size_bytes()
        &&& self.pos <= 256
    }
}

/// A bin file that is read tile by tile.
#[derive(Debug)]
pub struct BinFileReader {
    file_path: String,
    data: Vec<u8>,
    tile_kind: TileKind,
    pos: usize,
}

impl View for BinFileReader {
    type V = BinFileReaderView;

    closed spec fn view(&self) -> BinFileReaderView {
        BinFileReaderView {
            file_path: self.file_path@,
            tile_kind: self.tile_kind,
            pos: self.pos as nat,
            data: self.data@,
        }
    }
}

impl BinFileReader {
    /// What holds of every reader.
    #[verifier::type_invariant]
    pub open spec fn inv(self) -> bool {
        self@.wf()
    }

    /// A reader at the first tile of the bin file at `path`, whose content is
    /// `content`. The size of the content decides the kind.
    pub fn open(path: &str, content: Result<Vec<u8>, IOError>) -> (r: Result<Self, OpenError>)
        ensures
            match content {
                Ok(bytes) => match TileKind::spec_for_bin_file_size_bytes(bytes@.len() as int) {
                    Some(kind) => r matches Ok(reader) && reader@ == (BinFileReaderView {
                        file_path: path@,
                        tile_kind: kind,
                        pos: 0,
                        data: bytes@,
                    }),
                    None => r matches Err(OpenError::InvalidSizeError { file_path, size })
                        && file_path@ == path@ && size == bytes@.len(),
                },
                Err(error) => r matches Err(OpenError::FileError(e)) && e == error,
            },
    {
        match content {
            Ok(data) => match TileKind::for_bin_file_size_bytes(data.len() as u64) {
                Ok(tile_kind) => Ok(
                    BinFileReader { file_path: path.to_owned(), data, tile_kind, pos: 0 },
                ),
                Err(error) => Err(OpenError::invalid_size(path, error.0)),
            },
            Err(error) => Err(OpenError::FileError(error)),
        }
    }

    pub fn tile_kind(&self) -> (r: &TileKind)
        ensures
            *r == self@.tile_kind,
    {
        &self.tile_kind
    }

    /// The path of the file.
    pub fn file_path(&self) -> (r: &str)
        ensures
            r@ == self@.file_path,
    {
        self.file_path.as_str()
    }

    /// The index of the tile that is read next.
    pub fn pos(&self) -> (r: &usize)
        ensures
            *r == self@.pos,
            self@.wf(),
    {
        proof {
            use_type_invariant(self);
        }
        &self.pos
    }

    /// The bytes of the tile at the current position, which moves on by one
    /// tile. At the end of the file there is nothing to read.
    pub fn read_tile_bytes(&mut self) -> (r: Result<Vec<u8>, IOError>)
        ensures
            final(self)@.wf(),
            old(self)@.wf(),
            final(self)@.file_path == old(self)@.file_path,
            final(self)@.tile_kind == old(self)@.tile_kind,
            final(self)@.data == old(self)@.data,
            old(self)@.pos < 256 ==> final(self)@.pos == old(self)@.pos + 1 && (r matches Ok(bytes)
                && bytes@ == bin_tile(
                old(self)@.data,
                old(self)@.tile_kind,
                old(self)@.pos as int,
            ).pixels),
            old(self)@.pos >= 256 ==> final(self)@.pos == old(self)@.pos && (r matches Err(e)
                && e.kind == IOErrorKind::UnexpectedEof),
    {
        proof {
            use_type_invariant(&*self);
            self.tile_kind.lemma_sizes();
        }
        if self.pos >= TILE_COUNT {
            return Err(IOError::unexpected_eof());
        }
        let size = self.tile_kind.raw_rgba_size_bytes();
        proof {
            lemma_bin_tile_range(self.tile_kind, self.pos as int);
        }
        let start = self.pos * size;
        let bytes = slice_to_vec(slice_subrange(self.data.as_slice(), start, start + size));
        self.pos += 1;
        Ok(bytes)
    }

    /// The tile at the current position, which moves on by one tile.
    pub fn read_tile(&mut self) -> (r: Result<Tile, IOError>)
        ensures
            final(self)@.wf(),
            old(self)@.wf(),
            final(self)@.file_path == old(self)@.file_path,
            final(self)@.tile_kind == old(self)@.tile_kind,
            final(self)@.data == old(self)@.data,
            old(self)@.pos < 256 ==> final(self)@.pos == old(self)@.pos + 1 && (r matches Ok(tile)
                && tile@ == bin_tile(
                old(self)@.data,
                old(self)@.tile_kind,
                old(self)@.pos as int,
            )),
            old(self)@.pos >= 256 ==> final(self)@.pos == old(self)@.pos && (r matches Err(e)
                && e.kind == IOErrorKind::UnexpectedEof),
    {
        proof {
            use_type_invariant(&*self);
            self.tile_kind.lemma_sizes();
        }
        proof {
            if self.pos < 256 {
                lemma_bin_tile_range(self.tile_kind, self.pos as int);
            }
        }
        match self.read_tile_bytes() {
            Ok(bytes) => Ok(Tile::try_from(bytes).unwrap()),
            Err(error) => Err(error),
        }
    }

    /// Moves to a position and reads the tile there.
    pub fn seek_read_tile(&mut self, pos: SeekFrom) -> (r: Result<Tile, SeekReadError>)
        ensures
            final(self)@.wf(),
            final(self)@.file_path == old(self)@.file_path,
            final(self)@.tile_kind == old(self)@.tile_kind,
            final(self)@.data == old(self)@.data,
            0 <= pos.spec_resolve(old(self)@.pos as int) < 256 ==> final(self)@.pos
                == pos.spec_resolve(old(self)@.pos as int) + 1 && (r matches Ok(tile) && tile@
                == bin_tile(
                old(self)@.data,
                old(self)@.tile_kind,
                pos.spec_resolve(old(self)@.pos as int),
            )),
            !(0 <= pos.spec_resolve(old(self)@.pos as int) < 256) ==> final(self)@.pos == old(self)@.pos && (r matches Err(
                SeekReadError::SeekError(SeekError::OutOfBoundsError { file_path, new_pos }),
            ) && file_path@ == old(self)@.file_path && new_pos == clamp_isize(
                pos.spec_resolve(old(self)@.pos as int),
            )),
    {
        match self.seek(pos) {
            Ok(_) => match self.read_tile() {
                Ok(tile) => Ok(tile),
                Err(error) => Err(SeekReadError::FileError(error)),
            },
            Err(error) => Err(SeekReadError::SeekError(error)),
        }
    }

    /// Moves to a position, which must be that of one of the 256 tiles, and
    /// gives its index. Where it is not, the position stays as it was.
    pub fn seek(&mut self, pos: SeekFrom) -> (r: Result<usize, SeekError>)
        ensures
            final(self)@.wf(),
            old(self)@.wf(),
            final(self)@.file_path == old(self)@.file_path,
            final(self)@.tile_kind == old(self)@.tile_kind,
            final(self)@.data == old(self)@.data,
            0 <= pos.spec_resolve(old(self)@.pos as int) < 256 ==> final(self)@.pos
                == pos.spec_resolve(old(self)@.pos as int) && (r matches Ok(p) && p == final(self)@.pos),
            !(0 <= pos.spec_resolve(old(self)@.pos as int) < 256) ==> final(self)@.pos == old(self)@.pos && (r matches Err(SeekError::OutOfBoundsError { file_path, new_pos })
                && file_path@ == old(self)@.file_path && new_pos == clamp_isize(
                pos.spec_resolve(old(self)@.pos as int),
            )),
    {
        proof {
            use_type_invariant(&*self);
        }
        let new_pos: i128 = match pos {
            SeekFrom::Start(pos_from_start) => pos_from_start as i128,
            SeekFrom::End(pos_from_end) => 255i128 + pos_from_end as i128,
            SeekFrom::Current(pos_from_current) => self.pos as i128 + pos_from_current as i128,
        };
        if new_pos < 0 || new_pos >= 256 {
            let reported: isize = if new_pos > isize::MAX as i128 {
                isize::MAX
            } else if new_pos < isize::MIN as i128 {
                isize::MIN
            } else {
                new_pos as isize
            };
            return Err(SeekError::out_of_bounds(self.file_path.as_str(), reported));
        }
        self.pos = new_pos as usize;
        Ok(self.pos)
    }

    /// Moves to the first tile.
    pub fn rewind(&mut self) -> (r: Result<(), SeekError>)
        ensures
            final(self)@.wf(),
            final(self)@.file_path == old(self)@.file_path,
            final(self)@.tile_kind == old(self)@.tile_kind,
            final(self)@.data == old(self)@.data,
            final(self)@.pos == 0,
            r is Ok,
    {
        match self.seek(SeekFrom::Start(0)) {
            Ok(_) => Ok(()),
            Err(error) => Err(error),
        }
    }

    /// Whether all tiles have been read.
    pub fn is_eof(&self) -> (r: bool)
        ensures
            r == (self@.pos >= 256),
    {
        self.pos >= TILE_COUNT
    }

    /// The tiles from the current position to the end of the file.
    pub fn read_tiles(self) -> (r: Result<Vec<Tile>, IOError>)
        ensures
            self@.wf(),
            r matches Ok(tiles) && tiles.deep_view() == bin_tiles(
                self@.data,
                self@.tile_kind,
                self@.pos as int,
            ),
    {
        let mut reader = self;
        let mut tiles: Vec<Tile> = Vec::new();
        proof {
            use_type_invariant(&reader);
        }
        let ghost from = reader@.pos as int;
        while !reader.is_eof()
            invariant
                reader@.wf(),
                reader@.data == self@.data,
                reader@.tile_kind == self@.tile_kind,
                from <= reader@.pos <= 256,
                from == self@.pos,
                tiles.deep_view().len() == reader@.pos - from,
                forall|i: int|
                    0 <= i < reader@.pos - from ==> #[trigger] tiles.deep_view()[i] == bin_tile(
                        self@.data,
                        self@.tile_kind,
                        from + i,
                    ),
            decreases 256 - reader@.pos,
        {
            match reader.read_tile() {
                Ok(tile) => {
                    let ghost prev = tiles.deep_view();
                    tiles.push(tile);
                    assert(tiles.deep_view() =~= prev.push(tile@));
                },
                Err(error) => {
                    return Err(error);
                },
            }
        }
        assert(tiles.deep_view() =~= bin_tiles(self@.data, self@.tile_kind, from));
        Ok(tiles)
    }
}

/// A bin file as an iterator would read it: tile by tile, from the reader's
/// position to the end.
#[derive(Debug)]
pub struct BinFileReaderIterator(pub BinFileReader);

impl BinFileReaderIterator {
    /// The next tile, or `None` once all 256 tiles have been read.
    pub fn next(&mut self) -> (r: Option<Result<Tile, IOError>>)
        ensures
            final(self).0@.wf(),
            final(self).0@.data == old(self).0@.data,
            final(self).0@.tile_kind == old(self).0@.tile_kind,
            old(self).0@.pos >= 256 ==> r is None && final(self).0@.pos == old(self).0@.pos,
            old(self).0@.pos < 256 ==> final(self).0@.pos == old(self).0@.pos + 1 && (
            r matches Some(Ok(tile)) && tile@ == bin_tile(
                old(self).0@.data,
                old(self).0@.tile_kind,
                old(self).0@.pos as int,
            )),
    {
        if *self.0.pos() >= TILE_COUNT {
            return None;
        }
        Some(self.0.read_tile())
    }
}

impl BinFileReader {
    /// The reader as something that hands out the tiles one by one.
    pub fn into_iter(self) -> (r: BinFileReaderIterator)
        ensures
            r.0@ == self@,
    {
        BinFileReaderIterator(self)
    }
}

/// Which of the two files of a font is meant: the first 256 tiles, or the
/// 256 that follow.
#[derive(PartialEq, Eq, Structural, Debug, Clone, Copy)]
pub enum FontPart {
    Base,
    Ext,
}

/// An identifier as it is handed over, as a sequence of characters.
pub open spec fn ident_view(ident: Option<&str>) -> Option<Seq<char>> {
    match ident {
        Some(ident) => Some(ident@),
        None => None,
    }
}

/// What an identifier adds to a file name: `_` and the identifier, or nothing.
pub open spec fn ident_suffix(ident: Option<Seq<char>>) -> Seq<char> {
    match ident {
        Some(ident) => "_"@ + ident,
        None => Seq::empty(),
    }
}

/// The name of a bin file: `font`, then `_` and the identifier if there is
/// one, then `_hd` for HD tiles, then `_2` for the second part, then `.bin`.
pub open spec fn spec_normalized_file_name(
    tile_kind: TileKind,
    ident: Option<Seq<char>>,
    part: FontPart,
) -> Seq<char> {
    "font"@ + ident_suffix(ident) + (match tile_kind {
        TileKind::SD => Seq::empty(),
        TileKind::HD => "_hd"@,
    }) + (match part {
        FontPart::Base => Seq::empty(),
        FontPart::Ext => "_2"@,
    }) + ".bin"@
}

/// The name of the bin file of a kind, an identifier and a part.
pub fn normalized_file_name(tile_kind: TileKind, ident: &Option<&str>, part: FontPart) -> (r:
    String)
    ensures
        r@ == spec_normalized_file_name(tile_kind, ident_view(*ident), part),
{
    let mut name = String::from_str("font");
    match ident {
        Some(ident) => {
            name = name.concat("_").concat(ident);
        },
        None => {
            assert(name@ + Seq::<char>::empty() =~= name@);
        },
    }
    let ghost with_ident = name@;
    match tile_kind {
        TileKind::SD => {
            assert(name@ + Seq::<char>::empty() =~= name@);
        },
        TileKind::HD => {
            name = name.concat("_hd");
        },
    }
    let ghost with_kind = name@;
    match part {
        FontPart::Base => {
            assert(name@ + Seq::<char>::empty() =~= name@);
        },
        FontPart::Ext => {
            name = name.concat("_2");
        },
    }
    let name = name.concat(".bin");
    proof {
        assert(with_ident =~= "font"@ + ident_suffix(ident_view(*ident)));
    }
    name
}

/// The path of the bin file of a kind, an identifier and a part in `dir`.
pub fn normalized_file_path(dir: &str, tile_kind: TileKind, ident: &Option<&str>, part: FontPart) -> (r:
    String)
    ensures
        r@ == spec_join(dir@, spec_normalized_file_name(tile_kind, ident_view(*ident), part)),
{
    let name = normalized_file_name(tile_kind, ident, part);
    crate::path::join(dir, name.as_str())
}

/// What a [`LoadError`] says, with paths as sequences of characters.
pub enum LoadErrorView {
    OpenError(IOError),
    InvalidSizeError { file_path: Seq<char>, size: u64 },
    ReadError(IOError),
    LoadedTileKindDoesNotMatchRequested { file_path: Seq<char>, loaded: TileKind, requested: TileKind },
}

impl View for LoadError {
    type V = LoadErrorView;

    open spec fn view(&self) -> LoadErrorView {
        match self {
            LoadError::OpenError(OpenError::FileError(error)) => LoadErrorView::OpenError(*error),
            LoadError::OpenError(OpenError::InvalidSizeError { file_path, size }) => {
                LoadErrorView::InvalidSizeError { file_path: file_path@, size: *size }
            },
            LoadError::ReadError(error) => LoadErrorView::ReadError(*error),
            LoadError::LoadedTileKindDoesNotMatchRequested { file_path, loaded, requested } => {
                LoadErrorView::LoadedTileKindDoesNotMatchRequested {
                    file_path: file_path@,
                    loaded: *loaded,
                    requested: *requested,
                }
            },
        }
    }
}

/// The tiles of the bin file at `path` with this content.
pub open spec fn loaded(path: Seq<char>, content: Result<Vec<u8>, IOError>) -> Result<
    Seq<TileView>,
    LoadErrorView,
> {
    match content {
        Ok(bytes) => match TileKind::spec_for_bin_file_size_bytes(bytes@.len() as int) {
            Some(kind) => Ok(bin_tiles(bytes@, kind, 0)),
            None => Err(
                LoadErrorView::InvalidSizeError { file_path: path, size: bytes@.len() as u64 },
            ),
        },
        Err(error) => Err(LoadErrorView::OpenError(error)),
    }
}

/// The tiles of the bin file at `path` with this content, which must be of
/// kind `requested`.
pub open spec fn loaded_of_kind(
    path: Seq<char>,
    content: Result<Vec<u8>, IOError>,
    requested: TileKind,
) -> Result<Seq<TileView>, LoadErrorView> {
    match loaded(path, content) {
        Ok(tiles) => if tiles[0].kind == requested {
            Ok(tiles)
        } else {
            Err(
                LoadErrorView::LoadedTileKindDoesNotMatchRequested {
                    file_path: path,
                    loaded: tiles[0].kind,
                    requested,
                },
            )
        },
        Err(e) => Err(e),
    }
}

/// The tiles of the two bin files of a font, the first file's first: the
/// second file must hold tiles of the kind of the first. An error is that of
/// the first file that has one.
pub open spec fn loaded_extended(
    base_path: Seq<char>,
    base_content: Result<Vec<u8>, IOError>,
    ext_path: Seq<char>,
    ext_content: Result<Vec<u8>, IOError>,
) -> Result<Seq<TileView>, LoadErrorView> {
    match loaded(base_path, base_content) {
        Ok(base_tiles) => match loaded_of_kind(ext_path, ext_content, base_tiles[0].kind) {
            Ok(ext_tiles) => Ok(base_tiles + ext_tiles),
            Err(e) => Err(e),
        },
        Err(e) => Err(e),
    }
}

/// The tiles of the two bin files of a font, the first file's first, where
/// both files must hold tiles of kind `requested`. An error is that of the
/// first file that has one.
pub open spec fn loaded_extended_of_kind(
    base_path: Seq<char>,
    base_content: Result<Vec<u8>, IOError>,
    ext_path: Seq<char>,
    ext_content: Result<Vec<u8>, IOError>,
    requested: TileKind,
) -> Result<Seq<TileView>, LoadErrorView> {
    match loaded_of_kind(base_path, base_content, requested) {
        Ok(base_tiles) => match loaded_of_kind(ext_path, ext_content, requested) {
            Ok(ext_tiles) => Ok(base_tiles + ext_tiles),
            Err(e) => Err(e),
        },
        Err(e) => Err(e),
    }
}

/// The path of the bin file of a kind, an identifier and a part in `dir`.
pub open spec fn spec_normalized_file_path(
    dir: Seq<char>,
    tile_kind: TileKind,
    ident: Option<Seq<char>>,
    part: FontPart,
) -> Seq<char> {
    spec_join(dir, spec_normalized_file_name(tile_kind, ident, part))
}

/// The tiles of the bin file at `path`, whose content is `content`.
pub fn load(path: &str, content: Result<Vec<u8>, IOError>) -> (r: Result<Vec<Tile>, LoadError>)
    ensures
        result_view(r) == loaded(path@, content),
{
    match BinFileReader::open(path, content) {
        Ok(reader) => match reader.read_tiles() {
            Ok(tiles) => Ok(tiles),
            Err(error) => Err(LoadError::ReadError(error)),
        },
        Err(error) => Err(LoadError::OpenError(error)),
    }
}

/// The tiles of the bin file at `path`, which must be of kind `tile_kind`.
pub fn load_check_kind(path: &str, content: Result<Vec<u8>, IOError>, tile_kind: TileKind) -> (r:
    Result<Vec<Tile>, LoadError>)
    ensures
        result_view(r) == loaded_of_kind(path@, content, tile_kind),
{
    match load(path, content) {
        Ok(tiles) => {
            assert(tiles.deep_view().len() == 256);
            assert(tiles@.len() == tiles.deep_view().len());
            assert(tiles.deep_view()[0] == tiles[0]@);
            let loaded_tile_kind = tiles[0].kind();
            if loaded_tile_kind != tile_kind {
                Err(LoadError::tile_kind_mismatch(path, loaded_tile_kind, tile_kind))
            } else {
                Ok(tiles)
            }
        },
        Err(e) => Err(e),
    }
}

/// The tiles of the bin file of a kind, an identifier and a part in `dir`,
/// whose content is `content`. The file must hold tiles of that kind.
pub fn load_norm(
    dir: &str,
    tile_kind: TileKind,
    ident: &Option<&str>,
    part: FontPart,
    content: Result<Vec<u8>, IOError>,
) -> (r: Result<Vec<Tile>, LoadError>)
    ensures
        result_view(r) == loaded_of_kind(
            spec_normalized_file_path(dir@, tile_kind, ident_view(*ident), part),
            content,
            tile_kind,
        ),
{
    let file_path = normalized_file_path(dir, tile_kind, ident, part);
    load_check_kind(file_path.as_str(), content, tile_kind)
}

/// The first 256 tiles of the font of a kind and an identifier in `dir`.
pub fn load_base_norm(
    dir: &str,
    tile_kind: TileKind,
    ident: &Option<&str>,
    content: Result<Vec<u8>, IOError>,
) -> (r: Result<Vec<Tile>, LoadError>)
    ensures
        result_view(r) == loaded_of_kind(
            spec_normalized_file_path(dir@, tile_kind, ident_view(*ident), FontPart::Base),
            content,
            tile_kind,
        ),
{
    load_norm(dir, tile_kind, ident, FontPart::Base, content)
}

/// The tiles of one collection followed by those of another.
pub fn concat_tiles(base_tiles: Vec<Tile>, ext_tiles: Vec<Tile>) -> (r: Vec<Tile>)
    ensures
        r.deep_view() == base_tiles.deep_view() + ext_tiles.deep_view(),
{
    let mut tiles = base_tiles;
    let mut rest = ext_tiles;
    tiles.append(&mut rest);
    assert(tiles.deep_view() =~= base_tiles.deep_view() + ext_tiles.deep_view()) by {
        assert(tiles@ =~= base_tiles@ + ext_tiles@);
        assert forall|i: int| 0 <= i < tiles@.len() implies tiles.deep_view()[i] == (
        base_tiles.deep_view() + ext_tiles.deep_view())[i] by {
            if i < base_tiles@.len() {
                assert(tiles@[i] == base_tiles@[i]);
            } else {
                assert(tiles@[i] == ext_tiles@[i - base_tiles@.len()]);
            }
        }
    }
    tiles
}

/// The 512 tiles of the two bin files of a font, which must be of one kind.
pub fn load_extended(
    base_path: &str,
    ext_path: &str,
    base_content: Result<Vec<u8>, IOError>,
    ext_content: Result<Vec<u8>, IOError>,
) -> (r: Result<Vec<Tile>, LoadError>)
    ensures
        result_view(r) == loaded_extended(base_path@, base_content, ext_path@, ext_content),
{
    match load(base_path, base_content) {
        Ok(base_tiles) => {
            assert(base_tiles.deep_view().len() == 256);
            assert(base_tiles@.len() == base_tiles.deep_view().len());
            assert(base_tiles.deep_view()[0] == base_tiles[0]@);
            let base_tile_kind = base_tiles[0].kind();
            match load_check_kind(ext_path, ext_content, base_tile_kind) {
                Ok(ext_tiles) => Ok(concat_tiles(base_tiles, ext_tiles)),
                Err(e) => Err(e),
            }
        },
        Err(e) => Err(e),
    }
}

/// The 512 tiles of the two bin files of a font, which must both be of
/// kind `requested_tile_kind`.
pub fn load_extended_check_kind(
    base_path: &str,
    ext_path: &str,
    requested_tile_kind: TileKind,
    base_content: Result<Vec<u8>, IOError>,
    ext_content: Result<Vec<u8>, IOError>,
) -> (r: Result<Vec<Tile>, LoadError>)
    ensures
        result_view(r) == loaded_extended_of_kind(
            base_path@,
            base_content,
            ext_path@,
            ext_content,
            requested_tile_kind,
        ),
{
    match load_check_kind(base_path, base_content, requested_tile_kind) {
        Ok(base_tiles) => match load_check_kind(ext_path, ext_content, requested_tile_kind) {
            Ok(ext_tiles) => Ok(concat_tiles(base_tiles, ext_tiles)),
            Err(e) => Err(e),
        },
        Err(e) => Err(e),
    }
}

/// The 512 tiles of the font of a kind and an identifier in `dir`.
pub fn load_extended_norm(
    dir: &str,
    tile_kind: TileKind,
    ident: &Option<&str>,
    base_content: Result<Vec<u8>, IOError>,
    ext_content: Result<Vec<u8>, IOError>,
) -> (r: Result<Vec<Tile>, LoadError>)
    ensures
        result_view(r) == loaded_extended_of_kind(
            spec_normalized_file_path(dir@, tile_kind, ident_view(*ident), FontPart::Base),
            base_content,
            spec_normalized_file_path(dir@, tile_kind, ident_view(*ident), FontPart::Ext),
            ext_content,
            tile_kind,
        ),
{
    match load_norm(dir, tile_kind, ident, FontPart::Base, base_content) {
        Ok(base_tiles) => match load_norm(dir, tile_kind, ident, FontPart::Ext, ext_content) {
            Ok(ext_tiles) => Ok(concat_tiles(base_tiles, ext_tiles)),
            Err(e) => Err(e),
        },
        Err(e) => Err(e),
    }
}

/// The bytes of `count` fully transparent tiles of a kind: all zero.
pub open spec fn blank_bytes(kind: TileKind, count: int) -> Seq<u8> {
    Seq::new((count * kind.spec_raw_rgba_size_bytes()) as nat, |i: int| 0u8)
}

/// What a writer is: the kind of the tiles written so far, if any was, their
/// number and their bytes.
pub struct BinFileWriterView {
    pub tile_kind: Option<TileKind>,
    pub tile_count: nat,
    pub data: Seq<u8>,
}

impl BinFileWriterView {
    /// The writer holds the bytes of as many tiles as it counts, at most 256,
    /// and knows their kind once there is one.
    pub open spec fn wf(self) -> bool {
        &&& self.tile_count <= 256
        &&& match self.tile_kind {
            Some(kind) => self.data.len() == self.tile_count * kind.spec_raw_rgba_size_bytes(),
            None => self.tile_count == 0 && self.data.len() == 0,
        }
    }

    /// Whether the writer takes no further tile.
    pub open spec fn is_full(self) -> bool {
        self.tile_count >= 256
    }

    /// Whether the writer holds tiles of another kind than `kind`.
    pub open spec fn refuses_kind(self, kind: TileKind) -> bool {
        self.tile_kind matches Some(written) && written != kind
    }

    /// The writer after one more tile.
    pub open spec fn with_tile(self, tile: TileView) -> BinFileWriterView {
        BinFileWriterView {
            tile_kind: Some(tile.kind),
            tile_count: self.tile_count + 1,
            data: self.data + tile.pixels,
        }
    }

    /// The writer filled up to 256 tiles with fully transparent tiles of `kind`.
    pub open spec fn filled(self, kind: TileKind) -> BinFileWriterView {
        if self.tile_count >= 256 {
            self
        } else {
            BinFileWriterView {
                tile_kind: Some(kind),
                tile_count: 256,
                data: self.data + blank_bytes(kind, 256 - self.tile_count),
            }
        }
    }
}

/// Why a tile could not be written, or the file not be finished.
#[derive(Debug)]
pub enum TileWriteError {
    /// The file system failed. The library writes into memory and never
    /// returns this; it is for those who write to a file.
    FileError(IOError),
    /// The tile is of another kind than those written before.
    TileKindMismatchError { written_kind: TileKind, writing_kind: TileKind },
    /// The file holds 256 tiles already.
    MaximumTilesReached,
    /// The file holds fewer than 256 tiles. The writer comes back, so that
    /// it can be filled and finished.
    NotEnoughTiles(BinFileWriter),
}

/// Why a file could not be filled up.
#[derive(Debug)]
pub enum FillRemainingSpaceError {
    TileWrite(TileWriteError),
    /// No tile was written, so the kind of the file is not known.
    Empty,
}

/// A bin file in the making: tiles are written one by one, the first
/// deciding the kind of the file.
#[derive(Debug)]
pub struct BinFileWriter {
    data: Vec<u8>,
    tile_count: usize,
    tile_kind: Option<TileKind>,
}

impl View for BinFileWriter {
    type V = BinFileWriterView;

    closed spec fn view(&self) -> BinFileWriterView {
        BinFileWriterView {
            tile_kind: self.tile_kind,
            tile_count: self.tile_count as nat,
            data: self.data@,
        }
    }
}

impl BinFileWriter {
    /// A writer into which nothing has been written.
    pub fn create() -> (r: Self)
        ensures
            r@ == (BinFileWriterView { tile_kind: None, tile_count: 0, data: Seq::empty() }),
            r@.wf(),
    {
        BinFileWriter { data: Vec::new(), tile_count: 0, tile_kind: None }
    }

    /// The kind of the tiles written so far, if any was.
    pub fn tile_kind(&self) -> (r: Option<TileKind>)
        ensures
            r == self@.tile_kind,
    {
        self.tile_kind
    }

    /// The number of tiles written so far.
    pub fn tile_count(&self) -> (r: usize)
        ensures
            r == self@.tile_count,
    {
        self.tile_count
    }

    /// Writes one more tile. A full writer takes none, and a writer takes no
    /// tile of another kind than the first it took: it is then left as it was.
    pub fn write_tile(&mut self, tile: &Tile) -> (r: Result<(), TileWriteError>)
        ensures
            old(self)@.is_full() ==> r is Err && r->Err_0 is MaximumTilesReached && final(self)@
                == old(self)@,
            !old(self)@.is_full() && old(self)@.refuses_kind(tile@.kind) ==> (r matches Err(
                TileWriteError::TileKindMismatchError { written_kind, writing_kind },
            ) && Some(written_kind) == old(self)@.tile_kind && writing_kind == tile@.kind)
                && final(self)@ == old(self)@,
            !old(self)@.is_full() && !old(self)@.refuses_kind(tile@.kind) ==> r is Ok && final(self)@ == old(self)@.with_tile(tile@),
            old(self)@.wf() ==> final(self)@.wf(),
    {
        if self.tile_count >= TILE_COUNT {
            return Err(TileWriteError::MaximumTilesReached);
        }
        match self.tile_kind {
            Some(tile_kind) => if tile_kind != tile.kind() {
                return Err(
                    TileWriteError::TileKindMismatchError {
                        written_kind: tile_kind,
                        writing_kind: tile.kind(),
                    },
                );
            },
            None => {
                self.tile_kind = Some(tile.kind());
            },
        }
        let ghost before = self.data@;
        let bytes = tile.as_raw();
        self.data.extend_from_slice(bytes.as_slice());
        self.tile_count += 1;
        proof {
            assert(self.data@ =~= before + tile@.pixels);
            let n = old(self)@.tile_count as int;
            let size = tile@.kind.spec_raw_rgba_size_bytes() as int;
            assert((n + 1) * size == n * size + size) by (nonlinear_arith);
            assert(n == 0 ==> n * size == 0) by (nonlinear_arith);
            assert(tile@.pixels.len() == size);
            assert(self.data@.len() == before.len() + size);
        }
        Ok(())
    }

    /// Fills the writer up to 256 tiles with fully transparent tiles of its
    /// kind. An empty writer has no kind and is left as it was.
    pub fn fill_remaining_space(&mut self) -> (r: Result<(), FillRemainingSpaceError>)
        ensures
            match old(self)@.tile_kind {
                Some(kind) => r is Ok && final(self)@ == old(self)@.filled(kind),
                None => r matches Err(FillRemainingSpaceError::Empty) && final(self)@ == old(self)@,
            },
            old(self)@.wf() ==> final(self)@.wf(),
    {
        match self.tile_kind {
            Some(tile_kind) => {
                let transparent_tile = Tile::new(tile_kind);
                let ghost start = self@;
                proof {
                    assert(blank_bytes(tile_kind, 0) =~= Seq::<u8>::empty());
                    assert(start.data + blank_bytes(tile_kind, 0) =~= start.data);
                }
                while self.tile_count < TILE_COUNT
                    invariant
                        start.tile_kind == Some(tile_kind),
                        transparent_tile@ == TileView::blank(tile_kind),
                        start.tile_count <= self@.tile_count,
                        start.tile_count < 256 ==> self@.tile_count <= 256,
                        self@.tile_kind == Some(tile_kind),
                        self@.data == start.data + blank_bytes(
                            tile_kind,
                            self@.tile_count - start.tile_count,
                        ),
                        start.wf() ==> self@.wf(),
                        start.tile_count >= 256 ==> self@ == start,
                    decreases 256 - self@.tile_count,
                {
                    let ghost prev = self@;
                    match self.write_tile(&transparent_tile) {
                        Ok(_) => {},
                        Err(error) => {
                            return Err(FillRemainingSpaceError::TileWrite(error));
                        },
                    }
                    proof {
                        let size = tile_kind.spec_raw_rgba_size_bytes() as int;
                        let n = prev.tile_count - start.tile_count;
                        assert((n + 1) * size == n * size + size && 0 <= n * size)
                            by (nonlinear_arith)
                            requires
                                0 <= n,
                                0 <= size,
                        ;
                        assert(blank_bytes(tile_kind, n) + TileView::blank(tile_kind).pixels
                            =~= blank_bytes(tile_kind, n + 1));
                        assert(self@.data =~= start.data + blank_bytes(tile_kind, n + 1));
                    }
                }
                Ok(())
            },
            None => Err(FillRemainingSpaceError::Empty),
        }
    }

    /// The content of the file, once 256 tiles have been written. Before
    /// that, the writer comes back in the error.
    pub fn finish(self) -> (r: Result<Vec<u8>, TileWriteError>)
        ensures
            self@.is_full() ==> (r matches Ok(data) && data@ == self@.data),
            !self@.is_full() ==> (r matches Err(TileWriteError::NotEnoughTiles(writer)) && writer@
                == self@),
    {
        if self.tile_count < TILE_COUNT {
            return Err(TileWriteError::NotEnoughTiles(self));
        }
        Ok(self.data)
    }
}

/// The bytes of the first `count` tiles go on with those of the next tile.
pub proof fn lemma_tiles_bytes_step(tiles: Seq<TileView>, count: int)
    requires
        0 <= count < tiles.len(),
    ensures
        tiles_bytes(tiles.take(count + 1)) == tiles_bytes(tiles.take(count)) + tiles[count].pixels,
{
    assert(tiles.take(count + 1).drop_last() =~= tiles.take(count));
    assert(tiles.take(count + 1).last() == tiles[count]);
}

/// The bytes of `count` tiles of one kind are `count` times as many as
/// those of one tile.
pub proof fn lemma_tiles_bytes_len(tiles: Seq<TileView>, kind: TileKind)
    requires
        forall|i: int| 0 <= i < tiles.len() ==> (#[trigger] tiles[i]).kind == kind && tiles[i].wf(),
    ensures
        tiles_bytes(tiles).len() == tiles.len() * kind.spec_raw_rgba_size_bytes(),
    decreases tiles.len(),
{
    let size = kind.spec_raw_rgba_size_bytes() as int;
    if tiles.len() > 0 {
        lemma_tiles_bytes_len(tiles.drop_last(), kind);
        let n = tiles.len() as int;
        assert(tiles.last().wf());
        assert((n - 1) * size + size == n * size) by (nonlinear_arith);
    } else {
        assert(0 * size == 0) by (nonlinear_arith);
    }
}

/// The bytes of the first `count` tiles, those of one tile after those of
/// the other.
pub fn tiles_to_bytes(tiles: &Vec<Tile>, count: usize) -> (r: Vec<u8>)
    requires
        count <= tiles.len(),
    ensures
        r@ == tiles_bytes(tiles.deep_view().take(count as int)),
        forall|i: int| 0 <= i < count ==> (#[trigger] tiles.deep_view()[i]).wf(),
{
    let mut data: Vec<u8> = Vec::new();
    let mut i: usize = 0;
    assert(tiles.deep_view().take(0) =~= Seq::<TileView>::empty());
    while i < count
        invariant
            i <= count <= tiles.len(),
            data@ == tiles_bytes(tiles.deep_view().take(i as int)),
            forall|j: int| 0 <= j < i ==> (#[trigger] tiles.deep_view()[j]).wf(),
        decreases count - i,
    {
        let ghost before = data@;
        let bytes = tiles[i].as_raw();
        data.extend_from_slice(bytes.as_slice());
        proof {
            assert(data@ =~= before + tiles[i as int]@.pixels);
            assert(tiles.deep_view()[i as int] == tiles[i as int]@);
            lemma_tiles_bytes_step(tiles.deep_view(), i as int);
        }
        i += 1;
    }
    data
}

/// The tiles of a bin file are of the kind of the file.
pub proof fn lemma_bin_tiles_kind(data: Seq<u8>, kind: TileKind, other: Seq<u8>)
    ensures
        crate::osd::tile::container::uniq_tile_kind::checked_kind(
            tile_kinds(bin_tiles(data, kind, 0) + bin_tiles(other, kind, 0)),
            kind,
        ) is Ok,
{
    let tiles = bin_tiles(data, kind, 0) + bin_tiles(other, kind, 0);
    assert(tiles.len() == 512);
    assert forall|i: int| 0 <= i < tiles.len() implies (#[trigger] tiles[i]).kind == kind by {
        if i < 256 {
            assert(tiles[i] == bin_tiles(data, kind, 0)[i]);
        } else {
            assert(tiles[i] == bin_tiles(other, kind, 0)[i - 256]);
        }
    }
    crate::osd::tile::container::tile_set::lemma_tiles_uniform(tiles, kind);
}

/// The tiles of the two bin files of a font that were asked to be of a kind
/// are of that kind.
pub proof fn lemma_loaded_extended_kind(
    base_path: Seq<char>,
    base_content: Result<Vec<u8>, IOError>,
    ext_path: Seq<char>,
    ext_content: Result<Vec<u8>, IOError>,
    requested: TileKind,
)
    requires
        loaded_extended_of_kind(base_path, base_content, ext_path, ext_content, requested) is Ok,
    ensures
        crate::osd::tile::container::uniq_tile_kind::checked_kind(
            tile_kinds(
                loaded_extended_of_kind(
                    base_path,
                    base_content,
                    ext_path,
                    ext_content,
                    requested,
                )->Ok_0,
            ),
            requested,
        ) is Ok,
{
    let base_kind = TileKind::spec_for_bin_file_size_bytes(
        base_content->Ok_0@.len() as int,
    )->Some_0;
    let ext_kind = TileKind::spec_for_bin_file_size_bytes(ext_content->Ok_0@.len() as int)->Some_0;
    assert(bin_tiles(base_content->Ok_0@, base_kind, 0)[0].kind == base_kind);
    assert(bin_tiles(ext_content->Ok_0@, ext_kind, 0)[0].kind == ext_kind);
    lemma_bin_tiles_kind(base_content->Ok_0@, requested, ext_content->Ok_0@);
}

/// The set of tiles in four bin files: the two of the SD tiles, which must
/// hold SD tiles, then the two of the HD tiles, which must hold HD tiles.
/// An error is that of the first file that has one.
pub open spec fn set_loaded(
    sd_path: Seq<char>,
    sd_content: Result<Vec<u8>, IOError>,
    sd_2_path: Seq<char>,
    sd_2_content: Result<Vec<u8>, IOError>,
    hd_path: Seq<char>,
    hd_content: Result<Vec<u8>, IOError>,
    hd_2_path: Seq<char>,
    hd_2_content: Result<Vec<u8>, IOError>,
) -> Result<TileSetView, LoadErrorView> {
    match loaded_extended_of_kind(sd_path, sd_content, sd_2_path, sd_2_content, TileKind::SD) {
        Ok(sd_tiles) => match loaded_extended_of_kind(
            hd_path,
            hd_content,
            hd_2_path,
            hd_2_content,
            TileKind::HD,
        ) {
            Ok(hd_tiles) => Ok(TileSetView { sd_tiles, hd_tiles }),
            Err(e) => Err(e),
        },
        Err(e) => Err(e),
    }
}

impl TileSet {
    /// The set of tiles in the four bin files at these paths, with these contents.
    pub fn load_bin_files(
        sd_path: &str,
        sd_2_path: &str,
        hd_path: &str,
        hd_2_path: &str,
        sd_content: Result<Vec<u8>, IOError>,
        sd_2_content: Result<Vec<u8>, IOError>,
        hd_content: Result<Vec<u8>, IOError>,
        hd_2_content: Result<Vec<u8>, IOError>,
    ) -> (r: Result<Self, LoadError>)
        ensures
            result_view(r) == set_loaded(
                sd_path@,
                sd_content,
                sd_2_path@,
                sd_2_content,
                hd_path@,
                hd_content,
                hd_2_path@,
                hd_2_content,
            ),
    {
        let sd_tiles = match load_extended_check_kind(
            sd_path,
            sd_2_path,
            TileKind::SD,
            sd_content,
            sd_2_content,
        ) {
            Ok(tiles) => tiles,
            Err(e) => {
                return Err(e);
            },
        };
        let hd_tiles = match load_extended_check_kind(
            hd_path,
            hd_2_path,
            TileKind::HD,
            hd_content,
            hd_2_content,
        ) {
            Ok(tiles) => tiles,
            Err(e) => {
                return Err(e);
            },
        };
        proof {
            lemma_loaded_extended_kind(
                sd_path@,
                sd_content,
                sd_2_path@,
                sd_2_content,
                TileKind::SD,
            );
            lemma_loaded_extended_kind(
                hd_path@,
                hd_content,
                hd_2_path@,
                hd_2_content,
                TileKind::HD,
            );
        }
        Ok(TileSet::try_from_tiles(sd_tiles, hd_tiles).unwrap())
    }

    /// The set of tiles in the four bin files of an identifier in `dir`,
    /// with these contents.
    pub fn load_bin_files_norm(
        dir: &str,
        ident: &Option<&str>,
        sd_content: Result<Vec<u8>, IOError>,
        sd_2_content: Result<Vec<u8>, IOError>,
        hd_content: Result<Vec<u8>, IOError>,
        hd_2_content: Result<Vec<u8>, IOError>,
    ) -> (r: Result<Self, LoadError>)
        ensures
            result_view(r) == set_loaded(
                spec_normalized_file_path(dir@, TileKind::SD, ident_view(*ident), FontPart::Base),
                sd_content,
                spec_normalized_file_path(dir@, TileKind::SD, ident_view(*ident), FontPart::Ext),
                sd_2_content,
                spec_normalized_file_path(dir@, TileKind::HD, ident_view(*ident), FontPart::Base),
                hd_content,
                spec_normalized_file_path(dir@, TileKind::HD, ident_view(*ident), FontPart::Ext),
                hd_2_content,
            ),
    {
        let sd_path = normalized_file_path(dir, TileKind::SD, ident, FontPart::Base);
        let sd_2_path = normalized_file_path(dir, TileKind::SD, ident, FontPart::Ext);
        let hd_path = normalized_file_path(dir, TileKind::HD, ident, FontPart::Base);
        let hd_2_path = normalized_file_path(dir, TileKind::HD, ident, FontPart::Ext);
        TileSet::load_bin_files(
            sd_path.as_str(),
            sd_2_path.as_str(),
            hd_path.as_str(),
            hd_2_path.as_str(),
            sd_content,
            sd_2_content,
            hd_content,
            hd_2_content,
        )
    }
}

/// The set of tiles in the four bin files at these paths, with these contents.
pub fn load_set(
    sd_path: &str,
    sd_2_path: &str,
    hd_path: &str,
    hd_2_path: &str,
    sd_content: Result<Vec<u8>, IOError>,
    sd_2_content: Result<Vec<u8>, IOError>,
    hd_content: Result<Vec<u8>, IOError>,
    hd_2_content: Result<Vec<u8>, IOError>,
) -> (r: Result<TileSet, LoadError>)
    ensures
        result_view(r) == set_loaded(
            sd_path@,
            sd_content,
            sd_2_path@,
            sd_2_content,
            hd_path@,
            hd_content,
            hd_2_path@,
            hd_2_content,
        ),
{
    TileSet::load_bin_files(
        sd_path,
        sd_2_path,
        hd_path,
        hd_2_path,
        sd_content,
        sd_2_content,
        hd_content,
        hd_2_content,
    )
}

/// The set of tiles in the four bin files of an identifier in `dir`, with
/// these contents.
pub fn load_set_norm(
    dir: &str,
    ident: &Option<&str>,
    sd_content: Result<Vec<u8>, IOError>,
    sd_2_content: Result<Vec<u8>, IOError>,
    hd_content: Result<Vec<u8>, IOError>,
    hd_2_content: Result<Vec<u8>, IOError>,
) -> (r: Result<TileSet, LoadError>)
    ensures
        result_view(r) == set_loaded(
            spec_normalized_file_path(dir@, TileKind::SD, ident_view(*ident), FontPart::Base),
            sd_content,
            spec_normalized_file_path(dir@, TileKind::SD, ident_view(*ident), FontPart::Ext),
            sd_2_content,
            spec_normalized_file_path(dir@, TileKind::HD, ident_view(*ident), FontPart::Base),
            hd_content,
            spec_normalized_file_path(dir@, TileKind::HD, ident_view(*ident), FontPart::Ext),
            hd_2_content,
        ),
{
    TileSet::load_bin_files_norm(dir, ident, sd_content, sd_2_content, hd_content, hd_2_content)
}

impl BinFileReader {
    /// The tiles from the current position to the end of the file, as a grid.
    pub fn into_tile_grid(self) -> (r: Result<TileGrid, SeekReadError>)
        ensures
            r matches Ok(grid) && grid@ == bin_tiles(self@.data, self@.tile_kind, self@.pos as int),
    {
        match self.read_tiles() {
            Ok(tiles) => Ok(TileGrid::from(tiles)),
            Err(error) => Err(SeekReadError::FileError(error)),
        }
    }
}

/// The tiles are well formed and of one kind.
pub open spec fn wf_tiles_of_kind(tiles: Seq<TileView>, kind: TileKind) -> bool {
    forall|i: int| 0 <= i < tiles.len() ==> (#[trigger] tiles[i]).kind == kind && tiles[i].wf()
}

/// Each kind of bin file is found again from its size, and no size belongs
/// to both kinds.
pub proof fn lemma_bin_kind_inference(kind: TileKind, bytes: int)
    ensures
        TileKind::spec_for_bin_file_size_bytes(kind.spec_bin_file_size_bytes() as int) == Some(
            kind,
        ),
        TileKind::spec_for_bin_file_size_bytes(bytes) == Some(kind) <==> bytes
            == kind.spec_bin_file_size_bytes(),
{
    TileKind::SD.lemma_sizes();
    TileKind::HD.lemma_sizes();
}

/// The bytes of the first tiles of a bin file are the first bytes of the file.
pub proof fn lemma_bin_tiles_bytes(data: Seq<u8>, kind: TileKind, count: int)
    requires
        data.len() == kind.spec_bin_file_size_bytes(),
        0 <= count <= 256,
    ensures
        tiles_bytes(bin_tiles(data, kind, 0).take(count)) == data.subrange(
            0,
            count * kind.spec_raw_rgba_size_bytes(),
        ),
        0 <= count * kind.spec_raw_rgba_size_bytes() <= data.len(),
    decreases count,
{
    let tiles = bin_tiles(data, kind, 0);
    let size = kind.spec_raw_rgba_size_bytes() as int;
    if count == 0 {
        assert(tiles.take(0) =~= Seq::<TileView>::empty());
        assert(0 * size == 0) by (nonlinear_arith);
        assert(data.subrange(0, 0) =~= Seq::<u8>::empty());
    } else {
        lemma_bin_tiles_bytes(data, kind, count - 1);
        lemma_tiles_bytes_step(tiles, count - 1);
        lemma_bin_tile_range(kind, count - 1);
        assert(tiles[count - 1] == bin_tile(data, kind, count - 1));
        assert(data.subrange(0, (count - 1) * size) + data.subrange(
            (count - 1) * size,
            count * size,
        ) =~= data.subrange(0, count * size));
    }
}

/// Reading a bin file and writing its tiles gives the file back: the bytes
/// of the tiles of a bin file are the bytes of the file.
pub proof fn lemma_bin_file_round_trip(data: Seq<u8>, kind: TileKind)
    requires
        data.len() == kind.spec_bin_file_size_bytes(),
    ensures
        tiles_bytes(bin_tiles(data, kind, 0)) == data,
        wf_tiles_of_kind(bin_tiles(data, kind, 0), kind),
{
    let tiles = bin_tiles(data, kind, 0);
    lemma_bin_tiles_bytes(data, kind, 256);
    assert(tiles.take(256) =~= tiles);
    assert(data.subrange(0, 256 * (kind.spec_raw_rgba_size_bytes() as int)) =~= data);
    assert forall|i: int| 0 <= i < tiles.len() implies (#[trigger] tiles[i]).kind == kind
        && tiles[i].wf() by {
        lemma_bin_tile_range(kind, i);
    }
}

/// The bytes of the first tiles of a collection are the first bytes of the
/// collection.
pub proof fn lemma_tiles_bytes_prefix(tiles: Seq<TileView>, count: int)
    requires
        0 <= count <= tiles.len(),
    ensures
        tiles_bytes(tiles.take(count)).len() <= tiles_bytes(tiles).len(),
        tiles_bytes(tiles.take(count)) == tiles_bytes(tiles).take(
            tiles_bytes(tiles.take(count)).len() as int,
        ),
    decreases tiles.len() - count,
{
    if count < tiles.len() {
        lemma_tiles_bytes_prefix(tiles, count + 1);
        lemma_tiles_bytes_step(tiles, count);
        let shorter = tiles_bytes(tiles.take(count));
        let longer = tiles_bytes(tiles.take(count + 1));
        assert(shorter =~= longer.take(shorter.len() as int));
        assert(shorter =~= tiles_bytes(tiles).take(shorter.len() as int));
    } else {
        assert(tiles.take(count) =~= tiles);
        assert(tiles_bytes(tiles).take(tiles_bytes(tiles).len() as int) =~= tiles_bytes(tiles));
    }
}

/// Writing 256 tiles of one kind as a bin file and reading the file gives
/// the tiles back.
pub proof fn lemma_tiles_round_trip(tiles: Seq<TileView>, kind: TileKind)
    requires
        tiles.len() == 256,
        wf_tiles_of_kind(tiles, kind),
    ensures
        tiles_bytes(tiles).len() == kind.spec_bin_file_size_bytes(),
        bin_tiles(tiles_bytes(tiles), kind, 0) == tiles,
{
    let data = tiles_bytes(tiles);
    let size = kind.spec_raw_rgba_size_bytes() as int;
    lemma_tiles_bytes_len(tiles, kind);
    assert forall|i: int| 0 <= i < 256 implies bin_tile(data, kind, i) == tiles[i] by {
        lemma_tiles_bytes_prefix(tiles, i);
        lemma_tiles_bytes_prefix(tiles, i + 1);
        lemma_tiles_bytes_step(tiles, i);
        lemma_bin_tile_range(kind, i);
        let before = tiles.take(i);
        let upto = tiles.take(i + 1);
        assert forall|k: int| 0 <= k < before.len() implies (#[trigger] before[k]).kind == kind
            && before[k].wf() by {
            assert(before[k] == tiles[k]);
        }
        assert forall|k: int| 0 <= k < upto.len() implies (#[trigger] upto[k]).kind == kind
            && upto[k].wf() by {
            assert(upto[k] == tiles[k]);
        }
        lemma_tiles_bytes_len(before, kind);
        lemma_tiles_bytes_len(upto, kind);
        assert(tiles_bytes(upto) == tiles_bytes(before) + tiles[i].pixels);
        assert(data.subrange(i * size, (i + 1) * size) =~= tiles[i].pixels) by {
            assert(data.take((i + 1) * size) == tiles_bytes(upto));
            assert forall|k: int| 0 <= k < size implies data[i * size + k] == tiles[i].pixels[k] by {
                assert(data.take((i + 1) * size)[i * size + k] == data[i * size + k]);
                assert(tiles_bytes(upto)[i * size + k] == tiles[i].pixels[k]);
            }
        }
    }
    assert(bin_tiles(data, kind, 0) =~= tiles);
}

} // verus!
