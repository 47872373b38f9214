//! What a conversion is asked to read and to write: a collection or a set
//! of collections, written as a prefix that names the format, a `:`, and
//! the paths.

use crate::outcome::result_view;
use crate::text::find_char;
use crate::text::find_last_char;
use crate::text::first_index_of;
use crate::text::last_index_of;
use crate::text::lemma_first_index_of;
use crate::text::lemma_last_index_of;
use crate::text::split;
use crate::text::split_text;
use vstd::prelude::*;
use vstd::string::StringExecFns;

verus! {

/// Whether two texts are the same.
pub fn same_text(a: &str, b: &str) -> (r: bool)
    ensures
        r == (a@ == b@),
{
    String::from_str(a) == String::from_str(b)
}

/// Why an argument names no collection.
#[derive(Debug)]
pub enum InvalidConvertArgError {
    /// The prefix names no format.
    InvalidPrefix(String),
    /// The path of an image file does not end in `.png`.
    InvalidImageFileExtension { path: String, extension: Option<String> },
    /// The argument has no prefix.
    NoPrefix,
}

/// What an [`InvalidConvertArgError`] says.
pub enum InvalidConvertArgErrorView {
    InvalidPrefix(Seq<char>),
    InvalidImageFileExtension { path: Seq<char>, extension: Option<Seq<char>> },
    NoPrefix,
}

impl View for InvalidConvertArgError {
    type V = InvalidConvertArgErrorView;

    open spec fn view(&self) -> InvalidConvertArgErrorView {
        match self {
            InvalidConvertArgError::InvalidPrefix(prefix) => {
                InvalidConvertArgErrorView::InvalidPrefix(prefix@)
            },
            InvalidConvertArgError::InvalidImageFileExtension { path, extension } => {
                InvalidConvertArgErrorView::InvalidImageFileExtension {
                    path: path@,
                    extension: match extension {
                        Some(extension) => Some(extension@),
                        None => None,
                    },
                }
            },
            InvalidConvertArgError::NoPrefix => InvalidConvertArgErrorView::NoPrefix,
        }
    }
}

/// A collection in one of the formats, at a path.
#[derive(Debug)]
pub enum ConvertArg {
    BinFile(String),
    AvatarFile(String),
    TileGrid(String),
    TileDir(String),
    SymbolDir(String),
}

/// What a [`ConvertArg`] is, with the path as a sequence of characters.
pub enum ConvertArgView {
    BinFile(Seq<char>),
    AvatarFile(Seq<char>),
    TileGrid(Seq<char>),
    TileDir(Seq<char>),
    SymbolDir(Seq<char>),
}

impl View for ConvertArg {
    type V = ConvertArgView;

    open spec fn view(&self) -> ConvertArgView {
        match self {
            ConvertArg::BinFile(path) => ConvertArgView::BinFile(path@),
            ConvertArg::AvatarFile(path) => ConvertArgView::AvatarFile(path@),
            ConvertArg::TileGrid(path) => ConvertArgView::TileGrid(path@),
            ConvertArg::TileDir(path) => ConvertArgView::TileDir(path@),
            ConvertArg::SymbolDir(path) => ConvertArgView::SymbolDir(path@),
        }
    }
}

impl DeepView for ConvertArg {
    type V = ConvertArgView;

    open spec fn deep_view(&self) -> ConvertArgView {
        self@
    }
}

impl ConvertArg {
    /// The prefix that names the format.
    pub fn prefix(&self) -> (r: &'static str)
        ensures
            r@ == (match self {
                ConvertArg::BinFile(_) => "djibin"@,
                ConvertArg::AvatarFile(_) => "avatar"@,
                ConvertArg::TileGrid(_) => "tilegrid"@,
                ConvertArg::TileDir(_) => "tiledir"@,
                ConvertArg::SymbolDir(_) => "symdir"@,
            }),
    {
        match self {
            ConvertArg::BinFile(_) => "djibin",
            ConvertArg::AvatarFile(_) => "avatar",
            ConvertArg::TileGrid(_) => "tilegrid",
            ConvertArg::TileDir(_) => "tiledir",
            ConvertArg::SymbolDir(_) => "symdir",
        }
    }

    /// The path of the collection.
    pub fn path(&self) -> (r: &str)
        ensures
            r@ == (match self@ {
                ConvertArgView::BinFile(path) => path,
                ConvertArgView::AvatarFile(path) => path,
                ConvertArgView::TileGrid(path) => path,
                ConvertArgView::TileDir(path) => path,
                ConvertArgView::SymbolDir(path) => path,
            }),
    {
        match self {
            ConvertArg::BinFile(path) => path.as_str(),
            ConvertArg::AvatarFile(path) => path.as_str(),
            ConvertArg::TileGrid(path) => path.as_str(),
            ConvertArg::TileDir(path) => path.as_str(),
            ConvertArg::SymbolDir(path) => path.as_str(),
        }
    }
}

/// The collection that an argument names: what stands before the first `:`
/// names the format, what follows it is the path.
pub open spec fn convert_arg_of(input: Seq<char>) -> Result<
    ConvertArgView,
    InvalidConvertArgErrorView,
> {
    let colon = first_index_of(input, ':', 0);
    let prefix = input.subrange(0, colon);
    let path = input.subrange(colon + 1, input.len() as int);
    if colon >= input.len() {
        Err(InvalidConvertArgErrorView::NoPrefix)
    } else if prefix == "djibin"@ {
        Ok(ConvertArgView::BinFile(path))
    } else if prefix == "tilegrid"@ {
        Ok(ConvertArgView::TileGrid(path))
    } else if prefix == "tiledir"@ {
        Ok(ConvertArgView::TileDir(path))
    } else if prefix == "symdir"@ {
        Ok(ConvertArgView::SymbolDir(path))
    } else if prefix == "avatar"@ {
        Ok(ConvertArgView::AvatarFile(path))
    } else {
        Err(InvalidConvertArgErrorView::InvalidPrefix(prefix))
    }
}

/// The collection that an argument names: see [`convert_arg_of`].
pub fn identify_convert_arg(input: &str) -> (r: Result<ConvertArg, InvalidConvertArgError>)
    ensures
        result_view(r) == convert_arg_of(input@),
{
    let len = input.unicode_len();
    let colon = find_char(input, ':', 0);
    if colon >= len {
        return Err(InvalidConvertArgError::NoPrefix);
    }
    let prefix = input.substring_char(0, colon);
    let path = String::from_str(input.substring_char(colon + 1, len));
    if same_text(prefix, "djibin") {
        Ok(ConvertArg::BinFile(path))
    } else if same_text(prefix, "tilegrid") {
        Ok(ConvertArg::TileGrid(path))
    } else if same_text(prefix, "tiledir") {
        Ok(ConvertArg::TileDir(path))
    } else if same_text(prefix, "symdir") {
        Ok(ConvertArg::SymbolDir(path))
    } else if same_text(prefix, "avatar") {
        Ok(ConvertArg::AvatarFile(path))
    } else {
        Err(InvalidConvertArgError::InvalidPrefix(String::from_str(prefix)))
    }
}

/// The name of the file at a path: what follows the last `/`.
pub open spec fn file_name_of(path: Seq<char>) -> Seq<char> {
    path.subrange(last_index_of(path, '/', path.len() as int) + 1, path.len() as int)
}

/// The extension of the file at a path: what follows the last `.` of the
/// file's name. A name without a `.`, or whose only `.` is its first
/// character, has none, and neither has the name `..`.
pub open spec fn extension_of(path: Seq<char>) -> Option<Seq<char>> {
    let name = file_name_of(path);
    let dot = last_index_of(name, '.', name.len() as int);
    if dot <= 0 || name == ".."@ {
        None
    } else {
        Some(name.subrange(dot + 1, name.len() as int))
    }
}

/// The extension of the file at a path: see [`extension_of`].
pub fn path_extension(path: &str) -> (r: Option<String>)
    ensures
        r.deep_view() == extension_of(path@),
{
    let len = path.unicode_len();
    proof {
        lemma_last_index_of(path@, '/', len as int);
    }
    let start = match find_last_char(path, '/') {
        Some(slash) => slash + 1,
        None => 0,
    };
    let name = path.substring_char(start, len);
    let name_len = len - start;
    if same_text(name, "..") {
        return None;
    }
    match find_last_char(name, '.') {
        Some(dot) => if dot == 0 {
            None
        } else {
            proof {
                lemma_last_index_of(name@, '.', name_len as int);
            }
            Some(String::from_str(name.substring_char(dot + 1, name_len)))
        },
        None => None,
    }
}

/// That the file at a path is an image file by its extension.
pub open spec fn image_file_extension_checked(path: Seq<char>) -> Result<
    (),
    InvalidConvertArgErrorView,
> {
    if extension_of(path) == Some("png"@) {
        Ok(())
    } else {
        Err(
            InvalidConvertArgErrorView::InvalidImageFileExtension {
                path,
                extension: extension_of(path),
            },
        )
    }
}

/// That the file at a path is an image file by its extension, which must be `png`.
pub fn check_arg_image_file_extension(path: &str) -> (r: Result<(), InvalidConvertArgError>)
    ensures
        result_view(r) == image_file_extension_checked(path@),
{
    match path_extension(path) {
        Some(extension) => if same_text(extension.as_str(), "png") {
            Ok(())
        } else {
            Err(
                InvalidConvertArgError::InvalidImageFileExtension {
                    path: String::from_str(path),
                    extension: Some(extension),
                },
            )
        },
        None => Err(
            InvalidConvertArgError::InvalidImageFileExtension {
                path: String::from_str(path),
                extension: None,
            },
        ),
    }
}

/// A set of collections in one of the formats.
#[derive(Debug)]
pub enum ConvertSetArg {
    BinFileSet { sd_path: String, sd_2_path: String, hd_path: String, hd_2_path: String },
    BinFileSetNorm { dir: String, ident: Option<String> },
    TileSetGrids { sd_path: String, hd_path: String },
    TileSetGridsNorm { dir: String, ident: Option<String> },
    TileSetDir(String),
    SymbolSetDir(String),
}

/// What a [`ConvertSetArg`] is, with the paths as sequences of characters.
pub enum ConvertSetArgView {
    BinFileSet { sd_path: Seq<char>, sd_2_path: Seq<char>, hd_path: Seq<char>, hd_2_path: Seq<char> },
    BinFileSetNorm { dir: Seq<char>, ident: Option<Seq<char>> },
    TileSetGrids { sd_path: Seq<char>, hd_path: Seq<char> },
    TileSetGridsNorm { dir: Seq<char>, ident: Option<Seq<char>> },
    TileSetDir(Seq<char>),
    SymbolSetDir(Seq<char>),
}

/// An identifier as a sequence of characters.
pub open spec fn option_view(ident: Option<String>) -> Option<Seq<char>> {
    match ident {
        Some(ident) => Some(ident@),
        None => None,
    }
}

impl View for ConvertSetArg {
    type V = ConvertSetArgView;

    open spec fn view(&self) -> ConvertSetArgView {
        match self {
            ConvertSetArg::BinFileSet { sd_path, sd_2_path, hd_path, hd_2_path } => {
                ConvertSetArgView::BinFileSet {
                    sd_path: sd_path@,
                    sd_2_path: sd_2_path@,
                    hd_path: hd_path@,
                    hd_2_path: hd_2_path@,
                }
            },
            ConvertSetArg::BinFileSetNorm { dir, ident } => ConvertSetArgView::BinFileSetNorm {
                dir: dir@,
                ident: option_view(*ident),
            },
            ConvertSetArg::TileSetGrids { sd_path, hd_path } => ConvertSetArgView::TileSetGrids {
                sd_path: sd_path@,
                hd_path: hd_path@,
            },
            ConvertSetArg::TileSetGridsNorm { dir, ident } => ConvertSetArgView::TileSetGridsNorm {
                dir: dir@,
                ident: option_view(*ident),
            },
            ConvertSetArg::TileSetDir(path) => ConvertSetArgView::TileSetDir(path@),
            ConvertSetArg::SymbolSetDir(path) => ConvertSetArgView::SymbolSetDir(path@),
        }
    }
}

impl DeepView for ConvertSetArg {
    type V = ConvertSetArgView;

    open spec fn deep_view(&self) -> ConvertSetArgView {
        self@
    }
}

impl ConvertSetArg {
    /// The prefix that names the format.
    pub fn prefix(&self) -> (r: &'static str)
        ensures
            r@ == (match self {
                ConvertSetArg::BinFileSet { .. } => "djibinset"@,
                ConvertSetArg::BinFileSetNorm { .. } => "djibinsetnorm"@,
                ConvertSetArg::TileSetGrids { .. } => "tilesetgrids"@,
                ConvertSetArg::TileSetGridsNorm { .. } => "tilesetgridsnorm"@,
                ConvertSetArg::TileSetDir(_) => "tilesetdir"@,
                ConvertSetArg::SymbolSetDir(_) => "symsetdir"@,
            }),
    {
        match self {
            ConvertSetArg::BinFileSet { .. } => "djibinset",
            ConvertSetArg::BinFileSetNorm { .. } => "djibinsetnorm",
            ConvertSetArg::TileSetGrids { .. } => "tilesetgrids",
            ConvertSetArg::TileSetGridsNorm { .. } => "tilesetgridsnorm",
            ConvertSetArg::TileSetDir(_) => "tilesetdir",
            ConvertSetArg::SymbolSetDir(_) => "symsetdir",
        }
    }
}

/// Why an argument names no set of collections.
#[derive(Debug)]
pub enum InvalidConvertSetArgError {
    InvalidConvertArgError(InvalidConvertArgError),
    /// The paths of a set of bin files, or a directory and an identifier,
    /// are too few or too many.
    BinSetInvalidArguments(&'static str),
    /// The paths of a set of grid images are too few or too many.
    TileSetGridsInvalidArguments(&'static str),
}

/// What an [`InvalidConvertSetArgError`] says.
pub enum InvalidConvertSetArgErrorView {
    InvalidConvertArgError(InvalidConvertArgErrorView),
    BinSetInvalidArguments(Seq<char>),
    TileSetGridsInvalidArguments(Seq<char>),
}

impl View for InvalidConvertSetArgError {
    type V = InvalidConvertSetArgErrorView;

    open spec fn view(&self) -> InvalidConvertSetArgErrorView {
        match self {
            InvalidConvertSetArgError::InvalidConvertArgError(error) => {
                InvalidConvertSetArgErrorView::InvalidConvertArgError(error@)
            },
            InvalidConvertSetArgError::BinSetInvalidArguments(message) => {
                InvalidConvertSetArgErrorView::BinSetInvalidArguments(message@)
            },
            InvalidConvertSetArgError::TileSetGridsInvalidArguments(message) => {
                InvalidConvertSetArgErrorView::TileSetGridsInvalidArguments(message@)
            },
        }
    }
}

/// A directory and, behind a `:`, an identifier, which may be left out.
/// More than one `:` is too many.
pub open spec fn norm_args_of(arg: Seq<char>) -> Result<
    (Seq<char>, Option<Seq<char>>),
    InvalidConvertSetArgErrorView,
> {
    let args = split(arg, ':');
    if args.len() > 2 {
        Err(InvalidConvertSetArgErrorView::BinSetInvalidArguments("too many arguments"@))
    } else if args.len() == 2 {
        Ok((args[0], Some(args[1])))
    } else {
        Ok((args[0], None))
    }
}

/// A text has one part at least.
pub proof fn lemma_split_len(s: Seq<char>, c: char)
    ensures
        split(s, c).len() >= 1,
    decreases s.len(),
{
    let cut = first_index_of(s, c, 0);
    lemma_first_index_of(s, c, 0);
    if cut < s.len() {
        lemma_split_len(s.subrange(cut + 1, s.len() as int), c);
    }
}

/// A directory and, behind a `:`, an identifier: see [`norm_args_of`].
pub fn argument_norm_args(arg: &str) -> (r: Result<
    (String, Option<String>),
    InvalidConvertSetArgError,
>)
    ensures
        match norm_args_of(arg@) {
            Ok((dir, ident)) => r matches Ok((d, i)) && d@ == dir && option_view(i) == ident,
            Err(e) => r matches Err(err) && err@ == e,
        },
{
    let args = split_text(arg, ':');
    proof {
        lemma_split_len(arg@, ':');
        assert(args.deep_view().len() == args.len());
    }
    if args.len() > 2 {
        return Err(InvalidConvertSetArgError::BinSetInvalidArguments("too many arguments"));
    }
    assert(args.deep_view()[0] == args[0]@);
    let dir = args[0].clone();
    let ident = if args.len() == 2 {
        assert(args.deep_view()[1] == args[1]@);
        Some(args[1].clone())
    } else {
        None
    };
    Ok((dir, ident))
}

/// The set of collections that an argument names: what stands before the
/// first `:` names the format, what follows it holds the paths, with a `:`
/// between one and the next where there are several.
pub open spec fn convert_set_arg_of(input: Seq<char>) -> Result<
    ConvertSetArgView,
    InvalidConvertSetArgErrorView,
> {
    let colon = first_index_of(input, ':', 0);
    let prefix = input.subrange(0, colon);
    let rest = input.subrange(colon + 1, input.len() as int);
    let files = split(rest, ':');
    if colon >= input.len() {
        Err(
            InvalidConvertSetArgErrorView::InvalidConvertArgError(
                InvalidConvertArgErrorView::NoPrefix,
            ),
        )
    } else if prefix == "djibinset"@ {
        if files.len() < 4 {
            Err(InvalidConvertSetArgErrorView::BinSetInvalidArguments("too few arguments"@))
        } else if files.len() > 4 {
            Err(InvalidConvertSetArgErrorView::BinSetInvalidArguments("too many arguments"@))
        } else {
            Ok(
                ConvertSetArgView::BinFileSet {
                    sd_path: files[0],
                    sd_2_path: files[1],
                    hd_path: files[2],
                    hd_2_path: files[3],
                },
            )
        }
    } else if prefix == "djibinsetnorm"@ {
        match norm_args_of(rest) {
            Ok((dir, ident)) => Ok(ConvertSetArgView::BinFileSetNorm { dir, ident }),
            Err(e) => Err(e),
        }
    } else if prefix == "tilesetgrids"@ {
        if files.len() < 2 {
            Err(InvalidConvertSetArgErrorView::TileSetGridsInvalidArguments("too few arguments"@))
        } else if files.len() > 2 {
            Err(
                InvalidConvertSetArgErrorView::TileSetGridsInvalidArguments("too many arguments"@),
            )
        } else {
            Ok(ConvertSetArgView::TileSetGrids { sd_path: files[0], hd_path: files[1] })
        }
    } else if prefix == "tilesetgridsnorm"@ {
        match norm_args_of(rest) {
            Ok((dir, ident)) => Ok(ConvertSetArgView::TileSetGridsNorm { dir, ident }),
            Err(e) => Err(e),
        }
    } else if prefix == "tilesetdir"@ {
        Ok(ConvertSetArgView::TileSetDir(rest))
    } else if prefix == "symsetdir"@ {
        Ok(ConvertSetArgView::SymbolSetDir(rest))
    } else {
        Err(
            InvalidConvertSetArgErrorView::InvalidConvertArgError(
                InvalidConvertArgErrorView::InvalidPrefix(prefix),
            ),
        )
    }
}

/// The set of collections that an argument names: see [`convert_set_arg_of`].
pub fn identify_convert_set_arg(input: &str) -> (r: Result<
    ConvertSetArg,
    InvalidConvertSetArgError,
>)
    ensures
        result_view(r) == convert_set_arg_of(input@),
{
    let len = input.unicode_len();
    let colon = find_char(input, ':', 0);
    if colon >= len {
        return Err(
            InvalidConvertSetArgError::InvalidConvertArgError(InvalidConvertArgError::NoPrefix),
        );
    }
    let prefix = input.substring_char(0, colon);
    let rest = input.substring_char(colon + 1, len);
    if same_text(prefix, "djibinset") {
        let files = split_text(rest, ':');
        assert(files.deep_view().len() == files.len());
        if files.len() < 4 {
            return Err(InvalidConvertSetArgError::BinSetInvalidArguments("too few arguments"));
        }
        if files.len() > 4 {
            return Err(InvalidConvertSetArgError::BinSetInvalidArguments("too many arguments"));
        }
        assert(files.deep_view()[0] == files[0]@ && files.deep_view()[1] == files[1]@
            && files.deep_view()[2] == files[2]@ && files.deep_view()[3] == files[3]@);
        Ok(
            ConvertSetArg::BinFileSet {
                sd_path: files[0].clone(),
                sd_2_path: files[1].clone(),
                hd_path: files[2].clone(),
                hd_2_path: files[3].clone(),
            },
        )
    } else if same_text(prefix, "djibinsetnorm") {
        match argument_norm_args(rest) {
            Ok((dir, ident)) => Ok(ConvertSetArg::BinFileSetNorm { dir, ident }),
            Err(e) => Err(e),
        }
    } else if same_text(prefix, "tilesetgrids") {
        let files = split_text(rest, ':');
        assert(files.deep_view().len() == files.len());
        if files.len() < 2 {
            return Err(
                InvalidConvertSetArgError::TileSetGridsInvalidArguments("too few arguments"),
            );
        }
        if files.len() > 2 {
            return Err(
                InvalidConvertSetArgError::TileSetGridsInvalidArguments("too many arguments"),
            );
        }
        assert(files.deep_view()[0] == files[0]@ && files.deep_view()[1] == files[1]@);
        Ok(ConvertSetArg::TileSetGrids { sd_path: files[0].clone(), hd_path: files[1].clone() })
    } else if same_text(prefix, "tilesetgridsnorm") {
        match argument_norm_args(rest) {
            Ok((dir, ident)) => Ok(ConvertSetArg::TileSetGridsNorm { dir, ident }),
            Err(e) => Err(e),
        }
    } else if same_text(prefix, "tilesetdir") {
        Ok(ConvertSetArg::TileSetDir(String::from_str(rest)))
    } else if same_text(prefix, "symsetdir") {
        Ok(ConvertSetArg::SymbolSetDir(String::from_str(rest)))
    } else {
        Err(
            InvalidConvertSetArgError::InvalidConvertArgError(
                InvalidConvertArgError::InvalidPrefix(String::from_str(prefix)),
            ),
        )
    }
}

} // verus!
