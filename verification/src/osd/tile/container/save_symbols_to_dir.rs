//! Writing a collection of symbols as a symbol directory: one image file for
//! each symbol.

use crate::create_path::CreatePathError;
use crate::decimal::padded3;
use crate::decimal::padded3_string;
use crate::image::png_encoding;
use crate::image::WriteError as ImageWriteError;
use crate::osd::tile::container::symbol::Symbol;
use crate::osd::tile::container::symbol::SymbolView;
use crate::path::spec_join;
use vstd::prelude::*;
use vstd::string::StringExecFns;

verus! {

/// Why a symbol directory could not be written.
#[derive(Debug)]
pub enum SaveSymbolsToDirError {
    /// The directory could not be created. The library creates no directory
    /// and never returns this; it is for those who do.
    CreatePathError(CreatePathError),
    /// A symbol could not be encoded as an image file.
    ImageWriteError(ImageWriteError),
}

/// The name of the file of the symbol that starts at tile `start` and spans
/// `span` tiles: the start index with zeros before it up to three digits;
/// then, for a span of more than one tile, `-` and the index of the last
/// tile in the same form; then `.png`.
pub open spec fn spec_symbol_file_name(start: nat, span: nat) -> Seq<char> {
    if span == 1 {
        padded3(start) + ".png"@
    } else {
        padded3(start) + "-"@ + padded3((start + span - 1) as nat) + ".png"@
    }
}

/// The name of the file of the symbol that starts at tile `start` and spans
/// `span` tiles.
pub fn symbol_file_name(start: usize, span: usize) -> (r: String)
    requires
        span >= 1,
        start + span <= usize::MAX,
    ensures
        r@ == spec_symbol_file_name(start as nat, span as nat),
{
    if span == 1 {
        padded3_string(start).concat(".png")
    } else {
        let end = padded3_string(start + span - 1);
        padded3_string(start).concat("-").concat(end.as_str()).concat(".png")
    }
}

/// The number of tiles of the first `count` symbols.
pub open spec fn tiles_before(symbols: Seq<SymbolView>, count: int) -> nat
    decreases count,
{
    if count <= 0 {
        0
    } else {
        tiles_before(symbols, count - 1) + symbols[count - 1].tiles.len()
    }
}

/// Whether the files of the symbols can be made: the image of each symbol
/// can, and the tiles can be counted.
pub open spec fn symbols_fit(symbols: Seq<SymbolView>) -> bool {
    &&& tiles_before(symbols, symbols.len() as int) <= usize::MAX
    &&& forall|i: int| 0 <= i < symbols.len() ==> (#[trigger] symbols[i]).image_fits()
}

/// Whether each of the symbols can be encoded as an image file.
pub open spec fn symbols_encode(symbols: Seq<SymbolView>) -> bool {
    forall|i: int| 0 <= i < symbols.len() ==> png_encoding((#[trigger] symbols[i]).image()) is Some
}

/// The files of the symbol directory `dir` that holds `symbols`, as path and
/// content, in the order of the symbols.
pub open spec fn symbol_files(symbols: Seq<SymbolView>, dir: Seq<char>) -> Seq<
    (Seq<char>, Seq<u8>),
> {
    Seq::new(
        symbols.len(),
        |i: int|
            (
                spec_join(
                    dir,
                    spec_symbol_file_name(tiles_before(symbols, i), symbols[i].tiles.len()),
                ),
                png_encoding(symbols[i].image())->Some_0,
            ),
    )
}

/// The tiles of fewer symbols are fewer.
pub proof fn lemma_tiles_before_grows(symbols: Seq<SymbolView>, count: int, later: int)
    requires
        0 <= count <= later,
    ensures
        tiles_before(symbols, count) <= tiles_before(symbols, later),
    decreases later - count,
{
    if count < later {
        lemma_tiles_before_grows(symbols, count, later - 1);
    }
}

/// Whether the files of the symbols can be made: see [`symbols_fit`].
pub fn symbols_fit_check(symbols: &Vec<Symbol>) -> (r: bool)
    ensures
        r == symbols_fit(symbols.deep_view()),
{
    let mut total: usize = 0;
    let mut i: usize = 0;
    let ghost all = symbols.deep_view();
    while i < symbols.len()
        invariant
            i <= symbols.len(),
            all == symbols.deep_view(),
            total == tiles_before(all, i as int),
            forall|k: int| 0 <= k < i ==> (#[trigger] all[k]).image_fits(),
        decreases symbols.len() - i,
    {
        let symbol = &symbols[i];
        assert(all[i as int] == symbol@);
        if !symbol.image_fits() {
            return false;
        }
        let span = symbol.span();
        if span > usize::MAX - total {
            proof {
                lemma_tiles_before_grows(all, i + 1, all.len() as int);
            }
            return false;
        }
        total += span;
        i += 1;
    }
    true
}

/// A collection of symbols that can be written as a symbol directory.
pub trait SaveSymbolsToDir {
    /// The symbols of the collection, in order.
    spec fn spec_symbols_to_save(&self) -> Seq<SymbolView>;

    /// The files of the symbol directory `path` that holds the symbols, as
    /// path and content. The files are for the caller to write.
    fn save_to_dir(&self, path: &str) -> (r: Result<Vec<(String, Vec<u8>)>, SaveSymbolsToDirError>)
        requires
            symbols_fit(self.spec_symbols_to_save()),
        ensures
            symbols_encode(self.spec_symbols_to_save()) ==> (r matches Ok(files)
                && files.deep_view() == symbol_files(self.spec_symbols_to_save(), path@)),
            !symbols_encode(self.spec_symbols_to_save()) ==> r matches Err(
                SaveSymbolsToDirError::ImageWriteError(_),
            ),
    ;
}

impl SaveSymbolsToDir for Vec<Symbol> {
    open spec fn spec_symbols_to_save(&self) -> Seq<SymbolView> {
        self.deep_view()
    }

    fn save_to_dir(&self, path: &str) -> (r: Result<Vec<(String, Vec<u8>)>, SaveSymbolsToDirError>) {
        let mut files: Vec<(String, Vec<u8>)> = Vec::new();
        let mut tile_index: usize = 0;
        let mut index: usize = 0;
        let ghost symbols = self.deep_view();
        assert(files.deep_view() =~= symbol_files(symbols, path@).take(0));
        while index < self.len()
            invariant
                index <= self.len(),
                symbols == self.deep_view(),
                symbols_fit(symbols),
                tile_index == tiles_before(symbols, index as int),
                symbols_encode(symbols.take(index as int)),
                files.deep_view() == symbol_files(symbols, path@).take(index as int),
            decreases self.len() - index,
        {
            let symbol = &self[index];
            proof {
                assert(symbols[index as int] == symbol@);
                lemma_tiles_before_grows(symbols, index + 1, symbols.len() as int);
            }
            let file_name = symbol_file_name(tile_index, symbol.span());
            let file_path = crate::path::join(path, file_name.as_str());
            match symbol.generate_image().write_image_file(file_path.as_str()) {
                Ok(content) => {
                    let ghost prev = files.deep_view();
                    proof {
                        crate::outcome::lemma_bytes_deep_view(content);
                    }
                    files.push((file_path, content));
                    proof {
                        assert(files.deep_view() =~= prev.push((file_path@, content@)));
                        assert(symbol_files(symbols, path@).take(index + 1) =~= prev.push(
                            (file_path@, content@),
                        ));
                        assert forall|i: int|
                            0 <= i < symbols.take(index + 1).len() implies png_encoding(
                            (#[trigger] symbols.take(index + 1)[i]).image(),
                        ) is Some by {
                            if i < index {
                                assert(symbols.take(index as int)[i] == symbols[i]);
                            }
                        }
                    }
                },
                Err(error) => {
                    return Err(SaveSymbolsToDirError::ImageWriteError(error));
                },
            }
            tile_index += symbol.span();
            index += 1;
        }
        proof {
            assert(symbols.take(index as int) =~= symbols);
            assert(symbol_files(symbols, path@).take(index as int) =~= symbol_files(
                symbols,
                path@,
            ));
        }
        Ok(files)
    }
}

} // verus!
