//! Which runs of tiles form one symbol: a table of start index and span.

use crate::decimal::all_digits;
use crate::decimal::digits_value;
use crate::decimal::is_digit;
use crate::file::Action;
use crate::file::FileError;
use crate::file::IOError;
use crate::outcome::result_view;
use crate::text::find_char;
use crate::text::first_index_of;
use vstd::prelude::*;

verus! {

/// The error type of the `serde_yaml` crate.
#[verifier::external_type_specification]
#[verifier::external_body]
pub struct ExYamlError(serde_yaml::Error);

/// The mapping from strings to strings that a YAML text holds, or `None`
/// where the text is no such mapping.
pub uninterp spec fn yaml_string_map(text: Seq<u8>) -> Option<Map<Seq<char>, Seq<char>>>;

/// Whether `entries` are the entries of `map`, each once, in some order.
pub open spec fn lists(entries: Seq<(Seq<char>, Seq<char>)>, map: Map<Seq<char>, Seq<char>>) -> bool {
    &&& forall|i: int, j: int|
        0 <= i < j < entries.len() ==> (#[trigger] entries[i]).0 != (#[trigger] entries[j]).0
    &&& forall|i: int|
        0 <= i < entries.len() ==> map.contains_pair(
            (#[trigger] entries[i]).0,
            entries[i].1,
        )
    &&& forall|key: Seq<char>| #[trigger]
        map.contains_key(key) ==> exists|i: int|
            0 <= i < entries.len() && (#[trigger] entries[i]).0 == key
}

/// Calls `serde_yaml::from_slice` for a `HashMap<String, String>` and hands
/// out the entries of the map in the order in which the map is walked. The
/// map is a function of the text alone; the order of its entries is not. Each
/// entry of the map comes out once.
#[verifier::external_body]
fn parse_yaml_string_map(text: &[u8]) -> (r: Result<Vec<(String, String)>, serde_yaml::Error>)
    ensures
        r is Ok <==> yaml_string_map(text@) is Some,
        r matches Ok(entries) ==> lists(entries.deep_view(), yaml_string_map(text@)->Some_0),
{
    let map: std::collections::HashMap<String, String> = serde_yaml::from_slice(text)?;
    Ok(map.into_iter().collect())
}

/// Whether `c` is a digit of a number in base 16.
pub open spec fn is_hex_digit(c: char) -> bool {
    is_digit(c) || ('a' <= c && c <= 'f') || ('A' <= c && c <= 'F')
}

/// The number that a digit of base 16 stands for.
pub open spec fn hex_digit_value(c: char) -> int {
    if is_digit(c) {
        c as u32 - '0' as u32
    } else if 'a' <= c && c <= 'f' {
        c as u32 - 'a' as u32 + 10
    } else {
        c as u32 - 'A' as u32 + 10
    }
}

/// The number that a sequence of digits of base 16 stands for.
pub open spec fn hex_value(s: Seq<char>) -> nat
    decreases s.len(),
{
    if s.len() == 0 {
        0
    } else {
        (hex_value(s.drop_last()) * 16 + hex_digit_value(s.last())) as nat
    }
}

/// Whether `s` is a number in decimal: one digit or more.
pub open spec fn is_decimal_text(s: Seq<char>) -> bool {
    s.len() > 0 && all_digits(s)
}

/// Whether `s` is a number in base 16: `0x`, then one digit or more.
pub open spec fn is_hex_text(s: Seq<char>) -> bool {
    &&& s.len() > 2
    &&& s[0] == '0'
    &&& s[1] == 'x'
    &&& forall|i: int| 2 <= i < s.len() ==> is_hex_digit(#[trigger] s[i])
}

/// The number that a text in decimal or in base 16 stands for, where it fits.
pub open spec fn number_value(s: Seq<char>) -> Option<usize> {
    let value = if is_hex_text(s) {
        hex_value(s.subrange(2, s.len() as int))
    } else {
        digits_value(s)
    };
    if value <= usize::MAX {
        Some(value as usize)
    } else {
        None
    }
}

/// Calls `parse_int::parse` for a `usize`, on a text that is a number in
/// decimal or, behind `0x`, in base 16. On such a text the crate reads the
/// digits in that base and fails only where the number does not fit.
#[verifier::external_body]
fn parse_number(text: &str) -> (r: Option<usize>)
    requires
        is_decimal_text(text@) || is_hex_text(text@),
    ensures
        r == number_value(text@),
{
    parse_int::parse::<usize>(text).ok()
}

/// One symbol of a font: it starts at a tile index and spans a number of tiles.
#[derive(PartialEq, Eq, Structural, Debug, Clone, Copy)]
pub struct Spec {
    pub start_tile_index: usize,
    pub span: usize,
}

impl Spec {
    pub fn new(start_tile_index: usize, span: usize) -> (r: Self)
        ensures
            r == (Spec { start_tile_index, span }),
    {
        Spec { start_tile_index, span }
    }

    pub fn start_tile_index(&self) -> (r: usize)
        ensures
            r == self.start_tile_index,
    {
        self.start_tile_index
    }

    pub fn span(&self) -> (r: usize)
        ensures
            r == self.span,
    {
        self.span
    }

    /// The index of the first tile after the symbol.
    pub fn end_tile_index(&self) -> (r: usize)
        requires
            self.start_tile_index + self.span <= usize::MAX,
        ensures
            r == self.start_tile_index + self.span,
    {
        self.start_tile_index + self.span
    }

    /// The indices of the symbol's tiles.
    pub fn tile_index_range(&self) -> (r: core::ops::Range<usize>)
        requires
            self.start_tile_index + self.span <= usize::MAX,
        ensures
            r.start == self.start_tile_index,
            r.end == self.start_tile_index + self.span,
    {
        core::ops::Range { start: self.start_tile_index, end: self.end_tile_index() }
    }
}

/// The first entry of `specs` that starts at `start_tile_index`.
pub open spec fn find_start(specs: Seq<Spec>, start_tile_index: int) -> Option<Spec>
    decreases specs.len(),
{
    if specs.len() == 0 {
        None
    } else if specs.first().start_tile_index == start_tile_index {
        Some(specs.first())
    } else {
        find_start(specs.drop_first(), start_tile_index)
    }
}

/// A table of symbols, in the order in which it was given.
#[derive(Debug)]
pub struct Specs(pub Vec<Spec>);

impl View for Specs {
    type V = Seq<Spec>;

    open spec fn view(&self) -> Seq<Spec> {
        self.0@
    }
}

impl Specs {
    /// The table that holds `spec_vec`.
    pub fn from(spec_vec: Vec<Spec>) -> (r: Self)
        ensures
            r@ == spec_vec@,
    {
        Specs(spec_vec)
    }

    /// The first entry that starts at `start_tile_index`.
    pub fn find_start_index(&self, start_tile_index: usize) -> (r: Option<&Spec>)
        ensures
            match find_start(self@, start_tile_index as int) {
                Some(spec) => r matches Some(s) && *s == spec,
                None => r is None,
            },
    {
        let mut i: usize = 0;
        assert(self@.subrange(0, self@.len() as int) =~= self@);
        while i < self.0.len()
            invariant
                i <= self.0.len(),
                find_start(self@, start_tile_index as int) == find_start(
                    self@.subrange(i as int, self@.len() as int),
                    start_tile_index as int,
                ),
            decreases self.0.len() - i,
        {
            let ghost rest = self@.subrange(i as int, self@.len() as int);
            assert(rest.first() == self@[i as int]);
            assert(rest.drop_first() =~= self@.subrange(i + 1, self@.len() as int));
            if self.0[i].start_tile_index == start_tile_index {
                return Some(&self.0[i]);
            }
            i += 1;
        }
        None
    }

    /// The number of entries.
    pub fn len(&self) -> (r: usize)
        ensures
            r == self@.len(),
    {
        self.0.len()
    }
}

/// The entry of the table that a text stands for: the start index in
/// decimal or, behind `0x`, in base 16, then `:`, then the span in decimal.
/// Both numbers must fit.
pub open spec fn spec_of_text(s: Seq<char>) -> Option<Spec> {
    let colon = first_index_of(s, ':', 0);
    let start = s.subrange(0, colon);
    let span = s.subrange(colon + 1, s.len() as int);
    if colon < s.len() && (is_decimal_text(start) || is_hex_text(start)) && is_decimal_text(span)
        && number_value(start) is Some && number_value(span) is Some {
        Some(
            Spec {
                start_tile_index: number_value(start)->Some_0,
                span: number_value(span)->Some_0,
            },
        )
    } else {
        None
    }
}

/// Whether the characters of `text` from `from` up to, but not including,
/// `to` are a number in decimal.
fn check_decimal_text(text: &str, from: usize, to: usize) -> (r: bool)
    requires
        from <= to <= text@.len(),
    ensures
        r == is_decimal_text(text@.subrange(from as int, to as int)),
{
    let ghost part = text@.subrange(from as int, to as int);
    if from == to {
        return false;
    }
    let mut i: usize = from;
    while i < to
        invariant
            from <= i <= to <= text@.len(),
            part == text@.subrange(from as int, to as int),
            forall|k: int| 0 <= k < i - from ==> is_digit(#[trigger] part[k]),
        decreases to - i,
    {
        let c = text.get_char(i);
        assert(part[i - from] == c);
        if !(c >= '0' && c <= '9') {
            return false;
        }
        i += 1;
    }
    true
}

/// Whether the characters of `text` before `to` are a number in base 16.
fn check_hex_text(text: &str, to: usize) -> (r: bool)
    requires
        to <= text@.len(),
    ensures
        r == is_hex_text(text@.subrange(0, to as int)),
{
    let ghost part = text@.subrange(0, to as int);
    if to <= 2 {
        return false;
    }
    assert(part[0] == text@[0] && part[1] == text@[1]);
    if text.get_char(0) != '0' || text.get_char(1) != 'x' {
        return false;
    }
    let mut i: usize = 2;
    while i < to
        invariant
            2 <= i <= to <= text@.len(),
            part == text@.subrange(0, to as int),
            forall|k: int| 2 <= k < i ==> is_hex_digit(#[trigger] part[k]),
        decreases to - i,
    {
        let c = text.get_char(i);
        assert(part[i as int] == c);
        if !((c >= '0' && c <= '9') || (c >= 'a' && c <= 'f') || (c >= 'A' && c <= 'F')) {
            return false;
        }
        i += 1;
    }
    true
}

/// The entry of the table that a text stands for: see [`spec_of_text`].
pub fn parse_spec(text: &str) -> (r: Option<Spec>)
    ensures
        r == spec_of_text(text@),
{
    let len = text.unicode_len();
    let colon = find_char(text, ':', 0);
    if colon >= len {
        return None;
    }
    let decimal_start = check_decimal_text(text, 0, colon);
    let hex_start = check_hex_text(text, colon);
    if !(decimal_start || hex_start) || !check_decimal_text(text, colon + 1, len) {
        return None;
    }
    let start_tile_index = match parse_number(text.substring_char(0, colon)) {
        Some(start_tile_index) => start_tile_index,
        None => {
            return None;
        },
    };
    let span = match parse_number(text.substring_char(colon + 1, len)) {
        Some(span) => span,
        None => {
            return None;
        },
    };
    Some(Spec::new(start_tile_index, span))
}

/// Why a table of symbols could not be had from a file.
#[derive(Debug)]
pub enum LoadSpecsFileError {
    /// The file could not be read.
    OpenError(FileError),
    /// The file holds no mapping from strings to strings.
    FileStructureError { file_path: String, error: serde_yaml::Error },
    /// An entry of the file stands for no entry of the table.
    InvalidSymbolSpec { file_path: String, symbol_name: String, spec: String },
}

/// What a [`LoadSpecsFileError`] says.
pub enum LoadSpecsFileErrorView {
    OpenError { action: Action, path: Seq<char>, error: IOError },
    FileStructureError { file_path: Seq<char> },
    InvalidSymbolSpec { file_path: Seq<char>, symbol_name: Seq<char>, spec: Seq<char> },
}

impl View for LoadSpecsFileError {
    type V = LoadSpecsFileErrorView;

    open spec fn view(&self) -> LoadSpecsFileErrorView {
        match self {
            LoadSpecsFileError::OpenError(error) => LoadSpecsFileErrorView::OpenError {
                action: error.action,
                path: error.path@,
                error: error.error,
            },
            LoadSpecsFileError::FileStructureError { file_path, .. } => {
                LoadSpecsFileErrorView::FileStructureError { file_path: file_path@ }
            },
            LoadSpecsFileError::InvalidSymbolSpec { file_path, symbol_name, spec } => {
                LoadSpecsFileErrorView::InvalidSymbolSpec {
                    file_path: file_path@,
                    symbol_name: symbol_name@,
                    spec: spec@,
                }
            },
        }
    }
}

impl LoadSpecsFileError {
    pub fn file_structure(file_path: &str, error: serde_yaml::Error) -> (r: Self)
        ensures
            r@ == (LoadSpecsFileErrorView::FileStructureError { file_path: file_path@ }),
    {
        LoadSpecsFileError::FileStructureError { file_path: file_path.to_owned(), error }
    }

    pub fn invalid_symbol_spec(file_path: &str, symbol_name: &str, spec: &str) -> (r: Self)
        ensures
            r@ == (LoadSpecsFileErrorView::InvalidSymbolSpec {
                file_path: file_path@,
                symbol_name: symbol_name@,
                spec: spec@,
            }),
    {
        LoadSpecsFileError::InvalidSymbolSpec {
            file_path: file_path.to_owned(),
            symbol_name: symbol_name.to_owned(),
            spec: spec.to_owned(),
        }
    }
}

impl DeepView for Specs {
    type V = Seq<Spec>;

    open spec fn deep_view(&self) -> Seq<Spec> {
        self@
    }
}

/// The table that the first `upto` entries of the file at `path` stand for,
/// each entry a symbol's name and its text, or the error of the first entry
/// that stands for no entry of the table.
pub open spec fn specs_of_entries(
    path: Seq<char>,
    entries: Seq<(Seq<char>, Seq<char>)>,
    upto: int,
) -> Result<Seq<Spec>, LoadSpecsFileErrorView>
    decreases upto,
{
    if upto <= 0 {
        Ok(Seq::empty())
    } else {
        match specs_of_entries(path, entries, upto - 1) {
            Ok(specs) => match spec_of_text(entries[upto - 1].1) {
                Some(spec) => Ok(specs.push(spec)),
                None => Err(
                    LoadSpecsFileErrorView::InvalidSymbolSpec {
                        file_path: path,
                        symbol_name: entries[upto - 1].0,
                        spec: entries[upto - 1].1,
                    },
                ),
            },
            Err(e) => Err(e),
        }
    }
}

/// A table that has failed stays failed, with the same error.
pub proof fn lemma_specs_of_entries_failed(
    path: Seq<char>,
    entries: Seq<(Seq<char>, Seq<char>)>,
    upto: int,
    later: int,
)
    requires
        upto <= later,
        specs_of_entries(path, entries, upto) is Err,
    ensures
        specs_of_entries(path, entries, later) == specs_of_entries(path, entries, upto),
    decreases later - upto,
{
    if upto < later {
        lemma_specs_of_entries_failed(path, entries, upto, later - 1);
    }
}

impl Specs {
    /// The table that the entries of the file at `path` stand for, each
    /// entry a symbol's name and its text: see [`spec_of_text`]. The table
    /// keeps the order of the entries.
    pub fn from_entries(path: &str, entries: &Vec<(String, String)>) -> (r: Result<
        Self,
        LoadSpecsFileError,
    >)
        ensures
            result_view(r) == specs_of_entries(
                path@,
                entries.deep_view(),
                entries.deep_view().len() as int,
            ),
    {
        let mut spec_vec: Vec<Spec> = Vec::new();
        let mut i: usize = 0;
        while i < entries.len()
            invariant
                i <= entries.len(),
                specs_of_entries(path@, entries.deep_view(), i as int) == Ok::<
                    Seq<Spec>,
                    LoadSpecsFileErrorView,
                >(spec_vec@),
            decreases entries.len() - i,
        {
            let entry = &entries[i];
            assert(entries.deep_view()[i as int] == (entry.0@, entry.1@));
            match parse_spec(entry.1.as_str()) {
                Some(spec) => {
                    spec_vec.push(spec);
                },
                None => {
                    proof {
                        lemma_specs_of_entries_failed(
                            path@,
                            entries.deep_view(),
                            i + 1,
                            entries.deep_view().len() as int,
                        );
                    }
                    return Err(
                        LoadSpecsFileError::invalid_symbol_spec(
                            path,
                            entry.0.as_str(),
                            entry.1.as_str(),
                        ),
                    );
                },
            }
            i += 1;
        }
        Ok(Specs(spec_vec))
    }

    /// The table in the file at `path`, whose content is `content`.
    ///
    /// The file holds a YAML mapping from the names of the symbols to texts,
    /// each of which stands for an entry of the table. The mapping has no
    /// order: the entries of the table, and which of several entries that
    /// do not stand for one is reported, follow the order in which the
    /// mapping was walked.
    pub fn load_file(path: &str, content: &Result<Vec<u8>, IOError>) -> (r: Result<
        Self,
        LoadSpecsFileError,
    >)
        ensures
            match *content {
                Ok(bytes) => match yaml_string_map(bytes@) {
                    Some(map) => exists|entries: Seq<(Seq<char>, Seq<char>)>|
                        lists(entries, map) && #[trigger] specs_of_entries(
                            path@,
                            entries,
                            entries.len() as int,
                        ) == result_view(r),
                    None => r matches Err(e) && e@ == (LoadSpecsFileErrorView::FileStructureError {
                        file_path: path@,
                    }),
                },
                Err(error) => r matches Err(e) && e@ == (LoadSpecsFileErrorView::OpenError {
                    action: Action::Open,
                    path: path@,
                    error,
                }),
            },
    {
        let bytes = match content {
            Ok(bytes) => bytes,
            Err(error) => {
                return Err(
                    LoadSpecsFileError::OpenError(FileError::new(Action::Open, path, *error)),
                );
            },
        };
        let entries = match parse_yaml_string_map(bytes.as_slice()) {
            Ok(entries) => entries,
            Err(error) => {
                return Err(LoadSpecsFileError::file_structure(path, error));
            },
        };
        let r = Specs::from_entries(path, &entries);
        proof {
            let listed = entries.deep_view();
            assert(lists(listed, yaml_string_map(bytes@)->Some_0) && specs_of_entries(
                path@,
                listed,
                listed.len() as int,
            ) == result_view(r));
        }
        r
    }
}

} // verus!
