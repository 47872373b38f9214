//! Width and height of a tile or of an image, in pixels.

use crate::decimal::all_digits;
use crate::decimal::digits_value;
use crate::decimal::parse_digits;
use crate::text::find_char;
use crate::text::first_index_of;
use vstd::prelude::*;
use vstd::std_specs::convert::FromSpecImpl;
use vstd::string::StringExecFns;

verus! {

/// A width and a height in pixels.
#[derive(PartialEq, Eq, Structural, Debug, Clone, Copy)]
pub struct Dimensions {
    pub width: u32,
    pub height: u32,
}

impl Dimensions {
    pub fn new(width: u32, height: u32) -> (r: Self)
        ensures
            r.width == width,
            r.height == height,
    {
        Dimensions { width, height }
    }

    pub fn width(&self) -> (r: u32)
        ensures
            r == self.width,
    {
        self.width
    }

    pub fn height(&self) -> (r: u32)
        ensures
            r == self.height,
    {
        self.height
    }
}

impl From<(u32, u32)> for Dimensions {
    fn from(pair: (u32, u32)) -> (r: Self) {
        Dimensions { width: pair.0, height: pair.1 }
    }
}

impl FromSpecImpl<(u32, u32)> for Dimensions {
    open spec fn obeys_from_spec() -> bool {
        true
    }

    open spec fn from_spec(pair: (u32, u32)) -> Self {
        Dimensions { width: pair.0, height: pair.1 }
    }
}

/// The text that stands for no dimensions.
#[derive(Debug)]
pub struct FormatError(pub String);

/// The dimensions that a text stands for: the width in decimal, an `x`, and
/// the height in decimal. Both must fit in 32 bits.
pub open spec fn dimensions_of_text(s: Seq<char>) -> Option<Dimensions> {
    let x = first_index_of(s, 'x', 0);
    let width = s.subrange(0, x);
    let height = s.subrange(x + 1, s.len() as int);
    if x < s.len() && width.len() > 0 && height.len() > 0 && all_digits(width) && all_digits(
        height,
    ) && digits_value(width) <= u32::MAX && digits_value(height) <= u32::MAX {
        Some(
            Dimensions { width: digits_value(width) as u32, height: digits_value(height) as u32 },
        )
    } else {
        None
    }
}

impl Dimensions {
    /// The dimensions that a text stands for: see [`dimensions_of_text`].
    pub fn from_str(s: &str) -> (r: Result<Self, FormatError>)
        ensures
            match dimensions_of_text(s@) {
                Some(dimensions) => r matches Ok(d) && d == dimensions,
                None => r matches Err(e) && e.0@ == s@,
            },
    {
        let len = s.unicode_len();
        let x = find_char(s, 'x', 0);
        if x >= len || x == 0 || x + 1 == len {
            return Err(FormatError(s.to_owned()));
        }
        let width = match parse_digits(s, 0, x) {
            Some(width) => width,
            None => {
                return Err(FormatError(s.to_owned()));
            },
        };
        let height = match parse_digits(s, x + 1, len) {
            Some(height) => height,
            None => {
                return Err(FormatError(s.to_owned()));
            },
        };
        if width > u32::MAX as usize || height > u32::MAX as usize {
            return Err(FormatError(s.to_owned()));
        }
        Ok(Dimensions { width: width as u32, height: height as u32 })
    }

    /// The dimensions as a text: the width, an `x`, and the height.
    pub fn to_string(&self) -> (r: String)
        ensures
            r@ == crate::decimal::decimal(self.width as nat) + seq!['x'] + crate::decimal::decimal(
                self.height as nat,
            ),
    {
        proof {
            reveal_strlit("x");
            assert("x"@ =~= seq!['x']);
        }
        let height = crate::decimal::decimal_string(self.height as usize);
        crate::decimal::decimal_string(self.width as usize).concat("x").concat(height.as_str())
    }
}

} // verus!
