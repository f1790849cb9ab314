//! Validated International Standard Book Numbers.
//!
//! The crate parses raw catalogue strings into the two ISBN forms
//! ([`Isbn10`](isbn10::Isbn10) and [`Isbn13`](isbn13::Isbn13)), checks their
//! weighted checksums, converts the ten-symbol form to its canonical
//! thirteen-digit form, and classifies whole records
//! ([`resolve`](resolve::resolve), [`process_record`](resolve::process_record)).

use vstd::prelude::*;

pub mod convert;
pub mod isbn10;
pub mod isbn13;
pub mod laws;
pub mod model;
pub mod normalize;
pub mod proofs;
pub mod resolve;
pub mod symbols;

verus! {

/// Why a candidate string failed to parse as an ISBN.
#[derive(Clone, Copy, Debug, PartialEq, Eq, Structural)]
pub enum ParseError {
    /// With separators removed, the string does not have the length the form asks for.
    LengthError,
    /// A position that needs a decimal digit (or, for the last ISBN-10 position,
    /// a digit or the letter `X`) holds some other character.
    CharacterError,
    /// A thirteen-digit candidate does not begin with the Bookland prefix 978 or 979.
    PrefixError,
    /// The symbols are well formed but the weighted checksum does not come out to zero.
    ChecksumError,
}

/// The aggregate failure of a whole record: neither ISBN form accepted the string.
///
/// It keeps the raw input for diagnostics, together with the reason each of the
/// two parsers gave.
#[derive(Clone, Debug, PartialEq, Eq)]
pub struct InvalidIsbn {
    pub raw: String,
    pub isbn10_error: ParseError,
    pub isbn13_error: ParseError,
}

} // verus!
