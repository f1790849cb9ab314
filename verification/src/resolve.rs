//! The record-level policy: a raw candidate is offered to the ten-symbol
//! parser first, then to the thirteen-digit parser, and every accepted value
//! is surfaced in its canonical thirteen-digit form; a record with no ISBN
//! field, or an empty one, is missing rather than invalid.

use vstd::prelude::*;
use vstd::string::StrSliceExecFns;
use crate::{InvalidIsbn, ParseError};
use crate::convert::convert;
use crate::isbn10::Isbn10;
use crate::isbn13::Isbn13;
use crate::model::{display_chars, spec_convert, spec_parse10, spec_parse13};

verus! {

/// What resolving a candidate yields: the canonical thirteen-digit value
/// string, or the reasons both parsers gave.
pub open spec fn spec_resolve(s: Seq<char>) -> Result<Seq<int>, (ParseError, ParseError)> {
    match spec_parse10(s) {
        Ok(v) => Ok(spec_convert(v)),
        Err(e10) => match spec_parse13(s) {
            Ok(v) => Ok(v),
            Err(e13) => Err((e10, e13)),
        },
    }
}

/// Resolves one raw candidate: the ten-symbol parse is attempted first and
/// its success converted, the thirteen-digit parse second and returned as it
/// is; when both fail, the raw string comes back with both reasons.
pub fn resolve(raw: &str) -> (r: Result<Isbn13, InvalidIsbn>)
    ensures
        match r {
            Ok(v) => v.wf() && spec_resolve(raw@) == Ok::<Seq<int>, (ParseError, ParseError)>(v@),
            Err(inv) => {
                &&& spec_resolve(raw@) == Err::<Seq<int>, (ParseError, ParseError)>(
                    (inv.isbn10_error, inv.isbn13_error),
                )
                &&& inv.raw@ == raw@
            },
        },
{
    match Isbn10::parse(raw) {
        Ok(v10) => Ok(convert(&v10)),
        Err(e10) => match Isbn13::parse(raw) {
            Ok(v13) => Ok(v13),
            Err(e13) => Err(
                InvalidIsbn { raw: raw.to_owned(), isbn10_error: e10, isbn13_error: e13 },
            ),
        },
    }
}

/// The outcome of one record, as handed to the reporting layer.
#[derive(Clone, Debug, PartialEq, Eq)]
pub enum RecordOutcome {
    /// The field held a usable ISBN; `canonical` is its compact
    /// thirteen-digit rendering and `raw` the original field.
    Valid { index: usize, canonical: String, raw: String },
    /// The field held a non-empty string that neither parser accepts.
    Invalid { index: usize, raw: String, isbn10_error: ParseError, isbn13_error: ParseError },
    /// The record has no ISBN field, or an empty one.
    Missing { index: usize },
}

/// Classifies one record: an absent or empty field is `Missing`; a field
/// that resolves is `Valid`, carrying the canonical thirteen-digit rendering
/// beside the original string; any other field is `Invalid` with the reasons
/// both parsers gave.
pub fn process_record(index: usize, raw: Option<&str>) -> (r: RecordOutcome)
    ensures
        match r {
            RecordOutcome::Missing { index: i } => {
                &&& i == index
                &&& (raw is None || raw->0@.len() == 0)
            },
            RecordOutcome::Valid { index: i, canonical, raw: kept } => {
                &&& i == index
                &&& raw is Some
                &&& kept@ == raw->0@
                &&& raw->0@.len() > 0
                &&& spec_resolve(raw->0@) is Ok
                &&& canonical@ == display_chars(spec_resolve(raw->0@)->Ok_0)
            },
            RecordOutcome::Invalid { index: i, raw: kept, isbn10_error, isbn13_error } => {
                &&& i == index
                &&& raw is Some
                &&& kept@ == raw->0@
                &&& raw->0@.len() > 0
                &&& spec_resolve(raw->0@) == Err::<Seq<int>, (ParseError, ParseError)>(
                    (isbn10_error, isbn13_error),
                )
            },
        },
{
    match raw {
        None => RecordOutcome::Missing { index },
        Some(s) => {
            if s.unicode_len() == 0 {
                return RecordOutcome::Missing { index };
            }
            match resolve(s) {
                Ok(v13) => RecordOutcome::Valid {
                    index,
                    canonical: v13.to_string(),
                    raw: s.to_owned(),
                },
                Err(inv) => RecordOutcome::Invalid {
                    index,
                    raw: inv.raw,
                    isbn10_error: inv.isbn10_error,
                    isbn13_error: inv.isbn13_error,
                },
            }
        },
    }
}

} // verus!
