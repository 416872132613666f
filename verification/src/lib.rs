//! Dotlanth: a small platform for declarative service definitions ("dotDSL")
//! run on a deterministic register VM behind a capability-gated syscall host,
//! with runs persisted in an embedded store.

use vstd::prelude::*;

pub mod db;
pub mod diagnostics;
pub mod model;
pub mod event;
pub mod instruction;
pub mod ops;
pub mod parser;
pub mod registers;
pub mod rt;
pub mod sec;
pub mod serialize;
pub mod strutil;
pub mod validate;
pub mod value;
pub mod vm;

use crate::diagnostics::LoadError;
use crate::model::Document;
use crate::parser::{parse_result_spec, MAX_SOURCE_LEN};
use crate::validate::{document_valid, lemma_validated_document_well_formed, validate_spec};

verus! {

/// Parses and validates a dotDSL document from a source string.
///
/// The parser fails fast with a single diagnostic; the validator collects
/// every diagnostic of the parsed document.
pub fn parse_and_validate(source: &str, source_path: &str) -> (r: Result<Document, LoadError>)
    requires
        source@.len() <= MAX_SOURCE_LEN,
    ensures
        match r {
            Ok(doc) => parse_result_spec(source@) matches Ok(dm) && doc@ == dm && validate_spec(
                dm,
            ).len() == 0 && document_valid(doc@),
            Err(e) => e matches LoadError::Diagnostics { path, diagnostics } && path@
                == source_path@ && ((parse_result_spec(source@) matches Err(d)
                && diagnostics.deep_view() == seq![d]) || (parse_result_spec(
                source@,
            ) matches Ok(dm) && validate_spec(dm).len() > 0 && diagnostics.deep_view()
                == validate_spec(dm))),
        },
{
    let document = match parser::parse(source, source_path) {
        Ok(document) => document,
        Err(e) => {
            return Err(e);
        },
    };
    match validate::validate(&document, source_path) {
        Ok(()) => {
            proof {
                lemma_validated_document_well_formed(document@);
            }
            Ok(document)
        },
        Err(e) => Err(e),
    }
}

} // verus!
