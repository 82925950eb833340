//! Parser for the textual listing of per-processor attributes: one record per
//! logical processor, fields in a fixed order, records separated by a blank
//! line. The grammar is stated as spec functions over byte sequences and
//! every executable parser is proved to return exactly what the grammar
//! decodes.

pub mod fields;
pub mod grammar;
pub mod laws;
pub mod record;
pub mod scan;

use vstd::prelude::*;

use crate::record::{cpus, spec_parse_cpus, Cpu, CpuV};
use vstd::string::StringSliceAdditionalSpecFns;

verus! {

/// The parsed document: every processor record, in input order.
#[derive(Debug)]
pub struct CpuInfo {
    pub cpus: Vec<Cpu>,
}

/// Why a parse failed: the input held no text at all, or it did not match
/// the record grammar.
#[derive(Debug, PartialEq, Eq, Structural, Clone, Copy)]
pub enum ParseError {
    EmptyInput,
    Malformed,
}

/// A whole document: one or more records separated by single blank lines,
/// with nothing at all after the last record's own terminating line break.
pub open spec fn spec_parse_doc(s: Seq<u8>) -> Option<Seq<CpuV>> {
    match spec_parse_cpus(s, 0) {
        None => None,
        Some((cs, p)) => {
            if p == s.len() {
                Some(cs)
            } else {
                None
            }
        },
    }
}

/// Parses a whole processor listing. Returns the records in input order
/// exactly when the text matches the document grammar; an empty input is
/// reported as such, any other failure as malformed input.
pub fn cpuinfo(input: &str) -> (r: Result<CpuInfo, ParseError>)
    ensures
        match r {
            Ok(ci) => spec_parse_doc(input.spec_bytes()) == Some(ci.cpus.deep_view()),
            Err(e) => spec_parse_doc(input.spec_bytes()) is None && (e == ParseError::EmptyInput
                <==> input.spec_bytes().len() == 0),
        },
{
    let bytes = input.as_bytes();
    match cpus(bytes, 0) {
        None => {
            if bytes.len() == 0 {
                Err(ParseError::EmptyInput)
            } else {
                Err(ParseError::Malformed)
            }
        },
        Some((cs, p)) => {
            if p == bytes.len() {
                Ok(CpuInfo { cpus: cs })
            } else {
                Err(ParseError::Malformed)
            }
        },
    }
}

} // verus!
