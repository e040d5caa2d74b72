//! Converts a graph described in GraphML into a MatrixMarket sparse-matrix
//! text file for its adjacency structure.
//!
//! The reader turns a byte stream into the complete ordered sequence of
//! validated graph events, or fails fast on the first error; the writer
//! renders that sequence as the file's text.  The writer never begins until
//! the reader has fully succeeded.

use vstd::prelude::*;

pub mod graph;

use crate::graph::reader::{
    graphml_reader, read_spec, xml_scan_of, ReaderError, ReaderErrorView,
};
use crate::graph::writer::{mm_spec, mm_writer};

verus! {

/// The outcome of one whole conversion of the given input bytes: the file
/// text for the events the reader collects, or the reader's first error.
pub open spec fn convert_spec(input: Seq<u8>) -> Result<Seq<char>, ReaderErrorView> {
    match read_spec(xml_scan_of(input).0, xml_scan_of(input).1) {
        Ok(events) => Ok(mm_spec(events)),
        Err(e) => Err(e),
    }
}

/// The view of a conversion's result.
pub open spec fn convert_result_view(r: Result<String, ReaderError>) -> Result<
    Seq<char>,
    ReaderErrorView,
> {
    match r {
        Ok(text) => Ok(text@),
        Err(e) => Err(e@),
    }
}

/// Runs the reader and, only when it fully succeeded, the writer.
pub fn convert(input: &[u8]) -> (r: Result<String, ReaderError>)
    ensures
        convert_result_view(r) == convert_spec(input@),
{
    match graphml_reader(input) {
        Ok(events) => Ok(mm_writer(&events)),
        Err(e) => Err(e),
    }
}

/// Running the conversion on byte-identical input gives byte-identical
/// output: the outcome is a function of the input bytes alone.
pub proof fn lemma_convert_deterministic(first: Seq<u8>, second: Seq<u8>)
    requires
        first == second,
    ensures
        convert_spec(first) == convert_spec(second),
{
}

} // verus!
