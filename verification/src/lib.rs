//! Renders a JIT compiler's JSON optimization log as a human-readable
//! text disassembly: functions, their passes, the basic blocks of each
//! pass's mid-level tier, and aligned instruction listings with successor
//! summaries.

pub mod text;
pub mod scalar;
pub mod json;
pub mod model;
pub mod render;
pub mod decode;
pub mod load;

pub use json::Json;
pub use load::{format_document, load_document, process_log};
pub use model::{Block, Document, Function, Instruction, Pass};
pub use scalar::Scalar;

use vstd::prelude::*;

verus! {

/// The ways a run over an input log can fail.
#[derive(Debug, PartialEq, Eq)]
pub enum Error {
    /// The input text is not well-formed JSON; carries the parser's message.
    Parse(String),
    /// A required field of the document shape is absent or of the wrong type.
    MissingField,
}

} // verus!

