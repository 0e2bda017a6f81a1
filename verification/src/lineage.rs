//! Identity lineage records and the command patterns they are audited
//! against.

use crate::util::fresh_event_id;
use vstd::prelude::*;
use vstd::string::StringExecFns;

verus! {

#[derive(Clone, Debug)]
pub struct LineageId(pub String);

impl LineageId {
    pub fn new() -> (r: LineageId)
        ensures
            r.0@.len() == 36,
    {
        LineageId(fresh_event_id())
    }
}

/// Why a lineage audit step failed.
#[derive(Clone, Debug)]
pub enum LineageError {
    InvalidPattern(String),
    NoMatch,
}

/// One audited source text with its match verdict.
#[derive(Clone, Debug)]
pub struct LineageRecord {
    pub id: LineageId,
    pub pattern_name: String,
    pub source_text: String,
    pub matched: bool,
}

impl LineageRecord {
    pub fn new(pattern_name: &str, source_text: &str, matched: bool) -> (r: LineageRecord)
        ensures
            r.pattern_name@ == pattern_name@,
            r.source_text@ == source_text@,
            r.matched == matched,
            r.id.0@.len() == 36,
    {
        LineageRecord {
            id: LineageId::new(),
            pattern_name: String::from_str(pattern_name),
            source_text: String::from_str(source_text),
            matched,
        }
    }
}

/// Declares regex::Regex so signatures can carry a compiled pattern;
/// the value is opaque here.
#[verifier::external_type_specification]
#[verifier::external_body]
pub struct ExRegex(regex::Regex);

/// A named raw pattern.
#[derive(Clone, Debug)]
pub struct CommandPattern {
    pub name: String,
    pub raw: String,
}

impl CommandPattern {
    /// Relies on regex::Regex::new: compiles the raw pattern, or carries
    /// the compile error's text; nothing further is assumed of the
    /// compiled value.
    #[verifier::external_body]
    pub fn compile(&self) -> Result<regex::Regex, LineageError> {
        regex::Regex::new(&self.raw).map_err(|e| LineageError::InvalidPattern(e.to_string()))
    }
}

} // verus!
