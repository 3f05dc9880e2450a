//! The library's error type.

use vstd::prelude::*;

verus! {

/// `regex::Error`, the error of compiling a regular expression.
#[verifier::external_type_specification]
#[verifier::external_body]
pub struct ExRegexError(regex::Error);

/// Errors of validation, fetching and contract handling.
#[derive(Debug)]
pub enum ValidationError {
    /// A contract could not be parsed.
    ContractParse(String),
    /// Validation failed.
    ValidationFailed(String),
    /// A connector failed.
    Connector(String),
    /// The named profile is not defined.
    ProfileNotFound(String),
    /// A pattern is not a valid regular expression.
    Regex(regex::Error),
    /// A file exceeds the size limit.
    FileTooLarge { size: usize, max: usize },
    /// Any other failure, with its message.
    Other(String),
}

} // verus!
