//! The contract schema: what a contract file declares about a dataset,
//! where it is read from, and where it goes after validation.
//!
//! Parsing TOML into these types is done by the caller (with `serde`); the
//! `type` key of sources and sinks is held in the field `kind`.

use vstd::prelude::*;

verus! {

/// High-level metadata about a contract: `name` and `version` identify it,
/// `tags` group it.
pub struct Contract {
    pub name: String,
    pub version: String,
    pub tags: Vec<String>,
}

/// Input source of a contract: connector type (`local`, `s3`, `azure`,
/// `gcs`), location of the data, and the profile holding credentials.
pub struct Source {
    pub kind: String,
    pub location: Option<String>,
    pub profile: Option<String>,
}

/// Where data that passed validation is written; `format` may override the
/// output format.
pub struct Destination {
    pub kind: String,
    pub location: Option<String>,
    pub profile: Option<String>,
    pub format: Option<String>,
}

/// Where data that failed validation is written.
pub struct Quarantine {
    pub kind: String,
    pub location: Option<String>,
    pub profile: Option<String>,
    pub format: Option<String>,
}

/// Multi-column uniqueness: no two rows may share the values of `columns`.
pub struct CompoundUnique {
    pub columns: Vec<String>,
}

/// A rule on a column's values that the library checks itself (rules on
/// floating-point statistics are the caller's).
pub enum ColumnRule {
    /// No value may be null.
    NotNull,
    /// Every non-null value must be a boolean word.
    Boolean,
    /// Every non-null value must be one of `values`.
    InSet { values: Vec<String> },
    /// Every non-null value must contain a match of `pattern`.
    Pattern { pattern: String },
    /// Every non-null value must parse as a date and time in `format`.
    DateFormat { format: String },
}

/// A column named by a contract, with the rules on its values.
pub struct ColumnContracts {
    pub name: String,
    pub validation: Vec<ColumnRule>,
}

/// The full contract as declared in a contract file.
pub struct SchemaContracts {
    pub contract: Contract,
    pub columns: Vec<ColumnContracts>,
    pub compound_unique: Option<Vec<CompoundUnique>>,
    pub source: Option<Source>,
    pub destination: Option<Destination>,
    pub quarantine: Option<Quarantine>,
}

impl Clone for Destination {
    fn clone(&self) -> (r: Self)
        ensures
            r.kind@ == self.kind@,
            r.location == self.location,
            r.profile == self.profile,
            r.format == self.format,
    {
        Destination {
            kind: self.kind.clone(),
            location: self.location.clone(),
            profile: self.profile.clone(),
            format: self.format.clone(),
        }
    }
}

impl Clone for Quarantine {
    fn clone(&self) -> (r: Self)
        ensures
            r.kind@ == self.kind@,
            r.location == self.location,
            r.profile == self.profile,
            r.format == self.format,
    {
        Quarantine {
            kind: self.kind.clone(),
            location: self.location.clone(),
            profile: self.profile.clone(),
            format: self.format.clone(),
        }
    }
}

} // verus!
