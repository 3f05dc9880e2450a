//! Pipa: a data-quality and audit engine for structured data pipelines.
//!
//! This crate holds the verified core: the audit ledger and its integrity
//! checks, the command-line grammar, contract and profile handling, file
//! movement planning and the column validators that work on plain values.

pub mod audit;
pub mod cli;
pub mod connectors;
pub mod contracts;
pub mod crypto;
pub mod drivers;
pub mod engine;
pub mod error;
pub mod ledger;
pub mod movement;
pub mod paths;
pub mod profiles;
pub mod rules;
pub mod seal;
pub mod text;
pub mod validators;
pub mod verify;
