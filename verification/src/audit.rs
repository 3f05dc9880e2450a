//! The audit log schema: one JSON object per line of `audit-YYYY-MM-DD.jsonl`.
//! Serializing these values is done by the caller.

use vstd::prelude::*;

verus! {

/// Contract metadata embedded in an audit entry.
pub struct Contract<'a> {
    pub name: &'a str,
    pub version: &'a str,
}

/// Target of a validation: file, and optionally column and rule.
pub struct Target<'a> {
    pub file: &'a str,
    pub column: Option<&'a str>,
    pub rule: Option<&'a str>,
}

/// Result of a single rule evaluation: `result` is `"pass"` or `"fail"`
/// (or `"skipped"`), with optional details.
pub struct RuleResult {
    pub column: String,
    pub rule: String,
    pub result: String,
    pub details: Option<String>,
}

/// Who and where ran the validation.
pub struct Executor {
    pub user: String,
    pub host: String,
}

/// Summary of a full process run.
pub struct ProcessSummary {
    pub contracts_run: usize,
    pub contracts_failed: usize,
    pub status: String,
}

/// One audit log entry: timestamped, leveled, typed by `event`, optionally
/// tied to a contract, a target, results or a run summary.
pub struct AuditLogEntry<'a> {
    pub timestamp: String,
    pub level: &'a str,
    pub event: &'a str,
    pub contract: Option<Contract<'a>>,
    pub target: Option<Target<'a>>,
    pub results: Option<Vec<RuleResult>>,
    pub executor: Executor,
    pub details: Option<&'a str>,
    pub summary: Option<ProcessSummary>,
}

impl Clone for Executor {
    fn clone(&self) -> (r: Self)
        ensures
            r.user@ == self.user@,
            r.host@ == self.host@,
    {
        Executor { user: self.user.clone(), host: self.host.clone() }
    }
}

impl Clone for RuleResult {
    fn clone(&self) -> (r: Self)
        ensures
            r.column@ == self.column@,
            r.rule@ == self.rule@,
            r.result@ == self.result@,
            r.details == self.details,
    {
        RuleResult {
            column: self.column.clone(),
            rule: self.rule.clone(),
            result: self.result.clone(),
            details: self.details.clone(),
        }
    }
}

/// The arguments of one audit action record: the action's name, details,
/// contract name and version, and the data location involved. The caller
/// writes the record to the audit log.
pub struct ActionLog {
    pub action: String,
    pub details: Option<String>,
    pub contract_name: Option<String>,
    pub contract_version: Option<String>,
    pub location: Option<String>,
}

} // verus!
