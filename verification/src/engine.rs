//! Engine decisions: contract lookup and validation outcomes, log
//! verification summaries, system health, and what happens to data after it
//! has been validated.
//!
//! Each function takes what the caller observed (files found, contracts
//! parsed, counts) and returns the result together with the audit action to
//! record.

use crate::audit::{ActionLog, RuleResult};
use crate::connectors::is_other;
use crate::error::ValidationError;
use crate::contracts::{Contract, Destination, Quarantine, SchemaContracts, Source};
use crate::paths::{extension, extension_spec, file_stem, file_stem_spec};
use crate::text::{bool_text, chars_of, decimal, push_bool, push_decimal, push_str};
use crate::verify::{chars_eq, FileVerification, VerificationSummary};
use vstd::prelude::*;

verus! {

/// Result of listing contracts: contract names (file stems).
pub struct ContractList {
    pub contracts: Vec<String>,
}

/// Result of getting a contract.
pub struct ContractInfo {
    pub name: String,
    pub version: String,
    pub exists: bool,
}

/// Result of validating a contract.
pub struct ContractValidation {
    pub valid: bool,
    pub error: Option<String>,
}

/// What the caller found at a contract's path.
pub enum ContractFile<'a> {
    /// No file at `contracts/<name>.toml`.
    Missing,
    /// The file exists but does not parse as a contract.
    Invalid,
    /// The file parsed; its contract metadata.
    Parsed(&'a Contract),
}

/// Result of log verification.
pub struct LogVerification {
    pub valid: bool,
    pub verified: usize,
    pub mismatched: usize,
    pub missing: usize,
    pub malformed: usize,
    pub unsealed: usize,
    pub files: Vec<FileVerification>,
}

/// Health of the project directory.
pub struct HealthStatus {
    pub healthy: bool,
    pub contracts_dir_exists: bool,
    pub logs_dir_exists: bool,
    pub profile_count: usize,
}

/// Outcome of validating data against a contract.
pub struct ValidationOutcome {
    pub passed: bool,
    pub pass_count: usize,
    pub fail_count: usize,
    pub results: Vec<RuleResult>,
}

/// Text of an optional string.
pub open spec fn opt_view(o: Option<String>) -> Option<Seq<char>> {
    match o {
        Some(s) => Some(s@),
        None => None,
    }
}

/// An action record as plain values.
pub open spec fn action_is(
    a: ActionLog,
    action: Seq<char>,
    details: Option<Seq<char>>,
    contract_name: Option<Seq<char>>,
    contract_version: Option<Seq<char>>,
    location: Option<Seq<char>>,
) -> bool {
    &&& a.action@ == action
    &&& opt_view(a.details) == details
    &&& opt_view(a.contract_name) == contract_name
    &&& opt_view(a.contract_version) == contract_version
    &&& opt_view(a.location) == location
}

fn owned(s: &str) -> (r: String)
    ensures
        r@ == s@,
{
    s.to_owned()
}

/// Lists contracts from the paths matching `contracts/*.toml` (`None` when
/// the directory listing failed): each path's file stem, in order, paths
/// without a stem skipped.
pub fn list_contracts(paths: Option<&Vec<String>>) -> (r: Result<(ContractList, ActionLog), String>)
    ensures
        match paths {
            None => r matches Err(e) && e@ == "Failed to read contracts directory"@,
            Some(ps) => r matches Ok((list, log)) && stems_of(ps@) == list.contracts@.map_values(
                |s: String| s@,
            ) && action_is(log, "contracts_listed"@, None, None, None, None),
        },
{
    match paths {
        None => Err(owned("Failed to read contracts directory")),
        Some(ps) => {
            let mut out: Vec<String> = Vec::new();
            let mut i: usize = 0;
            assert(ps@.take(0) =~= seq![]);
            assert(out@.map_values(|s: String| s@) =~= seq![]);
            while i < ps.len()
                invariant
                    i <= ps@.len(),
                    stems_of(ps@.take(i as int)) == out@.map_values(|s: String| s@),
                decreases ps@.len() - i,
            {
                assert(ps@.take(i + 1).drop_last() =~= ps@.take(i as int));
                match file_stem(ps[i].as_str()) {
                    Some(stem) => {
                        out.push(stem);
                        assert(out@.map_values(|s: String| s@) =~= stems_of(ps@.take(i as int)).push(
                            out@.last()@,
                        ));
                    },
                    None => {},
                }
                i = i + 1;
            }
            assert(ps@.take(ps@.len() as int) =~= ps@);
            let log = ActionLog {
                action: owned("contracts_listed"),
                details: None,
                contract_name: None,
                contract_version: None,
                location: None,
            };
            Ok((ContractList { contracts: out }, log))
        },
    }
}

/// File stems of paths, skipping paths without one.
pub open spec fn stems_of(paths: Seq<String>) -> Seq<Seq<char>>
    decreases paths.len(),
{
    if paths.len() == 0 {
        seq![]
    } else {
        let rest = stems_of(paths.drop_last());
        match file_stem_spec(paths.last()@) {
            Some(s) => rest.push(s),
            None => rest,
        }
    }
}

/// Information about a contract: for a missing file the given name, an
/// empty version and `exists == false`; otherwise the contract's own name and
/// version. `found` is the parsed contract when its file exists.
pub fn get_contract(name: &str, found: Option<&Contract>) -> (r: (ContractInfo, ActionLog))
    ensures
        match found {
            None => r.0.name@ == name@ && r.0.version@ == ""@ && !r.0.exists && action_is(
                r.1,
                "contract_retrieved"@,
                Some("exists=false"@),
                Some(name@),
                None,
                None,
            ),
            Some(c) => r.0.name@ == c.name@ && r.0.version@ == c.version@ && r.0.exists
                && action_is(
                r.1,
                "contract_retrieved"@,
                Some("exists=true"@),
                Some(c.name@),
                Some(c.version@),
                None,
            ),
        },
{
    match found {
        None => {
            let log = ActionLog {
                action: owned("contract_retrieved"),
                details: Some(owned("exists=false")),
                contract_name: Some(owned(name)),
                contract_version: None,
                location: None,
            };
            (ContractInfo { name: owned(name), version: owned(""), exists: false }, log)
        },
        Some(c) => {
            let log = ActionLog {
                action: owned("contract_retrieved"),
                details: Some(owned("exists=true")),
                contract_name: Some(c.name.clone()),
                contract_version: Some(c.version.clone()),
                location: None,
            };
            (ContractInfo { name: c.name.clone(), version: c.version.clone(), exists: true }, log)
        },
    }
}

/// Validates a contract file: valid exactly when it exists and parses; the
/// error says which of the two failed.
pub fn validate_contract(name: &str, file: ContractFile) -> (r: (ContractValidation, ActionLog))
    ensures
        match file {
            ContractFile::Missing => !r.0.valid && opt_view(r.0.error) == Some("Contract not found"@)
                && action_is(
                r.1,
                "contract_validated"@,
                Some("error=Contract not found"@),
                Some(name@),
                None,
                None,
            ),
            ContractFile::Invalid => !r.0.valid && opt_view(r.0.error) == Some(
                "Contract failed to parse"@,
            ) && action_is(
                r.1,
                "contract_validated"@,
                Some("error=Contract failed to parse"@),
                Some(name@),
                None,
                None,
            ),
            ContractFile::Parsed(c) => r.0.valid && r.0.error is None && action_is(
                r.1,
                "contract_validated"@,
                Some("valid=true"@),
                Some(c.name@),
                Some(c.version@),
                None,
            ),
        },
{
    match file {
        ContractFile::Missing => (
            ContractValidation { valid: false, error: Some(owned("Contract not found")) },
            ActionLog {
                action: owned("contract_validated"),
                details: Some(owned("error=Contract not found")),
                contract_name: Some(owned(name)),
                contract_version: None,
                location: None,
            },
        ),
        ContractFile::Invalid => (
            ContractValidation { valid: false, error: Some(owned("Contract failed to parse")) },
            ActionLog {
                action: owned("contract_validated"),
                details: Some(owned("error=Contract failed to parse")),
                contract_name: Some(owned(name)),
                contract_version: None,
                location: None,
            },
        ),
        ContractFile::Parsed(c) => (
            ContractValidation { valid: true, error: None },
            ActionLog {
                action: owned("contract_validated"),
                details: Some(owned("valid=true")),
                contract_name: Some(c.name.clone()),
                contract_version: Some(c.version.clone()),
                location: None,
            },
        ),
    }
}

/// `valid=…, verified=…, mismatched=…, missing=…, malformed=…, unsealed=…`.
pub open spec fn log_details_spec(
    valid: bool,
    verified: nat,
    mismatched: nat,
    missing: nat,
    malformed: nat,
    unsealed: nat,
) -> Seq<char> {
    "valid="@ + bool_text(valid) + ", verified="@ + decimal(verified) + ", mismatched="@ + decimal(
        mismatched,
    ) + ", missing="@ + decimal(missing) + ", malformed="@ + decimal(malformed) + ", unsealed="@
        + decimal(unsealed)
}

/// Turns a verification summary into the log verification result: the logs
/// are valid when nothing is mismatched, missing, malformed or unsealed.
pub fn verify_logs(summary: VerificationSummary) -> (r: (LogVerification, ActionLog))
    ensures
        r.0.valid == (summary.mismatched == 0 && summary.missing == 0 && summary.malformed == 0
            && summary.unsealed == 0),
        r.0.verified == summary.verified,
        r.0.mismatched == summary.mismatched,
        r.0.missing == summary.missing,
        r.0.malformed == summary.malformed,
        r.0.unsealed == summary.unsealed,
        r.0.files == summary.files,
        action_is(
            r.1,
            "logs_verified"@,
            Some(
                log_details_spec(
                    r.0.valid,
                    summary.verified as nat,
                    summary.mismatched as nat,
                    summary.missing as nat,
                    summary.malformed as nat,
                    summary.unsealed as nat,
                ),
            ),
            None,
            None,
            None,
        ),
{
    let all_valid = summary.mismatched == 0 && summary.missing == 0 && summary.malformed == 0
        && summary.unsealed == 0;
    let mut d = String::new();
    push_str(&mut d, "valid=");
    push_bool(&mut d, all_valid);
    push_str(&mut d, ", verified=");
    push_decimal(&mut d, summary.verified);
    push_str(&mut d, ", mismatched=");
    push_decimal(&mut d, summary.mismatched);
    push_str(&mut d, ", missing=");
    push_decimal(&mut d, summary.missing);
    push_str(&mut d, ", malformed=");
    push_decimal(&mut d, summary.malformed);
    push_str(&mut d, ", unsealed=");
    push_decimal(&mut d, summary.unsealed);
    assert(d@ =~= log_details_spec(
        all_valid,
        summary.verified as nat,
        summary.mismatched as nat,
        summary.missing as nat,
        summary.malformed as nat,
        summary.unsealed as nat,
    ));
    let log = ActionLog {
        action: owned("logs_verified"),
        details: Some(d),
        contract_name: None,
        contract_version: None,
        location: None,
    };
    (
        LogVerification {
            valid: all_valid,
            verified: summary.verified,
            mismatched: summary.mismatched,
            missing: summary.missing,
            malformed: summary.malformed,
            unsealed: summary.unsealed,
            files: summary.files,
        },
        log,
    )
}

/// Health of the project: healthy when the contracts and logs directories
/// exist and at least one profile loaded (`profile_count` is 0 when the
/// profiles could not be loaded).
pub fn check_system_health(contracts_dir_exists: bool, logs_dir_exists: bool, profile_count: usize) -> (h: HealthStatus)
    ensures
        h.healthy == (contracts_dir_exists && logs_dir_exists && profile_count > 0),
        h.contracts_dir_exists == contracts_dir_exists,
        h.logs_dir_exists == logs_dir_exists,
        h.profile_count == profile_count,
{
    HealthStatus {
        healthy: contracts_dir_exists && logs_dir_exists && profile_count > 0,
        contracts_dir_exists,
        logs_dir_exists,
        profile_count,
    }
}

impl HealthStatus {
    /// `system healthy` or `system unhealthy`.
    pub fn summary_message(&self) -> (s: String)
        ensures
            s@ == if self.healthy {
                "system healthy"@
            } else {
                "system unhealthy"@
            },
    {
        if self.healthy {
            owned("system healthy")
        } else {
            owned("system unhealthy")
        }
    }

    /// `<n> profiles loaded`.
    pub fn profiles_message(&self) -> (s: String)
        ensures
            s@ == decimal(self.profile_count as nat) + " profiles loaded"@,
    {
        let mut s = String::new();
        push_decimal(&mut s, self.profile_count);
        push_str(&mut s, " profiles loaded");
        s
    }
}

/// Number of results whose `result` is `label`.
pub open spec fn count_results(results: Seq<RuleResult>, label: Seq<char>) -> nat
    decreases results.len(),
{
    if results.len() == 0 {
        0
    } else {
        count_results(results.drop_last(), label) + if results.last().result@ == label {
            1nat
        } else {
            0nat
        }
    }
}

proof fn lemma_count_results_bound(results: Seq<RuleResult>, label: Seq<char>)
    ensures
        count_results(results, label) <= results.len(),
    decreases results.len(),
{
    if results.len() > 0 {
        lemma_count_results_bound(results.drop_last(), label);
    }
}

proof fn lemma_count_two_labels(results: Seq<RuleResult>, a: Seq<char>, b: Seq<char>)
    requires
        a != b,
    ensures
        count_results(results, a) + count_results(results, b) <= results.len(),
    decreases results.len(),
{
    if results.len() > 0 {
        lemma_count_two_labels(results.drop_last(), a, b);
    }
}

/// Counts passed and failed rules: the validation passed when no rule
/// failed (skipped rules count as neither, and no rule counts twice).
pub fn summarize_results(results: Vec<RuleResult>) -> (o: ValidationOutcome)
    ensures
        o.pass_count == count_results(results@, "pass"@),
        o.fail_count == count_results(results@, "fail"@),
        o.pass_count + o.fail_count <= results@.len(),
        o.passed == (o.fail_count == 0),
        o.results == results,
{
    proof {
        reveal_strlit("pass");
        reveal_strlit("fail");
        assert("pass"@[0] != "fail"@[0]);
        lemma_count_two_labels(results@, "pass"@, "fail"@);
    }
    let pass = chars_of("pass");
    let fail = chars_of("fail");
    let mut pass_count: usize = 0;
    let mut fail_count: usize = 0;
    let mut i: usize = 0;
    while i < results.len()
        invariant
            i <= results@.len(),
            pass@ == "pass"@,
            fail@ == "fail"@,
            pass_count == count_results(results@.take(i as int), "pass"@),
            fail_count == count_results(results@.take(i as int), "fail"@),
        decreases results@.len() - i,
    {
        proof {
            assert(results@.take(i + 1).drop_last() =~= results@.take(i as int));
            lemma_count_results_bound(results@.take(i as int), "pass"@);
            lemma_count_results_bound(results@.take(i as int), "fail"@);
        }
        let r = chars_of(results[i].result.as_str());
        if chars_eq(&r, &pass) {
            pass_count = pass_count + 1;
        }
        if chars_eq(&r, &fail) {
            fail_count = fail_count + 1;
        }
        i = i + 1;
    }
    assert(results@.take(results@.len() as int) =~= results@);
    ValidationOutcome { passed: fail_count == 0, pass_count, fail_count, results }
}

/// `pass=<n>, fail=<m>`, the details of a completed validation.
pub fn completion_details(pass_count: usize, fail_count: usize) -> (s: String)
    ensures
        s@ == "pass="@ + decimal(pass_count as nat) + ", fail="@ + decimal(fail_count as nat),
{
    let mut s = String::new();
    push_str(&mut s, "pass=");
    push_decimal(&mut s, pass_count);
    push_str(&mut s, ", fail=");
    push_decimal(&mut s, fail_count);
    s
}

/// Extension of the source's data file, `csv` when there is none.
pub fn source_extension(source: &Source) -> (e: String)
    ensures
        e@ == match source.location {
            Some(l) => match extension_spec(l@) {
                Some(x) => x,
                None => "csv"@,
            },
            None => "csv"@,
        },
{
    match &source.location {
        Some(l) => match extension(l.as_str()) {
            Some(x) => x,
            None => owned("csv"),
        },
        None => owned("csv"),
    }
}

/// Where validated data goes.
pub enum MovementTarget<'a> {
    /// To the destination, after passing.
    Destination(&'a Destination),
    /// To quarantine, after failing.
    Quarantine(&'a Quarantine),
    /// Nowhere.
    Stay,
}

/// After validation, data that passed goes to the destination and data that
/// failed to quarantine, unless that sink is absent or of type `not_moved`.
pub fn movement_target(contracts: &SchemaContracts, passed: bool) -> (t: MovementTarget)
    ensures
        passed ==> match contracts.destination {
            Some(d) => if d.kind@ != "not_moved"@ {
                t matches MovementTarget::Destination(x) && *x == d
            } else {
                t is Stay
            },
            None => t is Stay,
        },
        !passed ==> match contracts.quarantine {
            Some(q) => if q.kind@ != "not_moved"@ {
                t matches MovementTarget::Quarantine(x) && *x == q
            } else {
                t is Stay
            },
            None => t is Stay,
        },
{
    let not_moved = chars_of("not_moved");
    if passed {
        match &contracts.destination {
            Some(d) => {
                let k = chars_of(d.kind.as_str());
                if chars_eq(&k, &not_moved) {
                    MovementTarget::Stay
                } else {
                    MovementTarget::Destination(d)
                }
            },
            None => MovementTarget::Stay,
        }
    } else {
        match &contracts.quarantine {
            Some(q) => {
                let k = chars_of(q.kind.as_str());
                if chars_eq(&k, &not_moved) {
                    MovementTarget::Stay
                } else {
                    MovementTarget::Quarantine(q)
                }
            },
            None => MovementTarget::Stay,
        }
    }
}

/// The error for a contract that has no file under `contracts/`.
pub fn contract_not_found(contract_name: &str) -> (e: ValidationError)
    ensures
        is_other(e, "Contract '"@ + contract_name@ + "' not found"@),
{
    let mut m = String::new();
    push_str(&mut m, "Contract '");
    push_str(&mut m, contract_name);
    push_str(&mut m, "' not found");
    ValidationError::Other(m)
}

/// The source of a contract and its location, which validation needs.
pub fn contract_source(contracts: &SchemaContracts) -> (r: Result<(&Source, &String), ValidationError>)
    ensures
        match contracts.source {
            None => r matches Err(e) && is_other(e, "Contract missing source"@),
            Some(s) => match s.location {
                None => r matches Err(e) && is_other(e, "Source missing location"@),
                Some(l) => r matches Ok((x, y)) && *x == s && *y == l,
            },
        },
{
    match &contracts.source {
        None => Err(ValidationError::Other(owned("Contract missing source"))),
        Some(s) => match &s.location {
            None => Err(ValidationError::Other(owned("Source missing location"))),
            Some(l) => Ok((s, l)),
        },
    }
}

/// The example profile file that `pipa init` writes.
pub const PROFILE_TEMPLATE: &'static str = "# Pipe Audit profile.toml example
# provider can be: \"local\", \"s3\", \"azure\", \"gcs\"
name = \"example-profile\"
provider = \"local\"
# For s3/azure/gcs, add provider-specific fields (endpoint, region, connection_string, service_account_json, etc.)
";

/// The example contract that `pipa init` writes.
pub const CONTRACT_TEMPLATE: &'static str = "# contracts/example.toml
[contract]
name = \"example-contract\"
version = \"0.1.0\"

[source]
type = \"local\"
location = \"data/example.csv\"

[file.validation]
# row_count.min = 1
# completeness.min_ratio = 0.95

[[columns]]
name = \"id\"
[[columns.validation]]
type = { dtype = \"i64\" }
[[columns.validation]]
unique = true
";

/// What `pipa init` sets up: the directories to create, the files to write
/// where none exists yet (path and content), and the message to show.
pub struct InitPlan {
    pub directories: Vec<String>,
    pub files: Vec<(String, String)>,
    pub message: String,
}

/// The project scaffolding: `logs/` and `contracts/`, an example profile
/// file and an example contract.
pub fn init_project() -> (p: InitPlan)
    ensures
        p.directories@.len() == 2,
        p.directories@[0]@ == "logs"@,
        p.directories@[1]@ == "contracts"@,
        p.files@.len() == 2,
        p.files@[0].0@ == "profile.toml"@,
        p.files@[0].1@ == PROFILE_TEMPLATE@,
        p.files@[1].0@ == "contracts/example.toml"@,
        p.files@[1].1@ == CONTRACT_TEMPLATE@,
        p.message@ == "Initialized logs/, contracts/, profile.toml, and example contract"@,
{
    let mut directories: Vec<String> = Vec::new();
    directories.push(owned("logs"));
    directories.push(owned("contracts"));
    let mut files: Vec<(String, String)> = Vec::new();
    files.push((owned("profile.toml"), owned(PROFILE_TEMPLATE)));
    files.push((owned("contracts/example.toml"), owned(CONTRACT_TEMPLATE)));
    InitPlan {
        directories,
        files,
        message: owned("Initialized logs/, contracts/, profile.toml, and example contract"),
    }
}

/// What to record once data has been written, or failed to be written: the
/// audit event, its details, and the message to show.
pub struct MovementReport {
    pub event: &'static str,
    pub details: String,
    pub message: String,
}

/// The record of a write to the destination (`to_quarantine` false) or to
/// quarantine: success is recorded as written (or quarantined); a failure is
/// a `movement_error` with the writer's message, and validation goes on.
pub fn movement_report(to_quarantine: bool, written: &Result<(), String>) -> (r: MovementReport)
    ensures
        match written {
            Ok(()) => if to_quarantine {
                r.event@ == "movement_quarantine"@ && r.details@ == "Data written to quarantine"@
                    && r.message@ == "⚠️ Data quarantined"@
            } else {
                r.event@ == "movement_success"@ && r.details@ == "Data written to destination"@
                    && r.message@ == "✅ Data written to destination"@
            },
            Err(e) => {
                let d = if to_quarantine {
                    "Failed to write to quarantine: "@ + e@
                } else {
                    "Failed to write to destination: "@ + e@
                };
                r.event@ == "movement_error"@ && r.details@ == d && r.message@ == "❌ "@ + d
            },
        },
{
    match written {
        Ok(()) => if to_quarantine {
            MovementReport {
                event: "movement_quarantine",
                details: owned("Data written to quarantine"),
                message: owned("⚠️ Data quarantined"),
            }
        } else {
            MovementReport {
                event: "movement_success",
                details: owned("Data written to destination"),
                message: owned("✅ Data written to destination"),
            }
        },
        Err(e) => {
            let mut d = String::new();
            if to_quarantine {
                push_str(&mut d, "Failed to write to quarantine: ");
            } else {
                push_str(&mut d, "Failed to write to destination: ");
            }
            push_str(&mut d, e.as_str());
            let mut m = String::new();
            push_str(&mut m, "❌ ");
            push_str(&mut m, d.as_str());
            MovementReport { event: "movement_error", details: d, message: m }
        },
    }
}

} // verus!
