use pipa::audit::RuleResult;
use pipa::contracts::{Contract, Destination, Quarantine, SchemaContracts, Source};
use pipa::drivers::{get_driver, DriverKind};
use pipa::engine::{
    check_system_health, completion_details, contract_not_found, contract_source, get_contract, init_project,
    list_contracts, movement_report, movement_target, source_extension, summarize_results, validate_contract, verify_logs,
    ContractFile, MovementTarget, CONTRACT_TEMPLATE, PROFILE_TEMPLATE,
};
use pipa::error::ValidationError;
use pipa::verify::{FileStatus, FileVerification, VerificationSummary};

fn contract() -> Contract {
    Contract { name: "orders".to_string(), version: "1.2".to_string(), tags: vec![] }
}

fn schema(destination: Option<Destination>, quarantine: Option<Quarantine>) -> SchemaContracts {
    SchemaContracts {
        contract: contract(),
        columns: vec![],
        compound_unique: None,
        source: Some(Source { kind: "local".to_string(), location: Some("data/orders.csv".to_string()), profile: None }),
        destination,
        quarantine,
    }
}

fn result(r: &str) -> RuleResult {
    RuleResult { column: "c".to_string(), rule: "NotNull".to_string(), result: r.to_string(), details: None }
}

#[test]
fn list_contracts_gives_stems() {
    let paths = vec!["contracts/a.toml".to_string(), "contracts/b.toml".to_string()];
    let (list, log) = list_contracts(Some(&paths)).ok().unwrap();
    assert_eq!(list.contracts, vec!["a".to_string(), "b".to_string()]);
    assert_eq!(log.action, "contracts_listed");
    assert_eq!(list_contracts(None).err().unwrap(), "Failed to read contracts directory");
}

#[test]
fn get_contract_reports_existence() {
    let c = contract();
    let (info, log) = get_contract("orders", Some(&c));
    assert!(info.exists);
    assert_eq!(info.version, "1.2");
    assert_eq!(log.details.as_deref(), Some("exists=true"));
    let (missing, log2) = get_contract("nope", None);
    assert!(!missing.exists);
    assert_eq!(missing.name, "nope");
    assert_eq!(missing.version, "");
    assert_eq!(log2.details.as_deref(), Some("exists=false"));
}

#[test]
fn validate_contract_outcomes() {
    let c = contract();
    let (ok, log) = validate_contract("orders", ContractFile::Parsed(&c));
    assert!(ok.valid && ok.error.is_none());
    assert_eq!(log.details.as_deref(), Some("valid=true"));
    let (missing, _) = validate_contract("x", ContractFile::Missing);
    assert_eq!(missing.error.as_deref(), Some("Contract not found"));
    let (bad, log3) = validate_contract("x", ContractFile::Invalid);
    assert!(!bad.valid);
    assert_eq!(log3.details.as_deref(), Some("error=Contract failed to parse"));
}

#[test]
fn verify_logs_is_valid_only_without_problems() {
    let summary = VerificationSummary {
        verified: 2,
        mismatched: 0,
        missing: 1,
        malformed: 0,
        unsealed: 0,
        files: vec![FileVerification {
            filename: "audit-2024-01-01.jsonl".to_string(),
            status: FileStatus::Missing,
            stored_hash: Some("h".to_string()),
            computed_hash: None,
        }],
    };
    let (v, log) = verify_logs(summary);
    assert!(!v.valid);
    assert_eq!(
        log.details.as_deref(),
        Some("valid=false, verified=2, mismatched=0, missing=1, malformed=0, unsealed=0")
    );
    let empty = VerificationSummary { verified: 0, mismatched: 0, missing: 0, malformed: 0, unsealed: 0, files: vec![] };
    assert!(verify_logs(empty).0.valid);
}

#[test]
fn health_needs_both_directories_and_a_profile() {
    let h = check_system_health(true, true, 2);
    assert!(h.healthy);
    assert_eq!(h.summary_message(), "system healthy");
    assert_eq!(h.profiles_message(), "2 profiles loaded");
    assert!(!check_system_health(true, false, 2).healthy);
    assert!(!check_system_health(false, true, 2).healthy);
    let none = check_system_health(true, true, 0);
    assert!(!none.healthy);
    assert_eq!(none.summary_message(), "system unhealthy");
}

#[test]
fn results_are_counted() {
    let o = summarize_results(vec![result("pass"), result("fail"), result("skipped"), result("pass")]);
    assert_eq!(o.pass_count, 2);
    assert_eq!(o.fail_count, 1);
    assert!(!o.passed);
    assert_eq!(o.results.len(), 4);
    assert!(summarize_results(vec![result("pass"), result("skipped")]).passed);
    assert_eq!(completion_details(2, 1), "pass=2, fail=1");
}

#[test]
fn source_extension_defaults_to_csv() {
    let s = Source { kind: "local".to_string(), location: Some("d/x.parquet".to_string()), profile: None };
    assert_eq!(source_extension(&s), "parquet");
    let t = Source { kind: "local".to_string(), location: Some("d/x".to_string()), profile: None };
    assert_eq!(source_extension(&t), "csv");
    let u = Source { kind: "local".to_string(), location: None, profile: None };
    assert_eq!(source_extension(&u), "csv");
}

fn dest(kind: &str) -> Destination {
    Destination { kind: kind.to_string(), location: Some("out".to_string()), profile: None, format: None }
}

fn quar(kind: &str) -> Quarantine {
    Quarantine { kind: kind.to_string(), location: Some("q".to_string()), profile: None, format: None }
}

#[test]
fn passed_data_goes_to_destination_failed_to_quarantine() {
    let s = schema(Some(dest("local")), Some(quar("local")));
    assert!(matches!(movement_target(&s, true), MovementTarget::Destination(d) if d.location.as_deref() == Some("out")));
    assert!(matches!(movement_target(&s, false), MovementTarget::Quarantine(q) if q.location.as_deref() == Some("q")));
    let n = schema(Some(dest("not_moved")), None);
    assert!(matches!(movement_target(&n, true), MovementTarget::Stay));
    assert!(matches!(movement_target(&n, false), MovementTarget::Stay));
}

#[test]
fn contract_source_errors() {
    let s = schema(None, None);
    let (src, loc) = contract_source(&s).ok().unwrap();
    assert_eq!(src.kind, "local");
    assert_eq!(loc, "data/orders.csv");
    let mut no_source = schema(None, None);
    no_source.source = None;
    assert!(matches!(contract_source(&no_source), Err(ValidationError::Other(m)) if m == "Contract missing source"));
    let mut no_loc = schema(None, None);
    no_loc.source = Some(Source { kind: "local".to_string(), location: None, profile: None });
    assert!(matches!(contract_source(&no_loc), Err(ValidationError::Other(m)) if m == "Source missing location"));
    assert!(matches!(contract_not_found("x"), ValidationError::Other(m) if m == "Contract 'x' not found"));
}

#[test]
fn drivers_by_extension() {
    assert!(matches!(get_driver("csv"), Ok(DriverKind::Csv(_))));
    assert!(matches!(get_driver("parquet"), Ok(DriverKind::Parquet(_))));
    assert_eq!(get_driver("CSV").err().unwrap(), "Unsupported file extension: CSV");
}

#[test]
fn init_project_scaffolding() {
    let plan = init_project();
    assert_eq!(plan.directories, vec!["logs".to_string(), "contracts".to_string()]);
    assert_eq!(plan.files[0].0, "profile.toml");
    assert_eq!(plan.files[0].1, PROFILE_TEMPLATE);
    assert_eq!(plan.files[1].0, "contracts/example.toml");
    assert!(plan.files[1].1.starts_with("# contracts/example.toml\n[contract]\n"));
    assert_eq!(plan.files[1].1, CONTRACT_TEMPLATE);
    assert_eq!(plan.message, "Initialized logs/, contracts/, profile.toml, and example contract");
}

#[test]
fn movement_reports() {
    let ok = movement_report(false, &Ok(()));
    assert_eq!((ok.event, ok.details.as_str(), ok.message.as_str()), ("movement_success", "Data written to destination", "✅ Data written to destination"));
    let q = movement_report(true, &Ok(()));
    assert_eq!((q.event, q.message.as_str()), ("movement_quarantine", "⚠️ Data quarantined"));
    let e = movement_report(true, &Err("disk full".to_string()));
    assert_eq!(e.event, "movement_error");
    assert_eq!(e.details, "Failed to write to quarantine: disk full");
    assert_eq!(e.message, "❌ Failed to write to quarantine: disk full");
}
