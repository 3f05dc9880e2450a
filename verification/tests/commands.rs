use pipa::audit::Executor;
use pipa::paths::{contract_path, contract_path_for_name, file_stem};
use pipa::verify::FileStatus;

fn symbol_and_label(status: FileStatus) -> (&'static str, &'static str) {
    (status.symbol(), status.label())
}

#[test]
fn test_contract_path_construction() {
    let name = "my_contract";
    let path = contract_path(name);
    assert_eq!(path, "contracts/my_contract.toml");
}

#[test]
fn test_file_status_verified_symbol() {
    let (symbol, status_str) = symbol_and_label(FileStatus::Verified);
    assert_eq!(symbol, "✅");
    assert_eq!(status_str, "verified");
}

#[test]
fn test_file_status_mismatched_symbol() {
    let (symbol, status_str) = symbol_and_label(FileStatus::Mismatched);
    assert_eq!(symbol, "❌");
    assert_eq!(status_str, "mismatched");
}

#[test]
fn test_file_status_missing_symbol() {
    let (symbol, status_str) = symbol_and_label(FileStatus::Missing);
    assert_eq!(symbol, "❓");
    assert_eq!(status_str, "missing");
}

#[test]
fn test_file_status_malformed_symbol() {
    let (symbol, status_str) = symbol_and_label(FileStatus::Malformed);
    assert_eq!(symbol, "⚠️");
    assert_eq!(status_str, "malformed");
}

#[test]
fn test_file_status_unsealed_symbol() {
    let (symbol, status_str) = symbol_and_label(FileStatus::Unsealed);
    assert_eq!(symbol, "🕒");
    assert_eq!(status_str, "unsealed");
}

#[test]
fn test_profile_name_handling() {
    let profile_name = "test_profile";
    assert!(!profile_name.is_empty());
    assert_eq!(profile_name.len(), 12);
}

#[test]
fn test_empty_profile_list() {
    let profiles: Vec<String> = vec![];
    assert!(profiles.is_empty());
}

#[test]
fn test_non_empty_profile_list() {
    let profiles = vec!["profile1".to_string(), "profile2".to_string()];
    assert!(!profiles.is_empty());
    assert_eq!(profiles.len(), 2);

    for name in profiles.iter() {
        assert!(!name.is_empty());
    }
}

#[test]
fn test_contract_file_path_construction() {
    let contract_name = "test_contract";
    let expected_path = "contracts/test_contract.toml";
    let actual_path = contract_path(contract_name);
    assert_eq!(actual_path, expected_path);
}

#[test]
fn test_contract_name_extraction_from_path() {
    let contract_name = file_stem("contracts/my_contract.toml").unwrap_or("unknown".to_string());
    assert_eq!(contract_name, "my_contract");
}

#[test]
fn test_contract_name_extraction_fallback() {
    let contract_name = file_stem("invalid").unwrap_or("unknown".to_string());
    assert_eq!(contract_name, "invalid");
}

#[test]
fn test_executor_fields() {
    let executor = Executor {
        user: "testuser".to_string(),
        host: "testhost".to_string(),
    };

    assert_eq!(executor.user, "testuser");
    assert_eq!(executor.host, "testhost");
}

#[test]
fn test_path_file_stem_edge_cases() {
    assert_eq!(file_stem("contracts/test.toml").as_deref(), Some("test"));
    assert_eq!(file_stem("test.toml").as_deref(), Some("test"));
    assert_eq!(file_stem("test").as_deref(), Some("test"));
}

#[test]
fn test_contract_path_format_variations() {
    let names = vec!["simple", "with-dash", "with_underscore", "with123numbers"];

    for name in names {
        let path = contract_path(name);
        assert!(path.starts_with("contracts/"));
        assert!(path.ends_with(".toml"));
        assert!(path.contains(name));
    }
}

#[test]
fn test_init_project_calls_lib_function() {
    let _ = pipa::engine::init_project;
}

#[test]
fn contract_path_takes_a_toml_path_as_it_is() {
    assert_eq!(contract_path("contracts/example.toml"), "contracts/example.toml");
    assert_eq!(contract_path("example.toml"), "example.toml");
    assert_eq!(contract_path("example"), "contracts/example.toml");
    assert_eq!(contract_path("toml"), "contracts/toml.toml");
}

#[test]
fn contract_path_for_name_always_adds_the_directory_and_extension() {
    assert_eq!(contract_path_for_name("x.toml"), "contracts/x.toml.toml");
    assert_eq!(contract_path_for_name("orders"), "contracts/orders.toml");
}
