use pipa::connectors::RemoteKind;
use pipa::contracts::{Destination, Quarantine, Source};
use pipa::movement::{ConnectivityCheck, FileMovement, OutputFormat, WriteTarget};
use pipa::profiles::{Profile, Profiles};

fn destination(kind: &str, location: Option<&str>, profile: Option<&str>, format: Option<&str>) -> Destination {
    Destination {
        kind: kind.to_string(),
        location: location.map(|s| s.to_string()),
        profile: profile.map(|s| s.to_string()),
        format: format.map(|s| s.to_string()),
    }
}

fn profiles() -> Profiles {
    let mut ps = Profiles::new();
    ps.insert(
        "s3p".to_string(),
        Profile {
            provider: "s3".to_string(),
            endpoint: None,
            region: Some("us-east-1".to_string()),
            access_key: None,
            secret_key: None,
            path_style: None,
            account_name: None,
            connection_string: None,
            service_account_json: None,
        },
    );
    ps
}

#[test]
fn filename_keeps_stem_and_extension() {
    assert_eq!(
        FileMovement::generate_filename_at("data/orders.csv", false, None, "20250101_120000"),
        "orders_20250101_120000.csv"
    );
    assert_eq!(
        FileMovement::generate_filename_at("s3://b/in/orders.parquet", true, None, "20250101_120000"),
        "orders_20250101_120000_quarantine.parquet"
    );
}

#[test]
fn filename_format_override_and_default_extension() {
    assert_eq!(
        FileMovement::generate_filename_at("data/orders.csv", false, Some("parquet"), "T"),
        "orders_T.parquet"
    );
    assert_eq!(FileMovement::generate_filename_at("data/orders", false, None, "T"), "orders_T.csv");
    assert_eq!(FileMovement::generate_filename_at("", true, None, "T"), "_T_quarantine.csv");
}

#[test]
fn filename_with_current_time() {
    let f = FileMovement::generate_filename("data/orders.csv", false, None);
    assert!(f.starts_with("orders_") && f.ends_with(".csv"));
    assert_eq!(f.len(), "orders_".len() + 15 + ".csv".len());
    let stamp = &f["orders_".len().."orders_".len() + 15];
    assert_eq!(&stamp[8..9], "_");
    assert!(stamp[..8].chars().chain(stamp[9..].chars()).all(|c| c.is_ascii_digit()));
}

#[test]
fn destination_path_joins_with_one_slash() {
    assert_eq!(FileMovement::build_destination_path("out", "f.csv"), "out/f.csv");
    assert_eq!(FileMovement::build_destination_path("out/", "f.csv"), "out/f.csv");
    assert_eq!(FileMovement::build_destination_path("", "f.csv"), "/f.csv");
}

#[test]
fn output_format_is_case_insensitive() {
    assert_eq!(FileMovement::output_format("CSV").ok(), Some(OutputFormat::Csv));
    assert_eq!(FileMovement::output_format("Parquet").ok(), Some(OutputFormat::Parquet));
    assert_eq!(FileMovement::output_format("json").err().unwrap(), "Unsupported output format: json");
}

#[test]
fn success_plan() {
    let d = destination("s3", Some("s3://bucket/out"), Some("s3p"), None);
    let plan = FileMovement::write_success_plan_at("data/orders.csv", &d, "T").ok().unwrap();
    assert_eq!(plan.format, OutputFormat::Csv);
    assert_eq!(plan.config.kind, "s3");
    assert_eq!(plan.config.location.as_deref(), Some("s3://bucket/out/orders_T.csv"));
    assert_eq!(plan.config.profile.as_deref(), Some("s3p"));
}

#[test]
fn quarantine_plan_with_format() {
    let q = Quarantine {
        kind: "local".to_string(),
        location: Some("quarantine/".to_string()),
        profile: None,
        format: Some("parquet".to_string()),
    };
    let plan = FileMovement::write_quarantine_plan_at("data/orders.csv", &q, "T").ok().unwrap();
    assert_eq!(plan.format, OutputFormat::Parquet);
    assert_eq!(plan.config.location.as_deref(), Some("quarantine/orders_T_quarantine.parquet"));
    let p = FileMovement::write_quarantine_plan("data/orders.csv", &q).ok().unwrap();
    assert!(p.config.location.unwrap().ends_with("_quarantine.parquet"));
}

#[test]
fn plan_with_unsupported_format_fails() {
    let d = destination("local", None, None, Some("xml"));
    assert_eq!(
        FileMovement::write_success_plan("data/orders.csv", &d).err().unwrap(),
        "Unsupported output format: xml"
    );
}

fn config(kind: &str, location: Option<&str>, profile: Option<&str>) -> Source {
    Source { kind: kind.to_string(), location: location.map(|s| s.to_string()), profile: profile.map(|s| s.to_string()) }
}

#[test]
fn write_targets() {
    let ps = profiles();
    let local = config("local", Some("out/f.csv"), None);
    assert!(matches!(FileMovement::write_target(&local, &ps), Ok(WriteTarget::Local(l)) if l == "out/f.csv"));
    let skip = config("not_moved", None, None);
    assert!(matches!(FileMovement::write_target(&skip, &ps), Ok(WriteTarget::Skip)));
    let s3 = config("s3", Some("s3://bucket/out/f.csv"), Some("s3p"));
    match FileMovement::write_target(&s3, &ps) {
        Ok(WriteTarget::Remote { kind, location, profile }) => {
            assert_eq!(kind, RemoteKind::S3);
            assert_eq!(location, "s3://bucket/out/f.csv");
            assert_eq!(profile.region.as_deref(), Some("us-east-1"));
        }
        _ => panic!("expected a remote target"),
    }
}

#[test]
fn write_target_errors() {
    let ps = profiles();
    let unknown = config("ftp", Some("x"), None);
    assert_eq!(FileMovement::write_target(&unknown, &ps).err().unwrap(), "Unsupported type: ftp");
    let no_profile = config("gcs", Some("gs://b/o"), Some("other"));
    assert_eq!(FileMovement::write_target(&no_profile, &ps).err().unwrap(), "Profile 'other' not found");
    let bad_url = config("s3", Some("no url"), Some("s3p"));
    assert_eq!(FileMovement::write_target(&bad_url, &ps).err().unwrap(), "relative URL without a base");
}

#[test]
fn connectivity_checks() {
    let name = "p".to_string();
    assert!(matches!(FileMovement::test_profile_connectivity(None, Some("local")), ConnectivityCheck::Ready));
    assert!(matches!(
        FileMovement::test_profile_connectivity(Some(&name), Some("not_moved")),
        ConnectivityCheck::Ready
    ));
    assert!(matches!(
        FileMovement::test_profile_connectivity(Some(&name), Some("s3")),
        ConnectivityCheck::TestProfile(n) if n == "p"
    ));
    assert!(matches!(FileMovement::test_profile_connectivity(None, Some("s3")), ConnectivityCheck::NoProfile));
    assert!(matches!(FileMovement::test_profile_connectivity(None, None), ConnectivityCheck::NoProfile));
}

#[test]
fn validate_profiles_checks_each_sink() {
    let s = config("local", Some("x"), None);
    let d = destination("azure", Some("az://c/p"), Some("azp"), None);
    let (a, b, c) = FileMovement::validate_profiles(Some(&s), Some(&d), None);
    assert!(matches!(a, ConnectivityCheck::Ready));
    assert!(matches!(b, ConnectivityCheck::TestProfile(n) if n == "azp"));
    assert!(matches!(c, ConnectivityCheck::NoProfile));
}
