use pipa::connectors::{FetchPlan, GCSConnector, GcsError, LocalConnector, RemoteKind, TokenClaims};
use pipa::contracts::Source;
use pipa::error::ValidationError;
use pipa::profiles::{Profile, Profiles};

fn profile(provider: &str) -> Profile {
    Profile {
        provider: provider.to_string(),
        endpoint: None,
        region: None,
        access_key: None,
        secret_key: None,
        path_style: None,
        account_name: None,
        connection_string: None,
        service_account_json: None,
    }
}

fn profiles() -> Profiles {
    let mut gcs = profile("gcs");
    gcs.service_account_json = Some(r#"{"client_email":"svc@example.iam","private_key":"KEY"}"#.to_string());
    let mut ps = Profiles::new();
    ps.insert("s3p".to_string(), profile("s3"));
    ps.insert("gcsp".to_string(), gcs);
    ps
}

fn source(kind: &str, location: Option<&str>, profile: Option<&str>) -> Source {
    Source {
        kind: kind.to_string(),
        location: location.map(|s| s.to_string()),
        profile: profile.map(|s| s.to_string()),
    }
}

fn other_message(e: ValidationError) -> String {
    match e {
        ValidationError::Other(m) => m,
        _ => panic!("expected Other"),
    }
}

#[test]
fn local_connector_is_constructed() {
    let _c = LocalConnector::new();
}

#[test]
fn local_source_reads_its_location() {
    let ps = profiles();
    let s = source("local", Some("data/x.csv"), None);
    match pipa::connectors::plan_fetch(&s, &ps) {
        Ok(FetchPlan::Local(p)) => assert_eq!(p, "data/x.csv"),
        _ => panic!("expected a local plan"),
    }
}

#[test]
fn source_without_location_is_refused() {
    let ps = profiles();
    let s = source("local", None, None);
    let e = pipa::connectors::plan_fetch(&s, &ps).err().unwrap();
    assert_eq!(other_message(e), "Source missing location");
}

#[test]
fn unknown_source_type_is_refused() {
    let ps = profiles();
    let s = source("ftp", Some("ftp://x/y"), None);
    let e = pipa::connectors::plan_fetch(&s, &ps).err().unwrap();
    assert_eq!(other_message(e), "Unsupported source type: ftp");
}

#[test]
fn cloud_source_needs_a_profile() {
    let ps = profiles();
    for (kind, msg) in [
        ("s3", "S3 source requires profile"),
        ("azure", "Azure source requires profile"),
        ("gcs", "GCS source requires profile"),
    ] {
        let s = source(kind, Some("s3://b/k"), None);
        let e = pipa::connectors::plan_fetch(&s, &ps).err().unwrap();
        assert_eq!(other_message(e), msg);
    }
}

#[test]
fn cloud_source_profile_must_exist() {
    let ps = profiles();
    let s = source("s3", Some("s3://b/k"), Some("nope"));
    match pipa::connectors::plan_fetch(&s, &ps).err().unwrap() {
        ValidationError::ProfileNotFound(n) => assert_eq!(n, "nope"),
        _ => panic!("expected ProfileNotFound"),
    }
}

#[test]
fn cloud_source_location_must_be_a_url() {
    let ps = profiles();
    let s = source("s3", Some("not a url"), Some("s3p"));
    let e = pipa::connectors::plan_fetch(&s, &ps).err().unwrap();
    assert_eq!(other_message(e), "Invalid URL");
}

#[test]
fn cloud_source_plan() {
    let ps = profiles();
    let s = source("gcs", Some("gs://bucket/dir/file.csv"), Some("gcsp"));
    match pipa::connectors::plan_fetch(&s, &ps) {
        Ok(FetchPlan::Remote { kind, location, profile }) => {
            assert_eq!(kind, RemoteKind::Gcs);
            assert_eq!(location, "gs://bucket/dir/file.csv");
            assert_eq!(profile.provider, "gcs");
        }
        _ => panic!("expected a remote plan"),
    }
}

#[test]
fn service_account_fields_are_read() {
    let (email, key) =
        GCSConnector::parse_service_account(r#"{"client_email":"a@b","private_key":"-----K-----"}"#).ok().unwrap();
    assert_eq!(email, "a@b");
    assert_eq!(key, "-----K-----");
}

#[test]
fn service_account_errors() {
    let missing_email = GCSConnector::parse_service_account(r#"{"private_key":"k"}"#).err().unwrap();
    assert_eq!(missing_email.message(), "Missing client_email in service account JSON");
    let missing_key = GCSConnector::parse_service_account(r#"{"client_email":"a"}"#).err().unwrap();
    assert_eq!(missing_key.message(), "Missing private_key in service account JSON");
    let not_string = GCSConnector::parse_service_account(r#"{"client_email":1,"private_key":"k"}"#).err().unwrap();
    assert!(matches!(not_string, GcsError::MissingClientEmail));
    let not_json = GCSConnector::parse_service_account("{").err().unwrap();
    assert!(matches!(not_json, GcsError::Json(_)));
    assert_eq!(not_json.message(), "EOF while parsing an object at line 1 column 1");
}

#[test]
fn connector_from_profile() {
    let ps = profiles();
    let c = GCSConnector::from_profile_and_url(ps.get("gcsp").unwrap(), "gs://b/o").ok().unwrap();
    assert_eq!(c.client_email, "svc@example.iam");
    assert_eq!(c.private_key, "KEY");
    let e = GCSConnector::from_profile_and_url(ps.get("s3p").unwrap(), "gs://b/o").err().unwrap();
    assert_eq!(e.message(), "GCS profile missing service_account_json");
}

fn connector() -> GCSConnector {
    GCSConnector { client_email: "svc@example.iam".to_string(), private_key: "KEY".to_string() }
}

#[test]
fn rest_api_url_takes_the_bucket_from_the_host() {
    let c = connector();
    assert_eq!(
        c.convert_to_rest_api_url("gs://my-bucket/file.csv").ok().unwrap(),
        "https://storage.googleapis.com/storage/v1/b/my-bucket/o/file.csv?alt=media"
    );
    assert_eq!(
        c.convert_to_rest_api_url("gs://bucket/dir/file.csv").ok().unwrap(),
        "https://storage.googleapis.com/storage/v1/b/bucket/o/dir%2Ffile.csv?alt=media"
    );
    assert_eq!(
        c.convert_to_rest_api_url("gs://bkt/a/b c~.csv").ok().unwrap(),
        "https://storage.googleapis.com/storage/v1/b/bkt/o/a%2Fb%2520c~.csv?alt=media"
    );
}

#[test]
fn rest_api_url_errors() {
    let c = connector();
    assert_eq!(c.convert_to_rest_api_url("gs://bucket").err().unwrap().message(), "Invalid GCS URL format");
    assert_eq!(c.convert_to_rest_api_url("gs://bucket/").err().unwrap().message(), "Invalid GCS URL format");
    assert!(matches!(c.convert_to_rest_api_url("gs:/no-host/file.csv").err().unwrap(), GcsError::InvalidUrlFormat));
    let no_scheme = c.convert_to_rest_api_url("no scheme").err().unwrap();
    assert!(matches!(no_scheme, GcsError::Url(_)));
    assert_eq!(no_scheme.message(), "relative URL without a base");
}

#[test]
fn upload_url_drops_the_download_flag() {
    let c = connector();
    assert_eq!(
        c.upload_url("gs://bucket/dir/file.csv").ok().unwrap(),
        "https://storage.googleapis.com/storage/v1/b/bucket/o/dir%2Ffile.csv"
    );
}

#[test]
fn token_claims_last_an_hour() {
    let claims: TokenClaims = connector().token_claims(1_700_000_000);
    assert_eq!(claims.iss, "svc@example.iam");
    assert_eq!(claims.scope, "https://www.googleapis.com/auth/cloud-platform");
    assert_eq!(claims.aud, "https://oauth2.googleapis.com/token");
    assert_eq!(claims.iat, 1_700_000_000);
    assert_eq!(claims.exp, 1_700_003_600);
}

#[test]
fn signing_with_a_bad_key_fails() {
    assert!(matches!(connector().signed_assertion(1_700_000_000), Err(GcsError::Jwt(_))));
}

#[test]
fn access_token_is_read_from_the_answer() {
    assert_eq!(
        GCSConnector::access_token_from_response(r#"{"access_token":"ya29.x","expires_in":3599}"#).ok().unwrap(),
        "ya29.x"
    );
    let e = GCSConnector::access_token_from_response(r#"{"error":"invalid_grant"}"#).err().unwrap();
    assert_eq!(e.message(), "access_token not found in response");
    assert!(matches!(GCSConnector::access_token_from_response("<html>").err().unwrap(), GcsError::Json(_)));
}
