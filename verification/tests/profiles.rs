use pipa::profiles::{env_reference, expand_env_vars, Profile, Profiles};

fn env() -> Vec<(String, String)> {
    vec![
        ("AWS_KEY".to_string(), "AKIA123".to_string()),
        ("EMPTY".to_string(), "".to_string()),
        ("AWS_KEY".to_string(), "shadowed".to_string()),
    ]
}

fn profile() -> Profile {
    Profile {
        provider: "s3".to_string(),
        endpoint: Some("${AWS_KEY}".to_string()),
        region: Some("us-east-1".to_string()),
        access_key: Some("${AWS_KEY}".to_string()),
        secret_key: Some("${UNSET}".to_string()),
        path_style: Some(true),
        account_name: None,
        connection_string: Some("plain".to_string()),
        service_account_json: Some("${EMPTY}".to_string()),
    }
}

#[test]
fn env_reference_names_the_variable() {
    assert_eq!(env_reference("${HOME}").as_deref(), Some("HOME"));
    assert_eq!(env_reference("${}").as_deref(), Some(""));
    assert_eq!(env_reference("${"), None);
    assert_eq!(env_reference("$HOME"), None);
    assert_eq!(env_reference("x${HOME}"), None);
}

#[test]
fn expand_env_vars_replaces_set_variables_only() {
    assert_eq!(expand_env_vars("${AWS_KEY}", &env()), "AKIA123");
    assert_eq!(expand_env_vars("${EMPTY}", &env()), "");
    assert_eq!(expand_env_vars("${UNSET}", &env()), "${UNSET}");
    assert_eq!(expand_env_vars("literal", &env()), "literal");
    assert_eq!(expand_env_vars("${AWS_KEY}x", &env()), "${AWS_KEY}x");
}

#[test]
fn expand_env_touches_only_sensitive_fields() {
    let mut p = profile();
    p.expand_env(&env());
    assert_eq!(p.access_key.as_deref(), Some("AKIA123"));
    assert_eq!(p.secret_key.as_deref(), Some("${UNSET}"));
    assert_eq!(p.connection_string.as_deref(), Some("plain"));
    assert_eq!(p.service_account_json.as_deref(), Some(""));
    assert_eq!(p.account_name, None);
    assert_eq!(p.endpoint.as_deref(), Some("${AWS_KEY}"));
    assert_eq!(p.path_style, Some(true));
}

#[test]
fn expand_optional_field_applies_the_updater() {
    let mut some = Some("a".to_string());
    pipa::profiles::expand_optional_field(&mut some, |s: &str| format!("{}!", s));
    assert_eq!(some.as_deref(), Some("a!"));
    let mut none: Option<String> = None;
    pipa::profiles::expand_optional_field(&mut none, |s: &str| format!("{}!", s));
    assert_eq!(none, None);
}

#[test]
fn profiles_are_found_by_name() {
    let mut ps = Profiles::new();
    ps.insert("a".to_string(), profile());
    ps.insert("b".to_string(), profile());
    assert_eq!(ps.len(), 2);
    assert!(ps.get("b").is_some());
    assert!(ps.get("c").is_none());
    assert_eq!(ps.get("a").unwrap().provider, "s3");
}

#[test]
fn inserting_a_name_again_replaces_its_profile() {
    let mut ps = Profiles::new();
    ps.insert("a".to_string(), profile());
    let mut other = profile();
    other.provider = "gcs".to_string();
    ps.insert("b".to_string(), profile());
    ps.insert("a".to_string(), other);
    assert_eq!(ps.len(), 2);
    assert_eq!(ps.get("a").unwrap().provider, "gcs");
    assert_eq!(ps.entries()[0].0, "a");
    assert_eq!(ps.entries()[1].0, "b");
}
