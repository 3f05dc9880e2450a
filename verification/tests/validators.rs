use pipa::validators::{
    count_distinct_rows, is_boolean_literal, null_count, BooleanValidator, ColumnView, CompoundUniqueValidator,
    CompoundValidator, DateFormatValidator, InSetValidator, NotNullValidator, PatternValidator, Validator,
};

fn str_column(values: &[Option<&str>]) -> ColumnView {
    ColumnView {
        name: "col".to_string(),
        is_string: true,
        values: values.iter().map(|v| v.map(|s| s.to_string())).collect(),
    }
}

fn int_column(values: &[i32]) -> ColumnView {
    ColumnView {
        name: "col".to_string(),
        is_string: false,
        values: values.iter().map(|v| Some(v.to_string())).collect(),
    }
}

fn make_validator(allowed: &[&str]) -> InSetValidator {
    InSetValidator {
        values: allowed.iter().map(|s| s.to_string()).collect(),
    }
}

fn date_validator() -> DateFormatValidator {
    DateFormatValidator {
        format: "%Y-%m-%d %H:%M:%S".to_string(),
    }
}

#[test]
fn passes_when_all_values_in_set() {
    let df = str_column(&[Some("a"), Some("b"), Some("c")]);
    let validator = make_validator(&["a", "b", "c"]);
    let report = validator.validate(&df).unwrap();
    assert_eq!(report.status, "pass");
    assert!(report.details.is_none());
}

#[test]
fn fails_when_some_values_not_in_set() {
    let df = str_column(&[Some("a"), Some("x"), Some("b"), Some("y")]);
    let validator = make_validator(&["a", "b"]);
    let report = validator.validate(&df).unwrap();
    assert_eq!(report.status, "fail");
    assert!(report.details.unwrap().contains("bad_count=2"));
}

#[test]
fn in_set_ignores_null_values() {
    let df = str_column(&[Some("a"), None, Some("b")]);
    let validator = make_validator(&["a", "b"]);
    let report = validator.validate(&df).unwrap();
    assert_eq!(report.status, "pass");
}

#[test]
fn in_set_passes_on_empty_column() {
    let df = str_column(&[]);
    let validator = make_validator(&["a", "b"]);
    let report = validator.validate(&df).unwrap();
    assert_eq!(report.status, "pass");
}

#[test]
fn in_set_skips_on_non_string_column() {
    let df = int_column(&[1, 2, 3]);
    let validator = make_validator(&["1", "2"]);
    let report = validator.validate(&df).unwrap();
    assert_eq!(report.status, "skipped");
    assert!(report.details.unwrap().contains("not a string"));
}

#[test]
fn passes_when_all_values_match_format() {
    let df = str_column(&[Some("2024-01-01 12:00:00"), Some("1999-12-31 23:59:59")]);
    let report = date_validator().validate(&df).unwrap();
    assert_eq!(report.status, "pass");
    assert!(report.details.is_none());
}

#[test]
fn fails_when_some_values_do_not_match_format() {
    let df = str_column(&[Some("2024-01-01 12:00:00"), Some("not-a-date"), Some("2024/01/01 12:00:00")]);
    let report = date_validator().validate(&df).unwrap();
    assert_eq!(report.status, "fail");
    assert!(report.details.unwrap().contains("bad_count=2"));
}

#[test]
fn date_format_ignores_null_values() {
    let df = str_column(&[Some("2024-01-01 12:00:00"), None]);
    let report = date_validator().validate(&df).unwrap();
    assert_eq!(report.status, "pass");
}

#[test]
fn date_format_passes_on_empty_column() {
    let df = str_column(&[]);
    let report = date_validator().validate(&df).unwrap();
    assert_eq!(report.status, "pass");
}

#[test]
fn date_format_skips_on_non_string_column() {
    let df = int_column(&[1, 2, 3]);
    let report = date_validator().validate(&df).unwrap();
    assert_eq!(report.status, "skipped");
    assert!(report.details.unwrap().contains("not a string"));
}

#[test]
fn date_format_failure_details_name_the_format() {
    let df = str_column(&[Some("x")]);
    let report = date_validator().validate(&df).unwrap();
    assert_eq!(report.details.as_deref(), Some("bad_count=1, format=%Y-%m-%d %H:%M:%S"));
}

#[test]
fn in_set_failure_details_give_the_count() {
    let df = str_column(&[Some("x")]);
    let report = make_validator(&["a", "b"]).validate(&df).unwrap();
    assert_eq!(report.details.as_deref(), Some("bad_count=1"));
}

#[test]
fn not_null_counts_nulls() {
    let v = NotNullValidator;
    assert_eq!(v.name(), "NotNull");
    let report = v.validate(&str_column(&[Some("a"), None, None])).unwrap();
    assert_eq!(report.status, "fail");
    assert_eq!(report.details.as_deref(), Some("null_count=2"));
    assert_eq!(v.validate(&int_column(&[1])).unwrap().status, "pass");
    assert_eq!(null_count(&vec![None, Some("x".to_string()), None]), 2);
}

#[test]
fn boolean_accepts_words_in_any_case() {
    for w in ["true", "FALSE", "Yes", "no", "1", "0", "t", "F", "y", "N"] {
        assert!(is_boolean_literal(w), "{}", w);
    }
    for w in ["", "truth", "2", "ja", "on"] {
        assert!(!is_boolean_literal(w), "{}", w);
    }
    let report = BooleanValidator.validate(&str_column(&[Some("true"), Some("maybe"), None])).unwrap();
    assert_eq!(report.status, "fail");
    assert_eq!(report.details.as_deref(), Some("bad_count=1"));
    assert_eq!(BooleanValidator.validate(&int_column(&[1])).unwrap().status, "skipped");
}

#[test]
fn pattern_searches_each_value() {
    let v = PatternValidator { pattern: "^[a-z]+$".to_string() };
    let report = v.validate(&str_column(&[Some("abc"), Some("ABC"), Some("a1"), None])).unwrap();
    assert_eq!(report.status, "fail");
    assert_eq!(report.details.as_deref(), Some("bad_count=2, pattern=^[a-z]+$"));
    let contains = PatternValidator { pattern: "b".to_string() };
    assert_eq!(contains.validate(&str_column(&[Some("abc")])).unwrap().status, "pass");
}

#[test]
fn pattern_that_does_not_compile_is_an_error() {
    let v = PatternValidator { pattern: "(".to_string() };
    assert!(v.validate(&str_column(&[Some("abc")])).is_err());
}

fn row(values: &[Option<&str>]) -> Vec<Option<String>> {
    values.iter().map(|v| v.map(|s| s.to_string())).collect()
}

#[test]
fn compound_unique_counts_duplicate_rows() {
    let rows = vec![
        row(&[Some("1"), Some("a")]),
        row(&[Some("1"), Some("b")]),
        row(&[Some("1"), Some("a")]),
        row(&[None, Some("a")]),
        row(&[None, Some("a")]),
    ];
    assert_eq!(count_distinct_rows(&rows), 3);
    let v = CompoundUniqueValidator { columns: vec!["id".to_string(), "name".to_string()] };
    let report = v.validate(&rows).unwrap();
    assert_eq!(report.status, "fail");
    assert_eq!(report.details.as_deref(), Some("columns=[\"id\", \"name\"], rows=5, distinct=3"));
    assert_eq!(v.validate(&rows[..2].to_vec()).unwrap().status, "pass");
}
