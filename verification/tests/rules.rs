use pipa::contracts::{ColumnContracts, ColumnRule, CompoundUnique, Contract, SchemaContracts};
use pipa::drivers::{get_driver, CsvDriver};
use pipa::error::ValidationError;
use pipa::rules::{apply_compound_rules, apply_string_rules};

fn schema(columns: Vec<ColumnContracts>) -> SchemaContracts {
    SchemaContracts {
        contract: Contract { name: "c".to_string(), version: "1".to_string(), tags: vec![] },
        columns,
        compound_unique: None,
        source: None,
        destination: None,
        quarantine: None,
    }
}

const CSV: &str = "id,name,flag,when\n1,alice,true,2024-01-01 00:00:00\n2,,maybe,bad\n3,bob,no,2024-02-03 04:05:06\n";

#[test]
fn it_loads_csv_data_from_memory() {
    let csv_data = "col_a,col_b\n1,one\n2,two\n3,three";
    let columns = CsvDriver.load(csv_data.as_bytes()).unwrap();
    assert_eq!(columns.len(), 2);
    assert_eq!(columns[0].name, "col_a");
    assert!(!columns[0].is_string);
    assert_eq!(columns[0].values, vec![Some("1".to_string()), Some("2".to_string()), Some("3".to_string())]);
    assert_eq!(columns[1].name, "col_b");
    assert!(columns[1].is_string);
    assert_eq!(columns[1].values.len(), 3);
}

#[test]
fn csv_nulls_and_driver_dispatch() {
    let columns = get_driver("csv").ok().unwrap().load(CSV.as_bytes()).unwrap();
    assert_eq!(columns.len(), 4);
    assert_eq!(columns[1].values[1], None);
}

#[test]
fn parquet_driver_refuses_csv_bytes() {
    assert!(get_driver("parquet").ok().unwrap().load(CSV.as_bytes()).is_none());
}

#[test]
fn rules_are_applied_in_order() {
    let columns = CsvDriver.load(CSV.as_bytes()).unwrap();
    let contract = schema(vec![
        ColumnContracts { name: "name".to_string(), validation: vec![ColumnRule::NotNull, ColumnRule::Pattern { pattern: "^[a-z]+$".to_string() }] },
        ColumnContracts {
            name: "flag".to_string(),
            validation: vec![ColumnRule::Boolean, ColumnRule::InSet { values: vec!["true".to_string(), "no".to_string()] }],
        },
        ColumnContracts { name: "when".to_string(), validation: vec![ColumnRule::DateFormat { format: "%Y-%m-%d %H:%M:%S".to_string() }] },
        ColumnContracts { name: "id".to_string(), validation: vec![ColumnRule::InSet { values: vec![] }] },
    ]);
    let results = apply_string_rules(&contract, &columns).unwrap();
    let got: Vec<(&str, &str, &str, Option<&str>)> = results
        .iter()
        .map(|r| (r.column.as_str(), r.rule.as_str(), r.result.as_str(), r.details.as_deref()))
        .collect();
    assert_eq!(
        got,
        vec![
            ("name", "NotNull", "fail", Some("null_count=1")),
            ("name", "Pattern", "pass", None),
            ("flag", "Boolean", "fail", Some("bad_count=1")),
            ("flag", "InSet", "fail", Some("bad_count=1")),
            ("when", "DateFormat", "fail", Some("bad_count=1, format=%Y-%m-%d %H:%M:%S")),
            ("id", "InSet", "skipped", Some("column is not a string type")),
        ]
    );
}

#[test]
fn missing_column_and_bad_pattern_are_errors() {
    let columns = CsvDriver.load(CSV.as_bytes()).unwrap();
    let missing = schema(vec![ColumnContracts { name: "nope".to_string(), validation: vec![ColumnRule::NotNull] }]);
    match apply_string_rules(&missing, &columns) {
        Err(ValidationError::Other(m)) => assert_eq!(m, "column not found: nope"),
        _ => panic!("expected a missing column"),
    }
    let bad = schema(vec![ColumnContracts { name: "name".to_string(), validation: vec![ColumnRule::Pattern { pattern: "(".to_string() }] }]);
    assert!(matches!(apply_string_rules(&bad, &columns), Err(ValidationError::Regex(_))));
    let none = schema(vec![ColumnContracts { name: "nope".to_string(), validation: vec![] }]);
    assert_eq!(apply_string_rules(&none, &columns).unwrap().len(), 0);
}

#[test]
fn compound_rules_check_key_rows() {
    let csv = "a,b,c\n1,x,p\n1,y,p\n1,x,q\n";
    let columns = CsvDriver.load(csv.as_bytes()).unwrap();
    let mut contract = schema(vec![]);
    contract.compound_unique = Some(vec![
        CompoundUnique { columns: vec!["a".to_string(), "b".to_string()] },
        CompoundUnique { columns: vec!["a".to_string(), "b".to_string(), "c".to_string()] },
    ]);
    let results = apply_compound_rules(&contract, &columns).unwrap();
    assert_eq!(results.len(), 2);
    assert_eq!(results[0].column, "a,b");
    assert_eq!(results[0].rule, "CompoundUnique");
    assert_eq!(results[0].result, "fail");
    assert_eq!(results[0].details.as_deref(), Some("columns=[\"a\", \"b\"], rows=3, distinct=2"));
    assert_eq!(results[1].result, "pass");
    assert_eq!(results[1].details.as_deref(), Some("columns=[\"a\", \"b\", \"c\"], rows=3"));
    contract.compound_unique = Some(vec![CompoundUnique { columns: vec!["a".to_string(), "z".to_string()] }]);
    match apply_compound_rules(&contract, &columns) {
        Err(ValidationError::Other(m)) => assert_eq!(m, "column not found: z"),
        _ => panic!("expected a missing column"),
    }
    contract.compound_unique = None;
    assert_eq!(apply_compound_rules(&contract, &columns).unwrap().len(), 0);
}
