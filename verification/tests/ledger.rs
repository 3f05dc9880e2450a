use pipa::crypto::{compute_sha256, to_hex_lower};
use pipa::ledger::{
    append_ledger_entry, append_to_ledger, generate_ledger_key, ledger_contains, ledger_line, read_ledger_plaintext,
    seal_ledger, write_ledger_plaintext, LedgerError, LEDGER_KEY_LEN,
};
use pipa::seal::{seal_unsealed_logs, should_seal};
use pipa::verify::{audit_log_filename, log_filename_for_date, verify_all, verify_date, FileStatus};

const ABC_SHA256: &str = "ba7816bf8f01cfea414140de5dae2223b00361a396177a9cb410ff61f20015ad";

#[test]
fn sha256_of_abc_is_the_standard_digest() {
    assert_eq!(compute_sha256(b"abc"), ABC_SHA256);
}

#[test]
fn sha256_of_empty_input() {
    assert_eq!(
        compute_sha256(b""),
        "e3b0c44298fc1c149afbf4c8996fb92427ae41e4649b934ca495991b7852b855"
    );
}

#[test]
fn hex_is_lower_case_two_digits_per_byte() {
    assert_eq!(to_hex_lower(&[0x00, 0x0f, 0xa0, 0xff]), "000fa0ff");
    assert_eq!(to_hex_lower(&[]), "");
}

#[test]
fn ledger_line_has_three_fields_and_a_newline() {
    assert_eq!(
        ledger_line("2025-01-01T00:00:00+00:00", "audit-2024-12-31.jsonl", "abcd"),
        "2025-01-01T00:00:00+00:00 audit-2024-12-31.jsonl abcd\n"
    );
}

#[test]
fn append_ledger_entry_appends_the_line() {
    let mut ledger = b"first line\n".to_vec();
    append_ledger_entry(&mut ledger, "T", "f.jsonl", "h");
    assert_eq!(ledger, b"first line\nT f.jsonl h\n".to_vec());
}

#[test]
fn append_to_ledger_stamps_the_line() {
    let mut ledger = Vec::new();
    append_to_ledger(&mut ledger, "audit-2024-01-01.jsonl", "abc123");
    let text = String::from_utf8(ledger).unwrap();
    let parts: Vec<&str> = text.split_whitespace().collect();
    assert_eq!(parts.len(), 3);
    assert_eq!(parts[1], "audit-2024-01-01.jsonl");
    assert_eq!(parts[2], "abc123");
    assert!(text.ends_with('\n'));
}

#[test]
fn ledger_contains_finds_names() {
    let ledger = b"T audit-2024-01-01.jsonl h\n";
    assert!(ledger_contains(ledger, "audit-2024-01-01.jsonl"));
    assert!(!ledger_contains(ledger, "audit-2024-01-02.jsonl"));
    assert!(ledger_contains(b"", ""));
}

#[test]
fn ledger_round_trip() {
    let key = generate_ledger_key();
    assert_eq!(key.len(), LEDGER_KEY_LEN);
    let plaintext = b"T audit-2024-01-01.jsonl h\n".to_vec();
    let stored = write_ledger_plaintext(&plaintext, &key);
    assert_eq!(stored.len(), plaintext.len() + 28);
    assert_eq!(read_ledger_plaintext(Some(&stored), &key), Ok(plaintext));
}

#[test]
fn sealed_ledger_does_not_hold_the_plaintext() {
    let key = [7u8; 32];
    let nonce = [1u8; 12];
    let plaintext = b"secret ledger text".to_vec();
    let stored = seal_ledger(&plaintext, &key, &nonce);
    assert_eq!(&stored[..12], &nonce);
    assert_ne!(&stored[12..12 + plaintext.len()], plaintext.as_slice());
    assert_eq!(read_ledger_plaintext(Some(&stored), &key), Ok(plaintext));
}

#[test]
fn missing_ledger_reads_as_empty() {
    let key = [0u8; 32];
    assert_eq!(read_ledger_plaintext(None, &key), Ok(Vec::new()));
}

#[test]
fn tampered_ledger_fails_to_decrypt() {
    let key = [9u8; 32];
    let mut stored = seal_ledger(b"line\n", &key, &[3u8; 12]);
    let last = stored.len() - 1;
    stored[last] ^= 1;
    assert_eq!(read_ledger_plaintext(Some(&stored), &key), Err(LedgerError::DecryptionFailed));
}

#[test]
fn wrong_key_fails_to_decrypt() {
    let stored = seal_ledger(b"line\n", &[9u8; 32], &[3u8; 12]);
    assert_eq!(read_ledger_plaintext(Some(&stored), &[8u8; 32]), Err(LedgerError::DecryptionFailed));
}

#[test]
fn should_seal_only_finished_unsealed_audit_logs() {
    let ledger = b"T audit-2024-01-01.jsonl h\n";
    assert!(should_seal(ledger, "audit-2024-01-02.jsonl", "2024-01-03"));
    assert!(!should_seal(ledger, "audit-2024-01-01.jsonl", "2024-01-03"));
    assert!(!should_seal(ledger, "audit-2024-01-03.jsonl", "2024-01-03"));
    assert!(!should_seal(ledger, "notes.txt", "2024-01-03"));
    assert!(!should_seal(ledger, "audit-2024-01-02.json", "2024-01-03"));
}

fn log_files() -> Vec<(String, Vec<u8>)> {
    vec![
        ("audit-2024-01-01.jsonl".to_string(), b"{\"event\":\"a\"}\n".to_vec()),
        ("audit-2024-01-02.jsonl".to_string(), b"{\"event\":\"b\"}\n".to_vec()),
        ("audit-2024-01-03.jsonl".to_string(), b"{\"event\":\"today\"}\n".to_vec()),
        ("readme.txt".to_string(), b"not a log".to_vec()),
    ]
}

#[test]
fn sealing_adds_one_line_per_finished_log() {
    let mut ledger = Vec::new();
    seal_unsealed_logs(&mut ledger, &log_files(), "2024-01-03");
    let text = String::from_utf8(ledger.clone()).unwrap();
    let lines: Vec<&str> = text.lines().collect();
    assert_eq!(lines.len(), 2);
    assert!(lines[0].contains("audit-2024-01-01.jsonl"));
    assert!(lines[1].contains("audit-2024-01-02.jsonl"));
    assert!(lines[0].ends_with(&compute_sha256(b"{\"event\":\"a\"}\n")));
}

#[test]
fn sealing_twice_adds_nothing() {
    let mut ledger = Vec::new();
    seal_unsealed_logs(&mut ledger, &log_files(), "2024-01-03");
    let once = ledger.clone();
    seal_unsealed_logs(&mut ledger, &log_files(), "2024-01-03");
    assert_eq!(ledger, once);
}

#[test]
fn sealed_logs_verify() {
    let mut ledger = Vec::new();
    let files = log_files();
    seal_unsealed_logs(&mut ledger, &files, "2024-01-03");
    let summary = verify_all(true, &ledger, &files);
    assert_eq!(summary.verified, 2);
    assert_eq!(summary.mismatched + summary.missing + summary.malformed + summary.unsealed, 0);
    assert!(summary.files.iter().all(|f| f.status == FileStatus::Verified));
}

#[test]
fn changed_log_is_mismatched() {
    let mut ledger = Vec::new();
    let mut files = log_files();
    seal_unsealed_logs(&mut ledger, &files, "2024-01-03");
    files[0].1.push(b'x');
    let summary = verify_all(true, &ledger, &files);
    assert_eq!(summary.verified, 1);
    assert_eq!(summary.mismatched, 1);
    assert_eq!(summary.files[0].status, FileStatus::Mismatched);
    assert_eq!(summary.files[0].computed_hash.as_deref(), Some(compute_sha256(&files[0].1).as_str()));
}

#[test]
fn deleted_log_is_missing() {
    let mut ledger = Vec::new();
    let files = log_files();
    seal_unsealed_logs(&mut ledger, &files, "2024-01-03");
    let summary = verify_all(true, &ledger, &files[1..].to_vec());
    assert_eq!(summary.missing, 1);
    assert_eq!(summary.files[0].filename, "audit-2024-01-01.jsonl");
    assert_eq!(summary.files[0].status, FileStatus::Missing);
}

#[test]
fn short_ledger_line_is_malformed() {
    let summary = verify_all(true, b"only-two fields\n", &log_files());
    assert_eq!(summary.malformed, 1);
    assert_eq!(summary.files[0].filename, "only-two fields");
    assert_eq!(summary.files.len(), 1);
}

#[test]
fn verify_all_without_logs_dir_or_ledger_reports_nothing() {
    assert_eq!(verify_all(false, b"T f h\n", &log_files()).files.len(), 0);
    assert_eq!(verify_all(true, b"", &log_files()).files.len(), 0);
}

#[test]
fn audit_log_filename_format() {
    assert_eq!(audit_log_filename("2025-01-15"), "audit-2025-01-15.jsonl");
}

#[test]
fn log_filename_for_date_normalizes_and_rejects() {
    assert_eq!(log_filename_for_date(Some("2025-01-15")).as_deref(), Some("audit-2025-01-15.jsonl"));
    assert_eq!(log_filename_for_date(Some("not-a-date")), None);
    assert_eq!(log_filename_for_date(Some("2025-02-30")), None);
    let yesterday = log_filename_for_date(None).unwrap();
    assert!(yesterday.starts_with("audit-") && yesterday.ends_with(".jsonl"));
}

#[test]
fn verify_date_statuses() {
    let mut ledger = Vec::new();
    let files = log_files();
    seal_unsealed_logs(&mut ledger, &files, "2024-01-03");
    let name = "audit-2024-01-01.jsonl";
    let ok = verify_date(true, Some(name), &ledger, Some(&files[0].1));
    assert_eq!(ok.verified, 1);
    assert_eq!(ok.files[0].status, FileStatus::Verified);

    let changed = verify_date(true, Some(name), &ledger, Some(b"other"));
    assert_eq!(changed.mismatched, 1);

    let missing = verify_date(true, Some(name), &ledger, None);
    assert_eq!(missing.missing, 1);

    let unsealed = verify_date(true, Some("audit-2024-01-03.jsonl"), &ledger, Some(&files[2].1));
    assert_eq!(unsealed.unsealed, 1);
    assert_eq!(unsealed.files[0].status, FileStatus::Unsealed);

    let malformed = verify_date(true, Some(name), b"audit-2024-01-01.jsonl\n", Some(&files[0].1));
    assert_eq!(malformed.malformed, 1);

    assert_eq!(verify_date(false, Some(name), &ledger, Some(&files[0].1)).files.len(), 0);
    assert_eq!(verify_date(true, None, &ledger, Some(&files[0].1)).files.len(), 0);
    assert_eq!(verify_date(true, Some(name), b"", Some(&files[0].1)).files.len(), 0);
}
