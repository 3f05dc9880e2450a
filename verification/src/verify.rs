//! Integrity checks of sealed audit logs against the ledger.
//!
//! The caller reads the ledger and the log files; this module decides, for
//! each ledger line, whether the log it names is verified, mismatched,
//! missing or malformed, and for a single day whether its log is sealed.

use crate::crypto::{compute_sha256, hex_lower, sha256_spec};
use crate::ledger::{ledger_text, text_of};
use crate::text::{
    chars_of, contains_chars, contains_spec, lines_of, lines_spec, split_whitespace,
    split_whitespace_spec, string_of, views,
};
use vstd::prelude::*;

verus! {

/// Outcome of verifying one log file.
#[derive(Debug, Clone, Copy, PartialEq, Eq, Structural)]
pub enum FileStatus {
    /// The stored hash equals the hash of the file.
    Verified,
    /// The file's hash differs from the stored one.
    Mismatched,
    /// The ledger names a file that does not exist.
    Missing,
    /// A ledger line has fewer than three fields.
    Malformed,
    /// The day's log exists but no ledger line names it.
    Unsealed,
}

impl FileStatus {
    /// The symbol shown before a file of this status.
    pub fn symbol(&self) -> (s: &'static str)
        ensures
            s@ == match *self {
                FileStatus::Verified => "✅"@,
                FileStatus::Mismatched => "❌"@,
                FileStatus::Missing => "❓"@,
                FileStatus::Malformed => "⚠️"@,
                FileStatus::Unsealed => "🕒"@,
            },
    {
        match self {
            FileStatus::Verified => "✅",
            FileStatus::Mismatched => "❌",
            FileStatus::Missing => "❓",
            FileStatus::Malformed => "⚠️",
            FileStatus::Unsealed => "🕒",
        }
    }

    /// The status in words.
    pub fn label(&self) -> (s: &'static str)
        ensures
            s@ == match *self {
                FileStatus::Verified => "verified"@,
                FileStatus::Mismatched => "mismatched"@,
                FileStatus::Missing => "missing"@,
                FileStatus::Malformed => "malformed"@,
                FileStatus::Unsealed => "unsealed"@,
            },
    {
        match self {
            FileStatus::Verified => "verified",
            FileStatus::Mismatched => "mismatched",
            FileStatus::Missing => "missing",
            FileStatus::Malformed => "malformed",
            FileStatus::Unsealed => "unsealed",
        }
    }
}

/// Result of verifying a single log file.
pub struct FileVerification {
    pub filename: String,
    pub status: FileStatus,
    pub stored_hash: Option<String>,
    pub computed_hash: Option<String>,
}

/// Aggregated summary across all files checked.
pub struct VerificationSummary {
    pub verified: usize,
    pub mismatched: usize,
    pub missing: usize,
    pub malformed: usize,
    pub unsealed: usize,
    pub files: Vec<FileVerification>,
}

/// A file check as plain values: filename, status, stored and computed hash.
pub type FileCheck = (Seq<char>, FileStatus, Option<Seq<char>>, Option<Seq<char>>);

/// Text of an optional string.
pub open spec fn opt_text(o: Option<String>) -> Option<Seq<char>> {
    match o {
        Some(s) => Some(s@),
        None => None,
    }
}

/// A file verification as plain values.
pub open spec fn check_of(f: FileVerification) -> FileCheck {
    (f.filename@, f.status, opt_text(f.stored_hash), opt_text(f.computed_hash))
}

/// The file verifications of a summary as plain values.
pub open spec fn checks_of(files: Seq<FileVerification>) -> Seq<FileCheck> {
    files.map_values(|f: FileVerification| check_of(f))
}

/// Number of checks with the given status.
pub open spec fn count_status(checks: Seq<FileCheck>, st: FileStatus) -> nat
    decreases checks.len(),
{
    if checks.len() == 0 {
        0
    } else {
        count_status(checks.drop_last(), st) + if checks.last().1 == st {
            1nat
        } else {
            0nat
        }
    }
}

/// The summary holds exactly these checks, and its counters count them.
pub open spec fn summary_is(s: VerificationSummary, checks: Seq<FileCheck>) -> bool {
    &&& checks_of(s.files@) == checks
    &&& s.verified == count_status(checks, FileStatus::Verified)
    &&& s.mismatched == count_status(checks, FileStatus::Mismatched)
    &&& s.missing == count_status(checks, FileStatus::Missing)
    &&& s.malformed == count_status(checks, FileStatus::Malformed)
    &&& s.unsealed == count_status(checks, FileStatus::Unsealed)
}

/// Log files the caller has read, by name, as plain values.
pub open spec fn store_of(observed: Seq<(String, Vec<u8>)>) -> Seq<(Seq<char>, Seq<u8>)> {
    observed.map_values(|p: (String, Vec<u8>)| (p.0@, p.1@))
}

/// The contents of the first log named `name`, if the caller read one.
pub open spec fn lookup_log(store: Seq<(Seq<char>, Seq<u8>)>, name: Seq<char>) -> Option<Seq<u8>>
    decreases store.len(),
{
    if store.len() == 0 {
        None
    } else if store[0].0 == name {
        Some(store[0].1)
    } else {
        lookup_log(store.drop_first(), name)
    }
}

/// The hash text the ledger keeps for file contents.
pub open spec fn hash_text(contents: Seq<u8>) -> Seq<char> {
    hex_lower(sha256_spec(contents))
}

/// The check of one ledger line: fewer than three whitespace-separated
/// fields is malformed; otherwise the second field names the file and the
/// third is its stored hash.
pub open spec fn check_line(line: Seq<char>, store: Seq<(Seq<char>, Seq<u8>)>) -> FileCheck {
    let parts = split_whitespace_spec(line);
    if parts.len() < 3 {
        (line, FileStatus::Malformed, None, None)
    } else {
        match lookup_log(store, parts[1]) {
            None => (parts[1], FileStatus::Missing, Some(parts[2]), None),
            Some(c) => {
                let h = hash_text(c);
                (
                    parts[1],
                    if parts[2] == h {
                        FileStatus::Verified
                    } else {
                        FileStatus::Mismatched
                    },
                    Some(parts[2]),
                    Some(h),
                )
            },
        }
    }
}

/// The checks of every line of a ledger text.
pub open spec fn check_lines(lines: Seq<Seq<char>>, store: Seq<(Seq<char>, Seq<u8>)>) -> Seq<FileCheck> {
    lines.map_values(|l: Seq<char>| check_line(l, store))
}

/// What verifying all sealed logs yields: nothing without a logs directory or
/// with an empty ledger, else one check per ledger line.
pub open spec fn verify_all_spec(
    logs_dir_exists: bool,
    ledger: Seq<u8>,
    store: Seq<(Seq<char>, Seq<u8>)>,
) -> Seq<FileCheck> {
    if !logs_dir_exists || ledger.len() == 0 {
        seq![]
    } else {
        check_lines(lines_spec(text_of(ledger)), store)
    }
}

fn empty_summary() -> (s: VerificationSummary)
    ensures
        summary_is(s, seq![]),
{
    let s = VerificationSummary {
        verified: 0,
        mismatched: 0,
        missing: 0,
        malformed: 0,
        unsealed: 0,
        files: Vec::new(),
    };
    assert(checks_of(s.files@) =~= seq![]);
    s
}

/// Character equality of two character slices.
pub fn chars_eq(a: &[char], b: &[char]) -> (r: bool)
    ensures
        r == (a@ == b@),
{
    if a.len() != b.len() {
        return false;
    }
    let mut i: usize = 0;
    while i < a.len()
        invariant
            a@.len() == b@.len(),
            i <= a@.len(),
            forall|k: int| 0 <= k < i ==> a@[k] == b@[k],
        decreases a@.len() - i,
    {
        if a[i] != b[i] {
            return false;
        }
        i = i + 1;
    }
    assert(a@ =~= b@);
    true
}

fn find_log<'a>(observed: &'a Vec<(String, Vec<u8>)>, name: &[char]) -> (r: Option<&'a Vec<u8>>)
    ensures
        match r {
            Some(c) => lookup_log(store_of(observed@), name@) == Some(c@),
            None => lookup_log(store_of(observed@), name@) is None,
        },
{
    let mut i: usize = 0;
    assert(store_of(observed@).skip(0) =~= store_of(observed@));
    while i < observed.len()
        invariant
            i <= observed@.len(),
            lookup_log(store_of(observed@), name@) == lookup_log(store_of(observed@).skip(i as int), name@),
        decreases observed@.len() - i,
    {
        let ghost rest = store_of(observed@).skip(i as int);
        assert(rest.drop_first() =~= store_of(observed@).skip(i + 1));
        assert(rest[0] == (observed@[i as int].0@, observed@[i as int].1@));
        let candidate = chars_of(observed[i].0.as_str());
        if chars_eq(&candidate, name) {
            return Some(&observed[i].1);
        }
        i = i + 1;
    }
    assert(store_of(observed@).skip(i as int) =~= seq![]);
    None
}

fn push_check(s: &mut VerificationSummary, f: FileVerification)
    requires
        summary_is(*old(s), checks_of(old(s).files@)),
        old(s).files@.len() < usize::MAX,
    ensures
        summary_is(*final(s), checks_of(old(s).files@).push(check_of(f))),
        final(s).files@.len() == old(s).files@.len() + 1,
{
    let ghost before = checks_of(s.files@);
    proof {
        lemma_count_bound(before, f.status);
    }
    match f.status {
        FileStatus::Verified => s.verified = s.verified + 1,
        FileStatus::Mismatched => s.mismatched = s.mismatched + 1,
        FileStatus::Missing => s.missing = s.missing + 1,
        FileStatus::Malformed => s.malformed = s.malformed + 1,
        FileStatus::Unsealed => s.unsealed = s.unsealed + 1,
    }
    s.files.push(f);
    assert(checks_of(s.files@) =~= before.push(check_of(f)));
    assert(before.push(check_of(f)).drop_last() =~= before);
}

proof fn lemma_count_bound(checks: Seq<FileCheck>, st: FileStatus)
    ensures
        count_status(checks, st) <= checks.len(),
    decreases checks.len(),
{
    if checks.len() > 0 {
        lemma_count_bound(checks.drop_last(), st);
    }
}

fn check_ledger_line(line: &[char], observed: &Vec<(String, Vec<u8>)>) -> (f: FileVerification)
    ensures
        check_of(f) == check_line(line@, store_of(observed@)),
{
    let parts = split_whitespace(line);
    assert(views(parts@).len() == parts@.len());
    if parts.len() < 3 {
        return FileVerification {
            filename: string_of(line),
            status: FileStatus::Malformed,
            stored_hash: None,
            computed_hash: None,
        };
    }
    assert(views(parts@)[1] == parts@[1]@);
    assert(views(parts@)[2] == parts@[2]@);
    let filename = string_of(&parts[1]);
    let stored = string_of(&parts[2]);
    match find_log(observed, &parts[1]) {
        None => FileVerification {
            filename,
            status: FileStatus::Missing,
            stored_hash: Some(stored),
            computed_hash: None,
        },
        Some(contents) => {
            let computed = compute_sha256(contents);
            let status = if stored == computed {
                FileStatus::Verified
            } else {
                FileStatus::Mismatched
            };
            FileVerification {
                filename,
                status,
                stored_hash: Some(stored),
                computed_hash: Some(computed),
            }
        },
    }
}

/// Verifies every sealed log named in the ledger.
///
/// `observed` holds, by name, the contents of the log files that exist among
/// those the ledger names (the caller reads them from the logs directory); a
/// name that is not there counts as missing.
pub fn verify_all(logs_dir_exists: bool, ledger_plaintext: &[u8], observed: &Vec<(String, Vec<u8>)>) -> (s: VerificationSummary)
    ensures
        summary_is(s, verify_all_spec(logs_dir_exists, ledger_plaintext@, store_of(observed@))),
{
    if !logs_dir_exists || ledger_plaintext.len() == 0 {
        return empty_summary();
    }
    let text = ledger_text(ledger_plaintext);
    let lines = lines_of(&text);
    let ghost all = check_lines(lines_spec(text_of(ledger_plaintext@)), store_of(observed@));
    let mut summary = empty_summary();
    let mut i: usize = 0;
    assert(all.take(0) =~= seq![]);
    while i < lines.len()
        invariant
            i <= lines@.len(),
            views(lines@) == lines_spec(text_of(ledger_plaintext@)),
            all == check_lines(views(lines@), store_of(observed@)),
            summary.files@.len() == i,
            summary_is(summary, all.take(i as int)),
        decreases lines@.len() - i,
    {
        let f = check_ledger_line(&lines[i], observed);
        assert(views(lines@)[i as int] == lines@[i as int]@);
        assert(all.take(i as int).push(check_of(f)) =~= all.take(i + 1));
        push_check(&mut summary, f);
        i = i + 1;
    }
    assert(all.take(lines@.len() as int) =~= all);
    summary
}

} // verus!

verus! {

/// `YYYY-MM-DD` parsed and printed back by `chrono` (`NaiveDate::parse_from_str`
/// then `format("%Y-%m-%d")`); `None` when the text is not such a date.
pub uninterp spec fn iso_date_normalized(text: Seq<char>) -> Option<Seq<char>>;

/// Parses a `YYYY-MM-DD` date and prints it back in that form, by
/// `chrono::NaiveDate::parse_from_str` and `NaiveDate::format`.
/// Claims: the result is `iso_date_normalized` of the text.
#[verifier::external_body]
pub(crate) fn normalize_iso_date(text: &str) -> (r: Option<String>)
    ensures
        opt_text(r) == iso_date_normalized(text@),
{
    chrono::NaiveDate::parse_from_str(text, "%Y-%m-%d").ok().map(|d| d.format("%Y-%m-%d").to_string())
}

/// Yesterday's UTC date as `YYYY-MM-DD` (`chrono::Utc::now()`, minus one day,
/// formatted with `%Y-%m-%d`). Which day it is depends on the clock and is
/// not claimed; the contract claims only that the text is a date in the form
/// that `normalize_iso_date` gives back unchanged (chrono writes `%Y` with
/// four digits for the years 0 to 9999, and parsing with the same format
/// reads the date back).
#[verifier::external_body]
pub(crate) fn yesterday_utc() -> (r: String)
    ensures
        iso_date_normalized(r@) == Some(r@),
{
    let yesterday = chrono::Utc::now().date_naive() - chrono::Duration::days(1);
    yesterday.format("%Y-%m-%d").to_string()
}

/// Name of the audit log of a day: `audit-<date>.jsonl`.
pub open spec fn audit_log_name(date: Seq<char>) -> Seq<char> {
    seq!['a', 'u', 'd', 'i', 't', '-'] + date + seq!['.', 'j', 's', 'o', 'n', 'l']
}

/// `audit-<date>.jsonl`.
pub fn audit_log_filename(date: &str) -> (r: String)
    ensures
        r@ == audit_log_name(date@),
{
    let mut s = String::new();
    crate::text::push_str(&mut s, "audit-");
    crate::text::push_str(&mut s, date);
    crate::text::push_str(&mut s, ".jsonl");
    proof {
        reveal_strlit("audit-");
        reveal_strlit(".jsonl");
    }
    assert(s@ =~= audit_log_name(date@));
    s
}

/// The log file to verify for a day: the given date, normalized (`None` when
/// it is not a valid `YYYY-MM-DD` date), or yesterday's log when no date is
/// given, which is what giving yesterday's date yields.
pub fn log_filename_for_date(date: Option<&str>) -> (r: Option<String>)
    ensures
        match date {
            Some(d) => opt_text(r) == match iso_date_normalized(d@) {
                Some(n) => Some(audit_log_name(n)),
                None => None::<Seq<char>>,
            },
            None => r is Some && exists|day: Seq<char>|
                iso_date_normalized(day) == Some(day) && r->0@ == audit_log_name(day),
        },
{
    match date {
        Some(d) => match normalize_iso_date(d) {
            Some(n) => Some(audit_log_filename(n.as_str())),
            None => None,
        },
        None => {
            let day = yesterday_utc();
            let name = audit_log_filename(day.as_str());
            assert(name@ == audit_log_name(day@));
            Some(name)
        },
    }
}

/// The first line that contains `needle`.
pub open spec fn first_line_containing(lines: Seq<Seq<char>>, needle: Seq<char>) -> Option<Seq<char>>
    decreases lines.len(),
{
    if lines.len() == 0 {
        None
    } else if contains_spec(lines[0], needle) {
        Some(lines[0])
    } else {
        first_line_containing(lines.drop_first(), needle)
    }
}

/// What verifying one day's log yields.
pub open spec fn verify_date_spec(
    logs_dir_exists: bool,
    log_filename: Option<Seq<char>>,
    ledger: Seq<u8>,
    log_contents: Option<Seq<u8>>,
) -> Seq<FileCheck> {
    if !logs_dir_exists {
        seq![]
    } else {
        match log_filename {
            None => seq![],
            Some(f) => if ledger.len() == 0 {
                seq![]
            } else {
                match log_contents {
                    None => seq![(f, FileStatus::Missing, None, None)],
                    Some(c) => match first_line_containing(lines_spec(text_of(ledger)), f) {
                        None => seq![(f, FileStatus::Unsealed, None, None)],
                        Some(line) => {
                            let parts = split_whitespace_spec(line);
                            if parts.len() < 3 {
                                seq![(f, FileStatus::Malformed, None, None)]
                            } else {
                                let h = hash_text(c);
                                seq![
                                    (
                                        f,
                                        if parts[2] == h {
                                            FileStatus::Verified
                                        } else {
                                            FileStatus::Mismatched
                                        },
                                        Some(parts[2]),
                                        Some(h),
                                    ),
                                ]
                            }
                        },
                    },
                }
            },
        }
    }
}

/// The optional bytes of an optional slice.
pub open spec fn opt_bytes(o: Option<&[u8]>) -> Option<Seq<u8>> {
    match o {
        Some(b) => Some(b@),
        None => None,
    }
}

fn find_line_containing(lines: &Vec<Vec<char>>, needle: &[char]) -> (r: Option<usize>)
    ensures
        match r {
            Some(i) => i < lines@.len() && first_line_containing(views(lines@), needle@) == Some(
                lines@[i as int]@,
            ),
            None => first_line_containing(views(lines@), needle@) is None,
        },
{
    let mut i: usize = 0;
    assert(views(lines@).skip(0) =~= views(lines@));
    while i < lines.len()
        invariant
            i <= lines@.len(),
            first_line_containing(views(lines@), needle@) == first_line_containing(
                views(lines@).skip(i as int),
                needle@,
            ),
        decreases lines@.len() - i,
    {
        let ghost rest = views(lines@).skip(i as int);
        assert(rest.drop_first() =~= views(lines@).skip(i + 1));
        assert(rest[0] == lines@[i as int]@);
        if contains_chars(&lines[i], needle) {
            return Some(i);
        }
        i = i + 1;
    }
    assert(views(lines@).skip(i as int) =~= seq![]);
    None
}

fn single_summary(f: FileVerification) -> (s: VerificationSummary)
    ensures
        summary_is(s, seq![check_of(f)]),
{
    let mut s = empty_summary();
    push_check(&mut s, f);
    assert(seq![].push(check_of(f)) =~= seq![check_of(f)]);
    s
}

/// Verifies the log of a single day.
///
/// `log_filename` is the day's log name (see `log_filename_for_date`; `None`
/// for an invalid date) and `log_contents` the log's contents, `None` when
/// the file does not exist.
pub fn verify_date(
    logs_dir_exists: bool,
    log_filename: Option<&str>,
    ledger_plaintext: &[u8],
    log_contents: Option<&[u8]>,
) -> (s: VerificationSummary)
    ensures
        summary_is(
            s,
            verify_date_spec(
                logs_dir_exists,
                match log_filename {
                    Some(f) => Some(f@),
                    None => None,
                },
                ledger_plaintext@,
                opt_bytes(log_contents),
            ),
        ),
{
    if !logs_dir_exists {
        return empty_summary();
    }
    let fname = match log_filename {
        None => {
            return empty_summary();
        },
        Some(f) => f,
    };
    if ledger_plaintext.len() == 0 {
        return empty_summary();
    }
    let contents = match log_contents {
        None => {
            return single_summary(
                FileVerification {
                    filename: fname.to_owned(),
                    status: FileStatus::Missing,
                    stored_hash: None,
                    computed_hash: None,
                },
            );
        },
        Some(c) => c,
    };
    let text = ledger_text(ledger_plaintext);
    let lines = lines_of(&text);
    let needle = chars_of(fname);
    match find_line_containing(&lines, &needle) {
        None => single_summary(
            FileVerification {
                filename: fname.to_owned(),
                status: FileStatus::Unsealed,
                stored_hash: None,
                computed_hash: None,
            },
        ),
        Some(i) => {
            let parts = split_whitespace(&lines[i]);
            assert(views(parts@).len() == parts@.len());
            if parts.len() < 3 {
                return single_summary(
                    FileVerification {
                        filename: fname.to_owned(),
                        status: FileStatus::Malformed,
                        stored_hash: None,
                        computed_hash: None,
                    },
                );
            }
            assert(views(parts@)[2] == parts@[2]@);
            let stored = string_of(&parts[2]);
            let computed = compute_sha256(contents);
            let status = if stored == computed {
                FileStatus::Verified
            } else {
                FileStatus::Mismatched
            };
            single_summary(
                FileVerification {
                    filename: fname.to_owned(),
                    status,
                    stored_hash: Some(stored),
                    computed_hash: Some(computed),
                },
            )
        },
    }
}

proof fn lemma_count_sum(checks: Seq<FileCheck>)
    ensures
        count_status(checks, FileStatus::Verified) + count_status(checks, FileStatus::Mismatched)
            + count_status(checks, FileStatus::Missing) + count_status(checks, FileStatus::Malformed)
            + count_status(checks, FileStatus::Unsealed) == checks.len(),
    decreases checks.len(),
{
    if checks.len() > 0 {
        lemma_count_sum(checks.drop_last());
    }
}

/// Law: the counters of a summary add up to the number of files it
/// reports, each file counted once, under its status.
pub proof fn summary_counts_cover_files(s: VerificationSummary, checks: Seq<FileCheck>)
    requires
        summary_is(s, checks),
    ensures
        s.verified + s.mismatched + s.missing + s.malformed + s.unsealed == s.files@.len(),
{
    lemma_count_sum(checks);
    assert(checks_of(s.files@).len() == s.files@.len());
}

/// Law: verifying all sealed logs reports no file as unsealed: every file it
/// reports comes from a ledger line, so it is verified, mismatched, missing
/// or malformed.
pub proof fn verify_all_reports_no_unsealed(
    logs_dir_exists: bool,
    ledger: Seq<u8>,
    store: Seq<(Seq<char>, Seq<u8>)>,
)
    ensures
        forall|k: int|
            0 <= k < verify_all_spec(logs_dir_exists, ledger, store).len() ==> (#[trigger] verify_all_spec(
                logs_dir_exists,
                ledger,
                store,
            )[k]).1 != FileStatus::Unsealed,
{
}

} // verus!
