//! Column validators over plain column values.
//!
//! A column is given as its values rendered as text (`None` for null) and
//! whether its data type is a string type. Rules on floating-point
//! statistics are evaluated by the caller; the rules here decide on the
//! values themselves.

use crate::error::ValidationError;
use crate::text::{chars_of, decimal, push_decimal, push_str};
use crate::verify::chars_eq;
use vstd::prelude::*;

verus! {

/// A column as plain values.
pub struct ColumnView {
    pub name: String,
    /// The column's data type is a string type.
    pub is_string: bool,
    /// The values, `None` for null, others as text.
    pub values: Vec<Option<String>>,
}

/// Standardized result of a validation check: `status` is `"pass"`,
/// `"fail"` or `"skipped"`, with optional details.
pub struct ValidationReport {
    pub status: &'static str,
    pub details: Option<String>,
}

/// The values of a column as plain values.
pub open spec fn values_of(values: Seq<Option<String>>) -> Seq<Option<Seq<char>>> {
    values.map_values(|o: Option<String>| match o {
        Some(s) => Some(s@),
        None => None::<Seq<char>>,
    })
}

/// Number of null values.
pub open spec fn null_count_spec(values: Seq<Option<Seq<char>>>) -> nat
    decreases values.len(),
{
    if values.len() == 0 {
        0
    } else {
        null_count_spec(values.drop_last()) + if values.last() is None {
            1nat
        } else {
            0nat
        }
    }
}

/// Number of non-null values that do not satisfy `ok`; nulls never count.
pub open spec fn bad_count_spec(values: Seq<Option<Seq<char>>>, ok: spec_fn(Seq<char>) -> bool) -> nat
    decreases values.len(),
{
    if values.len() == 0 {
        0
    } else {
        bad_count_spec(values.drop_last(), ok) + match values.last() {
            Some(v) => if ok(v) {
                0nat
            } else {
                1nat
            },
            None => 0nat,
        }
    }
}

/// The report has this status and these details.
pub open spec fn report_is(r: ValidationReport, status: Seq<char>, details: Option<Seq<char>>) -> bool {
    &&& r.status@ == status
    &&& match r.details {
        Some(d) => details == Some(d@),
        None => details is None,
    }
}

/// The report for a string rule: skipped for non-string columns, failed with
/// `bad_count=<n><suffix>` when some values are bad, passed otherwise.
pub open spec fn string_rule_report(
    r: ValidationReport,
    is_string: bool,
    bad: nat,
    suffix: Seq<char>,
) -> bool {
    if !is_string {
        report_is(r, "skipped"@, Some("column is not a string type"@))
    } else if bad > 0 {
        report_is(r, "fail"@, Some("bad_count="@ + decimal(bad) + suffix))
    } else {
        report_is(r, "pass"@, None)
    }
}

proof fn lemma_bad_count_bound(values: Seq<Option<Seq<char>>>, ok: spec_fn(Seq<char>) -> bool)
    ensures
        bad_count_spec(values, ok) <= values.len(),
    decreases values.len(),
{
    if values.len() > 0 {
        lemma_bad_count_bound(values.drop_last(), ok);
    }
}

proof fn lemma_null_count_bound(values: Seq<Option<Seq<char>>>)
    ensures
        null_count_spec(values) <= values.len(),
    decreases values.len(),
{
    if values.len() > 0 {
        lemma_null_count_bound(values.drop_last());
    }
}

fn owned(s: &str) -> (r: String)
    ensures
        r@ == s@,
{
    s.to_owned()
}

fn skipped_not_string() -> (r: ValidationReport)
    ensures
        report_is(r, "skipped"@, Some("column is not a string type"@)),
{
    ValidationReport { status: "skipped", details: Some(owned("column is not a string type")) }
}

fn pass_report() -> (r: ValidationReport)
    ensures
        report_is(r, "pass"@, None),
{
    ValidationReport { status: "pass", details: None }
}

/// `null_count=<n>` for a null count.
pub fn not_null_report(nulls: usize) -> (r: ValidationReport)
    ensures
        nulls > 0 ==> report_is(r, "fail"@, Some("null_count="@ + decimal(nulls as nat))),
        nulls == 0 ==> report_is(r, "pass"@, None),
{
    if nulls > 0 {
        let mut d = String::new();
        push_str(&mut d, "null_count=");
        push_decimal(&mut d, nulls);
        ValidationReport { status: "fail", details: Some(d) }
    } else {
        pass_report()
    }
}

/// Number of null values of a column.
pub fn null_count(values: &Vec<Option<String>>) -> (n: usize)
    ensures
        n == null_count_spec(values_of(values@)),
{
    let mut n: usize = 0;
    let mut i: usize = 0;
    while i < values.len()
        invariant
            i <= values@.len(),
            n == null_count_spec(values_of(values@.take(i as int))),
        decreases values@.len() - i,
    {
        proof {
            assert(values_of(values@.take(i + 1)).drop_last() =~= values_of(values@.take(i as int)));
            lemma_null_count_bound(values_of(values@.take(i as int)));
        }
        if values[i].is_none() {
            n = n + 1;
        }
        i = i + 1;
    }
    assert(values@.take(values@.len() as int) =~= values@);
    n
}

/// Reports with the bad count and a suffix.
fn fail_with_count(bad: usize, suffix_label: &str, suffix: &str) -> (r: ValidationReport)
    requires
        bad > 0,
    ensures
        report_is(r, "fail"@, Some("bad_count="@ + decimal(bad as nat) + suffix_label@ + suffix@)),
{
    let mut d = String::new();
    push_str(&mut d, "bad_count=");
    push_decimal(&mut d, bad);
    push_str(&mut d, suffix_label);
    push_str(&mut d, suffix);
    ValidationReport { status: "fail", details: Some(d) }
}

/// Lower-cases ASCII letters and leaves every other character alone.
pub open spec fn ascii_lower(c: char) -> char {
    if 'A' <= c && c <= 'Z' {
        ((c as u32) + 32) as char
    } else {
        c
    }
}

/// The words a boolean column may hold, in lower case.
pub open spec fn boolean_words() -> Seq<Seq<char>> {
    seq!["true"@, "false"@, "1"@, "0"@, "t"@, "f"@, "yes"@, "no"@, "y"@, "n"@]
}

/// `v`, lower-cased, is one of the boolean words. (Lower-casing a non-ASCII
/// character never yields one of the ASCII letters these words use, so
/// ASCII lower-casing decides this exactly as `str::to_lowercase` does.)
pub open spec fn is_boolean_word(v: Seq<char>) -> bool {
    exists|k: int|
        0 <= k < boolean_words().len() && #[trigger] boolean_words()[k].len() == v.len() && forall|
            i: int,
        |
            0 <= i < v.len() ==> ascii_lower(v[i]) == boolean_words()[k][i]
}

fn ascii_lower_exec(c: char) -> (r: char)
    ensures
        r == ascii_lower(c),
{
    if 'A' <= c && c <= 'Z' {
        let u = c as u32;
        assert(65 <= u <= 90);
        let b = u as u8;
        assert(b == u);
        (b + 32u8) as char
    } else {
        c
    }
}

/// `v`, with ASCII letters lower-cased, is `w`.
pub open spec fn ci_equal(v: Seq<char>, w: Seq<char>) -> bool {
    w.len() == v.len() && forall|i: int| 0 <= i < v.len() ==> ascii_lower(v[i]) == w[i]
}

/// A value is a boolean literal exactly when, with its ASCII letters
/// lower-cased, it is one of the ten words `true`, `false`, `1`, `0`, `t`,
/// `f`, `yes`, `no`, `y`, `n`; any other text is not.
pub proof fn boolean_literals_are_the_ten_words(v: Seq<char>)
    ensures
        is_boolean_word(v) <==> (ci_equal(v, "true"@)
            || ci_equal(v, "false"@)
            || ci_equal(v, "1"@)
            || ci_equal(v, "0"@)
            || ci_equal(v, "t"@)
            || ci_equal(v, "f"@)
            || ci_equal(v, "yes"@)
            || ci_equal(v, "no"@)
            || ci_equal(v, "y"@)
            || ci_equal(v, "n"@)),
{
    let b = boolean_words();
    assert(b.len() == 10);
    assert(b[0] == "true"@);
    if ci_equal(v, "true"@) {
        assert(b[0].len() == v.len());
    }
    assert(b[1] == "false"@);
    if ci_equal(v, "false"@) {
        assert(b[1].len() == v.len());
    }
    assert(b[2] == "1"@);
    if ci_equal(v, "1"@) {
        assert(b[2].len() == v.len());
    }
    assert(b[3] == "0"@);
    if ci_equal(v, "0"@) {
        assert(b[3].len() == v.len());
    }
    assert(b[4] == "t"@);
    if ci_equal(v, "t"@) {
        assert(b[4].len() == v.len());
    }
    assert(b[5] == "f"@);
    if ci_equal(v, "f"@) {
        assert(b[5].len() == v.len());
    }
    assert(b[6] == "yes"@);
    if ci_equal(v, "yes"@) {
        assert(b[6].len() == v.len());
    }
    assert(b[7] == "no"@);
    if ci_equal(v, "no"@) {
        assert(b[7].len() == v.len());
    }
    assert(b[8] == "y"@);
    if ci_equal(v, "y"@) {
        assert(b[8].len() == v.len());
    }
    assert(b[9] == "n"@);
    if ci_equal(v, "n"@) {
        assert(b[9].len() == v.len());
    }
    if is_boolean_word(v) {
        let k = choose|k: int|
            0 <= k < b.len() && #[trigger] b[k].len() == v.len() && forall|i: int|
                0 <= i < v.len() ==> ascii_lower(v[i]) == b[k][i];
        assert(ci_equal(v, b[k]));
    }
}

/// Whether `v`, with ASCII letters lower-cased, is `w`.
pub fn matches_word_ci(v: &[char], w: &[char]) -> (b: bool)
    ensures
        b == ci_equal(v@, w@),
{
    if v.len() != w.len() {
        return false;
    }
    let mut i: usize = 0;
    while i < v.len()
        invariant
            v@.len() == w@.len(),
            i <= v@.len(),
            forall|k: int| 0 <= k < i ==> ascii_lower(v@[k]) == w@[k],
        decreases v@.len() - i,
    {
        if ascii_lower_exec(v[i]) != w[i] {
            return false;
        }
        i = i + 1;
    }
    true
}

fn boolean_word_at(k: usize) -> (r: &'static str)
    requires
        k < 10,
    ensures
        r@ == boolean_words()[k as int],
{
    if k == 0 {
        "true"
    } else if k == 1 {
        "false"
    } else if k == 2 {
        "1"
    } else if k == 3 {
        "0"
    } else if k == 4 {
        "t"
    } else if k == 5 {
        "f"
    } else if k == 6 {
        "yes"
    } else if k == 7 {
        "no"
    } else if k == 8 {
        "y"
    } else {
        "n"
    }
}

/// Whether a text is a boolean literal (`true`, `false`, `1`, `0`, `t`, `f`,
/// `yes`, `no`, `y`, `n`, in any ASCII case).
pub fn is_boolean_literal(v: &str) -> (b: bool)
    ensures
        b == is_boolean_word(v@),
{
    let vc = chars_of(v);
    let mut k: usize = 0;
    while k < 10
        invariant
            k <= 10,
            vc@ == v@,
            forall|j: int|
                0 <= j < k ==> !(#[trigger] boolean_words()[j].len() == v@.len() && forall|i: int|
                    0 <= i < v@.len() ==> ascii_lower(v@[i]) == boolean_words()[j][i]),
        decreases 10 - k,
    {
        let w = chars_of(boolean_word_at(k));
        if matches_word_ci(&vc, &w) {
            assert(boolean_words()[k as int].len() == v@.len());
            return true;
        }
        k = k + 1;
    }
    assert(boolean_words().len() == 10);
    false
}

} // verus!

verus! {

/// Whether `haystack` has a match of the regular expression `pattern`
/// (`regex::Regex::is_match`).
pub uninterp spec fn regex_finds(pattern: Seq<char>, haystack: Seq<char>) -> bool;

/// Whether `pattern` compiles as a regular expression (`regex::Regex::new`).
pub uninterp spec fn regex_compiles(pattern: Seq<char>) -> bool;

/// Whether `text` parses as a date and time in `format`
/// (`chrono::NaiveDateTime::parse_from_str`).
pub uninterp spec fn datetime_parses(text: Seq<char>, format: Seq<char>) -> bool;

/// `regex::Regex`.
#[verifier::external_type_specification]
#[verifier::external_body]
pub struct ExRegex(regex::Regex);

/// A compiled regular expression together with its source pattern.
pub struct CompiledPattern {
    regex: regex::Regex,
    source: Ghost<Seq<char>>,
}

impl CompiledPattern {
    /// The pattern this was compiled from.
    pub closed spec fn source(&self) -> Seq<char> {
        self.source@
    }

    /// Compiles `pattern` with `regex::Regex::new`.
    /// Claims: compilation succeeds exactly when `regex_compiles` holds of the
    /// pattern, and the result remembers the pattern it was made from.
    #[verifier::external_body]
    pub(crate) fn compile(pattern: &str) -> (r: Result<CompiledPattern, regex::Error>)
        ensures
            r is Ok <==> regex_compiles(pattern@),
            r matches Ok(p) ==> p.source() == pattern@,
    {
        match regex::Regex::new(pattern) {
            Ok(regex) => Ok(CompiledPattern { regex, source: Ghost(pattern@) }),
            Err(e) => Err(e),
        }
    }

    /// `regex::Regex::is_match` on `text`.
    /// Claims: the result is `regex_finds` of the source pattern and the text.
    #[verifier::external_body]
    pub(crate) fn is_match(&self, text: &str) -> (b: bool)
        ensures
            b == regex_finds(self.source(), text@),
    {
        self.regex.is_match(text)
    }
}

/// Whether `text` parses as a date and time in `format`, by
/// `chrono::NaiveDateTime::parse_from_str`.
/// Claims: the result is `datetime_parses` of the text and the format.
#[verifier::external_body]
pub(crate) fn parses_as_datetime(text: &str, format: &str) -> (b: bool)
    ensures
        b == datetime_parses(text@, format@),
{
    chrono::NaiveDateTime::parse_from_str(text, format).is_ok()
}

fn count_bad<F: Fn(&str) -> bool>(
    values: &Vec<Option<String>>,
    f: &F,
    Ghost(ok): Ghost<spec_fn(Seq<char>) -> bool>,
) -> (n: usize)
    requires
        forall|s: &str| f.requires((s,)),
        forall|s: &str, b: bool| f.ensures((s,), b) ==> b == ok(s@),
    ensures
        n == bad_count_spec(values_of(values@), ok),
{
    let mut n: usize = 0;
    let mut i: usize = 0;
    while i < values.len()
        invariant
            i <= values@.len(),
            forall|s: &str| f.requires((s,)),
            forall|s: &str, b: bool| f.ensures((s,), b) ==> b == ok(s@),
            n == bad_count_spec(values_of(values@.take(i as int)), ok),
        decreases values@.len() - i,
    {
        proof {
            assert(values_of(values@.take(i + 1)).drop_last() =~= values_of(values@.take(i as int)));
            lemma_bad_count_bound(values_of(values@.take(i as int)), ok);
        }
        match &values[i] {
            Some(v) => {
                if !f(v.as_str()) {
                    n = n + 1;
                }
            },
            None => {},
        }
        i = i + 1;
    }
    assert(values@.take(values@.len() as int) =~= values@);
    n
}

/// The predicate the boolean rule checks.
pub open spec fn boolean_ok() -> spec_fn(Seq<char>) -> bool {
    |v: Seq<char>| is_boolean_word(v)
}

/// The predicate the set-membership rule checks.
pub open spec fn in_set_ok(allowed: Seq<Seq<char>>) -> spec_fn(Seq<char>) -> bool {
    |v: Seq<char>| allowed.contains(v)
}

/// The predicate the pattern rule checks.
pub open spec fn pattern_ok(pattern: Seq<char>) -> spec_fn(Seq<char>) -> bool {
    |v: Seq<char>| regex_finds(pattern, v)
}

/// The predicate the date-format rule checks.
pub open spec fn date_ok(format: Seq<char>) -> spec_fn(Seq<char>) -> bool {
    |v: Seq<char>| datetime_parses(v, format)
}

/// Validators of a single column.
pub trait Validator {
    /// Name of the rule.
    fn name(&self) -> &'static str;

    /// Applies the rule to a column.
    fn validate(&self, column: &ColumnView) -> Result<ValidationReport, ValidationError>;
}

/// No value may be null.
pub struct NotNullValidator;

/// Every non-null value must be a boolean literal; only string columns.
pub struct BooleanValidator;

/// Every non-null value must be one of `values`; only string columns.
pub struct InSetValidator {
    pub values: Vec<String>,
}

/// Every non-null value must contain a match of `pattern`; only string
/// columns.
pub struct PatternValidator {
    pub pattern: String,
}

/// Every non-null value must parse as a date and time in `format`; only
/// string columns.
pub struct DateFormatValidator {
    pub format: String,
}

impl Validator for NotNullValidator {
    fn name(&self) -> (r: &'static str)
        ensures
            r@ == "NotNull"@,
    {
        "NotNull"
    }

    fn validate(&self, column: &ColumnView) -> (r: Result<ValidationReport, ValidationError>)
        ensures
            r matches Ok(rep) && ({
                let nulls = null_count_spec(values_of(column.values@));
                &&& nulls > 0 ==> report_is(rep, "fail"@, Some("null_count="@ + decimal(nulls)))
                &&& nulls == 0 ==> report_is(rep, "pass"@, None)
            }),
    {
        Ok(not_null_report(null_count(&column.values)))
    }
}

impl Validator for BooleanValidator {
    fn name(&self) -> (r: &'static str)
        ensures
            r@ == "Boolean"@,
    {
        "Boolean"
    }

    fn validate(&self, column: &ColumnView) -> (r: Result<ValidationReport, ValidationError>)
        ensures
            r matches Ok(rep) && string_rule_report(
                rep,
                column.is_string,
                bad_count_spec(values_of(column.values@), boolean_ok()),
                ""@,
            ),
    {
        if !column.is_string {
            return Ok(skipped_not_string());
        }
        let check = |s: &str| -> (b: bool)
            ensures
                b == is_boolean_word(s@),
            { is_boolean_literal(s) };
        let bad = count_bad(&column.values, &check, Ghost(boolean_ok()));
        if bad > 0 {
            let r = fail_with_count(bad, "", "");
            assert("bad_count="@ + decimal(bad as nat) + ""@ + ""@ =~= "bad_count="@ + decimal(bad as nat) + ""@) by {
                reveal_strlit("");
            }
            Ok(r)
        } else {
            Ok(pass_report())
        }
    }
}

} // verus!

verus! {

/// Whether `s` is one of the strings in `allowed`.
pub fn contains_string(allowed: &Vec<String>, s: &str) -> (b: bool)
    ensures
        b == crate::text::string_views(allowed@).contains(s@),
{
    let sc = chars_of(s);
    let mut i: usize = 0;
    while i < allowed.len()
        invariant
            i <= allowed@.len(),
            sc@ == s@,
            forall|j: int| 0 <= j < i ==> allowed@[j]@ != s@,
        decreases allowed@.len() - i,
    {
        let a = chars_of(allowed[i].as_str());
        if chars_eq(&a, &sc) {
            assert(crate::text::string_views(allowed@)[i as int] == s@);
            return true;
        }
        i = i + 1;
    }
    assert forall|j: int| 0 <= j < allowed@.len() implies crate::text::string_views(allowed@)[j] != s@ by {
        assert(crate::text::string_views(allowed@)[j] == allowed@[j]@);
    }
    false
}

impl Validator for InSetValidator {
    fn name(&self) -> (r: &'static str)
        ensures
            r@ == "InSet"@,
    {
        "InSet"
    }

    fn validate(&self, column: &ColumnView) -> (r: Result<ValidationReport, ValidationError>)
        ensures
            r matches Ok(rep) && string_rule_report(
                rep,
                column.is_string,
                bad_count_spec(
                    values_of(column.values@),
                    in_set_ok(crate::text::string_views(self.values@)),
                ),
                ""@,
            ),
    {
        if !column.is_string {
            return Ok(skipped_not_string());
        }
        let allowed = &self.values;
        let check = |s: &str| -> (b: bool)
            ensures
                b == crate::text::string_views(allowed@).contains(s@),
            { contains_string(allowed, s) };
        let bad = count_bad(&column.values, &check, Ghost(in_set_ok(crate::text::string_views(self.values@))));
        if bad > 0 {
            let r = fail_with_count(bad, "", "");
            assert("bad_count="@ + decimal(bad as nat) + ""@ + ""@ =~= "bad_count="@ + decimal(bad as nat) + ""@) by {
                reveal_strlit("");
            }
            Ok(r)
        } else {
            Ok(pass_report())
        }
    }
}

impl Validator for PatternValidator {
    fn name(&self) -> (r: &'static str)
        ensures
            r@ == "Pattern"@,
    {
        "Pattern"
    }

    /// The pattern is compiled first: an invalid pattern is an error for any
    /// column.
    fn validate(&self, column: &ColumnView) -> (r: Result<ValidationReport, ValidationError>)
        ensures
            !regex_compiles(self.pattern@) <==> r matches Err(ValidationError::Regex(_)),
            regex_compiles(self.pattern@) ==> (r matches Ok(rep) && string_rule_report(
                rep,
                column.is_string,
                bad_count_spec(values_of(column.values@), pattern_ok(self.pattern@)),
                ", pattern="@ + self.pattern@,
            )),
    {
        let re = match CompiledPattern::compile(self.pattern.as_str()) {
            Ok(re) => re,
            Err(e) => {
                return Err(ValidationError::Regex(e));
            },
        };
        if !column.is_string {
            return Ok(skipped_not_string());
        }
        let check = |s: &str| -> (b: bool)
            ensures
                b == regex_finds(re.source(), s@),
            { re.is_match(s) };
        let bad = count_bad(&column.values, &check, Ghost(pattern_ok(self.pattern@)));
        if bad > 0 {
            let r = fail_with_count(bad, ", pattern=", self.pattern.as_str());
            assert("bad_count="@ + decimal(bad as nat) + ", pattern="@ + self.pattern@ =~= "bad_count="@
                + decimal(bad as nat) + (", pattern="@ + self.pattern@));
            Ok(r)
        } else {
            Ok(pass_report())
        }
    }
}

impl Validator for DateFormatValidator {
    fn name(&self) -> (r: &'static str)
        ensures
            r@ == "DateFormat"@,
    {
        "DateFormat"
    }

    fn validate(&self, column: &ColumnView) -> (r: Result<ValidationReport, ValidationError>)
        ensures
            r matches Ok(rep) && string_rule_report(
                rep,
                column.is_string,
                bad_count_spec(values_of(column.values@), date_ok(self.format@)),
                ", format="@ + self.format@,
            ),
    {
        if !column.is_string {
            return Ok(skipped_not_string());
        }
        let format = self.format.as_str();
        let check = |s: &str| -> (b: bool)
            ensures
                b == datetime_parses(s@, format@),
            { parses_as_datetime(s, format) };
        let bad = count_bad(&column.values, &check, Ghost(date_ok(self.format@)));
        if bad > 0 {
            let r = fail_with_count(bad, ", format=", format);
            assert("bad_count="@ + decimal(bad as nat) + ", format="@ + format@ =~= "bad_count="@
                + decimal(bad as nat) + (", format="@ + format@));
            Ok(r)
        } else {
            Ok(pass_report())
        }
    }
}

} // verus!

verus! {

/// `format!("{:?}", list)` of a list of strings (`Debug` for `Vec<String>`).
pub uninterp spec fn debug_strings(list: Seq<Seq<char>>) -> Seq<char>;

/// `Debug` rendering of a list of strings, as `format!("{:?}", list)`.
/// Claims: the result is `debug_strings` of the strings.
#[verifier::external_body]
pub(crate) fn debug_string_list(list: &Vec<String>) -> (s: String)
    ensures
        s@ == debug_strings(crate::text::string_views(list@)),
{
    format!("{:?}", list)
}

/// A row of key values as plain values.
pub open spec fn row_of(row: Vec<Option<String>>) -> Seq<Option<Seq<char>>> {
    values_of(row@)
}

/// Rows of key values as plain values.
pub open spec fn rows_of(rows: Seq<Vec<Option<String>>>) -> Seq<Seq<Option<Seq<char>>>> {
    rows.map_values(|r: Vec<Option<String>>| row_of(r))
}

/// Number of distinct rows: each row counts unless an earlier row is equal.
pub open spec fn distinct_rows(rows: Seq<Seq<Option<Seq<char>>>>) -> nat
    decreases rows.len(),
{
    if rows.len() == 0 {
        0
    } else {
        distinct_rows(rows.drop_last()) + if rows.drop_last().contains(rows.last()) {
            0nat
        } else {
            1nat
        }
    }
}

proof fn lemma_distinct_bound(rows: Seq<Seq<Option<Seq<char>>>>)
    ensures
        distinct_rows(rows) <= rows.len(),
    decreases rows.len(),
{
    if rows.len() > 0 {
        lemma_distinct_bound(rows.drop_last());
    }
}

fn opt_eq(a: &Option<String>, b: &Option<String>) -> (r: bool)
    ensures
        r == (values_of(seq![*a])[0] == values_of(seq![*b])[0]),
{
    match (a, b) {
        (Some(x), Some(y)) => {
            let xc = chars_of(x.as_str());
            let yc = chars_of(y.as_str());
            chars_eq(&xc, &yc)
        },
        (None, None) => true,
        _ => false,
    }
}

fn rows_equal(a: &Vec<Option<String>>, b: &Vec<Option<String>>) -> (r: bool)
    ensures
        r == (row_of(*a) == row_of(*b)),
{
    if a.len() != b.len() {
        assert(row_of(*a).len() != row_of(*b).len());
        return false;
    }
    let mut i: usize = 0;
    while i < a.len()
        invariant
            a@.len() == b@.len(),
            i <= a@.len(),
            forall|k: int| 0 <= k < i ==> row_of(*a)[k] == row_of(*b)[k],
        decreases a@.len() - i,
    {
        assert(values_of(seq![a@[i as int]])[0] == row_of(*a)[i as int]);
        assert(values_of(seq![b@[i as int]])[0] == row_of(*b)[i as int]);
        if !opt_eq(&a[i], &b[i]) {
            return false;
        }
        i = i + 1;
    }
    assert(row_of(*a) =~= row_of(*b));
    true
}

/// Number of distinct rows.
pub fn count_distinct_rows(rows: &Vec<Vec<Option<String>>>) -> (n: usize)
    ensures
        n == distinct_rows(rows_of(rows@)),
{
    let mut n: usize = 0;
    let mut i: usize = 0;
    while i < rows.len()
        invariant
            i <= rows@.len(),
            n == distinct_rows(rows_of(rows@.take(i as int))),
        decreases rows@.len() - i,
    {
        let ghost prefix = rows_of(rows@.take(i as int));
        proof {
            assert(rows_of(rows@.take(i + 1)).drop_last() =~= prefix);
            assert(rows_of(rows@.take(i + 1)).last() == row_of(rows@[i as int]));
            lemma_distinct_bound(prefix);
        }
        let mut seen = false;
        let mut j: usize = 0;
        while j < i
            invariant
                j <= i,
                i < rows@.len(),
                prefix == rows_of(rows@.take(i as int)),
                seen == exists|k: int| 0 <= k < j && prefix[k] == row_of(rows@[i as int]),
            decreases i - j,
        {
            assert(prefix[j as int] == row_of(rows@[j as int]));
            if rows_equal(&rows[j], &rows[i]) {
                seen = true;
            }
            j = j + 1;
        }
        assert(seen == prefix.contains(row_of(rows@[i as int])));
        if !seen {
            n = n + 1;
        }
        i = i + 1;
    }
    assert(rows@.take(rows@.len() as int) =~= rows@);
    n
}

/// Validators of a whole file, given as its columns.
pub trait FileValidator {
    /// Name of the rule.
    fn name(&self) -> &'static str;

    /// Applies the rule to the file's columns.
    fn validate(&self, columns: &Vec<ColumnView>) -> Result<ValidationReport, ValidationError>;
}

/// Validators over several columns.
pub trait CompoundValidator {
    /// Name of the rule.
    fn name(&self) -> &'static str;

    /// Applies the rule to the rows of the key columns.
    fn validate(&self, rows: &Vec<Vec<Option<String>>>) -> Result<ValidationReport, ValidationError>;
}

/// The combination of `columns` must be unique: no two rows may agree on all
/// of them.
pub struct CompoundUniqueValidator {
    pub columns: Vec<String>,
}

impl CompoundValidator for CompoundUniqueValidator {
    fn name(&self) -> (r: &'static str)
        ensures
            r@ == "CompoundUnique"@,
    {
        "CompoundUnique"
    }

    /// `rows` holds, for each row of the data, the values of `columns`.
    fn validate(&self, rows: &Vec<Vec<Option<String>>>) -> (r: Result<ValidationReport, ValidationError>)
        ensures
            r matches Ok(rep) && ({
                let total = rows@.len();
                let distinct = distinct_rows(rows_of(rows@));
                let cols = debug_strings(crate::text::string_views(self.columns@));
                if distinct == total {
                    report_is(rep, "pass"@, Some("columns="@ + cols + ", rows="@ + decimal(total)))
                } else {
                    report_is(
                        rep,
                        "fail"@,
                        Some(
                            "columns="@ + cols + ", rows="@ + decimal(total) + ", distinct="@
                                + decimal(distinct),
                        ),
                    )
                }
            }),
    {
        let total = rows.len();
        let distinct = count_distinct_rows(rows);
        let cols = debug_string_list(&self.columns);
        let mut d = String::new();
        push_str(&mut d, "columns=");
        push_str(&mut d, cols.as_str());
        push_str(&mut d, ", rows=");
        push_decimal(&mut d, total);
        if distinct == total {
            Ok(ValidationReport { status: "pass", details: Some(d) })
        } else {
            push_str(&mut d, ", distinct=");
            push_decimal(&mut d, distinct);
            Ok(ValidationReport { status: "fail", details: Some(d) })
        }
    }
}

} // verus!
