//! Applying a contract's column rules to the columns of a data file.

use crate::audit::RuleResult;
use crate::connectors::is_other;
use crate::contracts::{ColumnContracts, ColumnRule, CompoundUnique, SchemaContracts};
use crate::error::ValidationError;
use crate::text::{chars_of, decimal, push_str, string_views};
use crate::validators::{
    bad_count_spec, boolean_ok, date_ok, debug_strings, distinct_rows, in_set_ok, null_count_spec, pattern_ok,
    regex_compiles, row_of, rows_of, values_of, BooleanValidator, ColumnView, CompoundUniqueValidator,
    CompoundValidator, DateFormatValidator, InSetValidator, NotNullValidator, PatternValidator,
    ValidationReport, Validator,
};
use crate::verify::chars_eq;
use vstd::prelude::*;

verus! {

/// The rules of the columns, in order, each with its column's name.
pub open spec fn rule_list(cols: Seq<ColumnContracts>) -> Seq<(Seq<char>, ColumnRule)>
    decreases cols.len(),
{
    if cols.len() == 0 {
        seq![]
    } else {
        rule_list(cols.drop_last()) + cols.last().validation@.map_values(
            |r: ColumnRule| (cols.last().name@, r),
        )
    }
}

/// The first column called `name`.
pub open spec fn find_column(table: Seq<ColumnView>, name: Seq<char>) -> Option<ColumnView>
    decreases table.len(),
{
    if table.len() == 0 {
        None
    } else if table[0].name@ == name {
        Some(table[0])
    } else {
        find_column(table.drop_first(), name)
    }
}

/// The name a rule reports under.
pub open spec fn rule_name(rule: ColumnRule) -> Seq<char> {
    match rule {
        ColumnRule::NotNull => "NotNull"@,
        ColumnRule::Boolean => "Boolean"@,
        ColumnRule::InSet { .. } => "InSet"@,
        ColumnRule::Pattern { .. } => "Pattern"@,
        ColumnRule::DateFormat { .. } => "DateFormat"@,
    }
}

/// The status and details of a rule on a string-only check: skipped for a
/// column that is not of a string type, failed with the count of bad values,
/// or passed.
pub open spec fn string_rule_outcome(is_string: bool, bad: nat, suffix: Seq<char>) -> (Seq<char>, Option<Seq<char>>) {
    if !is_string {
        ("skipped"@, Some("column is not a string type"@))
    } else if bad > 0 {
        ("fail"@, Some("bad_count="@ + decimal(bad) + suffix))
    } else {
        ("pass"@, None)
    }
}

/// The status and details that a rule gives on a column (for a pattern that
/// compiles).
pub open spec fn rule_outcome(rule: ColumnRule, c: ColumnView) -> (Seq<char>, Option<Seq<char>>) {
    let vals = values_of(c.values@);
    match rule {
        ColumnRule::NotNull => {
            let nulls = null_count_spec(vals);
            if nulls > 0 {
                ("fail"@, Some("null_count="@ + decimal(nulls)))
            } else {
                ("pass"@, None)
            }
        },
        ColumnRule::Boolean => string_rule_outcome(c.is_string, bad_count_spec(vals, boolean_ok()), ""@),
        ColumnRule::InSet { values } => string_rule_outcome(
            c.is_string,
            bad_count_spec(vals, in_set_ok(string_views(values@))),
            ""@,
        ),
        ColumnRule::Pattern { pattern } => string_rule_outcome(
            c.is_string,
            bad_count_spec(vals, pattern_ok(pattern@)),
            ", pattern="@ + pattern@,
        ),
        ColumnRule::DateFormat { format } => string_rule_outcome(
            c.is_string,
            bad_count_spec(vals, date_ok(format@)),
            ", format="@ + format@,
        ),
    }
}

/// A rule can be applied to the table: its column is there, and a pattern
/// rule's pattern compiles.
pub open spec fn rule_applies(entry: (Seq<char>, ColumnRule), table: Seq<ColumnView>) -> bool {
    &&& find_column(table, entry.0) is Some
    &&& entry.1 matches ColumnRule::Pattern { pattern } ==> regex_compiles(pattern@)
}

/// `rr` is the result of the rule `entry` on the table.
pub open spec fn result_is(rr: RuleResult, entry: (Seq<char>, ColumnRule), table: Seq<ColumnView>) -> bool {
    let out = rule_outcome(entry.1, find_column(table, entry.0).unwrap());
    &&& rr.column@ == entry.0
    &&& rr.rule@ == rule_name(entry.1)
    &&& rr.result@ == out.0
    &&& match rr.details {
        Some(d) => out.1 == Some(d@),
        None => out.1 is None,
    }
}

/// The error for the rule `entry`, which does not apply: a missing column, or
/// else a pattern that does not compile.
pub open spec fn rule_error(e: ValidationError, entry: (Seq<char>, ColumnRule), table: Seq<ColumnView>) -> bool {
    if find_column(table, entry.0) is None {
        is_other(e, "column not found: "@ + entry.0)
    } else {
        e is Regex
    }
}

fn find_column_exec<'a>(table: &'a Vec<ColumnView>, name: &str) -> (r: Option<&'a ColumnView>)
    ensures
        match r {
            Some(c) => find_column(table@, name@) == Some(*c),
            None => find_column(table@, name@) is None,
        },
{
    let n = chars_of(name);
    let mut i: usize = 0;
    assert(table@.skip(0) =~= table@);
    while i < table.len()
        invariant
            i <= table@.len(),
            n@ == name@,
            find_column(table@, name@) == find_column(table@.skip(i as int), name@),
        decreases table@.len() - i,
    {
        let ghost rest = table@.skip(i as int);
        assert(rest.drop_first() =~= table@.skip(i + 1));
        let k = chars_of(table[i].name.as_str());
        if chars_eq(&k, &n) {
            return Some(&table[i]);
        }
        i = i + 1;
    }
    assert(table@.skip(i as int) =~= seq![]);
    None
}

fn to_result(column: &String, rule: &str, rep: ValidationReport) -> (rr: RuleResult)
    ensures
        rr.column@ == column@,
        rr.rule@ == rule@,
        rr.result@ == rep.status@,
        rr.details == rep.details,
{
    RuleResult { column: column.clone(), rule: rule.to_owned(), result: rep.status.to_owned(), details: rep.details }
}

/// Applies one rule to its column.
fn apply_rule(name: &String, rule: &ColumnRule, table: &Vec<ColumnView>) -> (r: Result<RuleResult, ValidationError>)
    ensures
        match r {
            Ok(rr) => rule_applies((name@, *rule), table@) && result_is(rr, (name@, *rule), table@),
            Err(e) => !rule_applies((name@, *rule), table@) && rule_error(e, (name@, *rule), table@),
        },
{
    let c = match find_column_exec(table, name.as_str()) {
        Some(c) => c,
        None => {
            let mut m = String::new();
            push_str(&mut m, "column not found: ");
            push_str(&mut m, name.as_str());
            return Err(ValidationError::Other(m));
        },
    };
    let rep = match rule {
        ColumnRule::NotNull => NotNullValidator.validate(c),
        ColumnRule::Boolean => BooleanValidator.validate(c),
        ColumnRule::InSet { values } => {
            let v = InSetValidator { values: values.clone() };
            assert(string_views(v.values@) == string_views(values@));
            v.validate(c)
        },
        ColumnRule::Pattern { pattern } => PatternValidator { pattern: pattern.clone() }.validate(c),
        ColumnRule::DateFormat { format } => DateFormatValidator { format: format.clone() }.validate(c),
    };
    let label = match rule {
        ColumnRule::NotNull => "NotNull",
        ColumnRule::Boolean => "Boolean",
        ColumnRule::InSet { .. } => "InSet",
        ColumnRule::Pattern { .. } => "Pattern",
        ColumnRule::DateFormat { .. } => "DateFormat",
    };
    match rep {
        Ok(rep) => Ok(to_result(name, label, rep)),
        Err(e) => Err(e),
    }
}

/// Applies the column rules of a contract to the columns of a data file,
/// rule by rule in the contract's order, each result under its column and
/// rule name; the first rule that cannot be applied (its column is missing,
/// or its pattern does not compile) is an error.
pub fn apply_string_rules(contract: &SchemaContracts, columns: &Vec<ColumnView>) -> (r: Result<Vec<RuleResult>, ValidationError>)
    ensures
        match r {
            Ok(v) => {
                let rules = rule_list(contract.columns@);
                &&& v@.len() == rules.len()
                &&& forall|k: int| 0 <= k < rules.len() ==> rule_applies(rules[k], columns@)
                &&& forall|k: int| 0 <= k < rules.len() ==> result_is(v@[k], rules[k], columns@)
            },
            Err(e) => {
                let rules = rule_list(contract.columns@);
                exists|k: int|
                    0 <= k < rules.len() && (forall|j: int| 0 <= j < k ==> rule_applies(rules[j], columns@))
                        && !rule_applies(rules[k], columns@) && rule_error(e, rules[k], columns@)
            },
        },
{
    let cols = &contract.columns;
    let mut out: Vec<RuleResult> = Vec::new();
    let mut i: usize = 0;
    assert(cols@.take(0) =~= seq![]);
    while i < cols.len()
        invariant
            i <= cols@.len(),
            cols@ == contract.columns@,
            out@.len() == rule_list(cols@.take(i as int)).len(),
            forall|k: int|
                0 <= k < out@.len() ==> rule_applies(rule_list(cols@.take(i as int))[k], columns@),
            forall|k: int|
                0 <= k < out@.len() ==> result_is(out@[k], rule_list(cols@.take(i as int))[k], columns@),
        decreases cols@.len() - i,
    {
        let col = &cols[i];
        let ghost pre = rule_list(cols@.take(i as int));
        let ghost mine = col.validation@.map_values(|r: ColumnRule| (col.name@, r));
        assert(cols@.take(i + 1).drop_last() =~= cols@.take(i as int));
        assert(rule_list(cols@.take(i + 1)) == pre + mine);
        let mut j: usize = 0;
        while j < col.validation.len()
            invariant
                j <= col.validation@.len(),
                i < cols@.len(),
                cols@ == contract.columns@,
                col == cols@[i as int],
                rule_list(cols@.take(i + 1)) == pre + mine,
                mine == col.validation@.map_values(|r: ColumnRule| (col.name@, r)),
                out@.len() == pre.len() + j,
                forall|k: int| 0 <= k < out@.len() ==> rule_applies((pre + mine)[k], columns@),
                forall|k: int| 0 <= k < out@.len() ==> result_is(out@[k], (pre + mine)[k], columns@),
            decreases col.validation@.len() - j,
        {
            assert((pre + mine)[pre.len() + j] == (col.name@, col.validation@[j as int]));
            match apply_rule(&col.name, &col.validation[j], columns) {
                Ok(rr) => {
                    out.push(rr);
                },
                Err(e) => {
                    proof {
                        let rules = rule_list(contract.columns@);
                        let k = pre.len() + j;
                        assert(contract.columns@.take(contract.columns@.len() as int) =~= contract.columns@);
                        lemma_rule_list_prefix(contract.columns@, i as int + 1);
                        assert(rules.take((pre + mine).len() as int) == pre + mine);
                        assert(rules.take(k + 1) =~= (pre + mine).take(k + 1));
                        assert(rules[k] == (pre + mine)[k]);
                        assert forall|jj: int| 0 <= jj < k implies rule_applies(rules[jj], columns@) by {
                            assert(rules[jj] == rules.take(k + 1)[jj]);
                        }
                    }
                    return Err(e);
                },
            }
            j = j + 1;
        }
        assert(mine.len() == col.validation@.len());
        i = i + 1;
    }
    assert(cols@.take(cols@.len() as int) =~= cols@);
    Ok(out)
}

proof fn lemma_rule_list_prefix(cols: Seq<ColumnContracts>, i: int)
    requires
        0 <= i <= cols.len(),
    ensures
        rule_list(cols.take(i)).len() <= rule_list(cols).len(),
        rule_list(cols).take(rule_list(cols.take(i)).len() as int) == rule_list(cols.take(i)),
    decreases cols.len() - i,
{
    if i == cols.len() {
        assert(cols.take(i) =~= cols);
        assert(rule_list(cols).take(rule_list(cols).len() as int) =~= rule_list(cols));
    } else {
        lemma_rule_list_prefix(cols, i + 1);
        let a = rule_list(cols.take(i));
        let b = rule_list(cols.take(i + 1));
        assert(cols.take(i + 1).drop_last() =~= cols.take(i));
        assert(b == a + cols.take(i + 1).last().validation@.map_values(
            |r: ColumnRule| (cols.take(i + 1).last().name@, r),
        ));
        assert(b.take(a.len() as int) =~= a);
        assert(rule_list(cols).take(a.len() as int) =~= b.take(a.len() as int));
    }
}

/// The key columns named `names`, in order; the first name without a
/// column otherwise.
pub open spec fn key_columns(table: Seq<ColumnView>, names: Seq<Seq<char>>) -> Result<Seq<ColumnView>, Seq<char>>
    decreases names.len(),
{
    if names.len() == 0 {
        Ok(seq![])
    } else {
        match find_column(table, names[0]) {
            None => Err(names[0]),
            Some(c) => match key_columns(table, names.drop_first()) {
                Ok(cs) => Ok(seq![c] + cs),
                Err(m) => Err(m),
            },
        }
    }
}

/// The value of a column in row `k` (null past its end).
pub open spec fn cell(c: ColumnView, k: int) -> Option<Seq<char>> {
    if k < c.values@.len() {
        values_of(c.values@)[k]
    } else {
        None
    }
}

/// The rows of the key columns: as many as the first column has values,
/// each holding the key columns' values in that row.
pub open spec fn key_rows(cols: Seq<ColumnView>) -> Seq<Seq<Option<Seq<char>>>> {
    let h: nat = if cols.len() == 0 {
        0
    } else {
        cols[0].values@.len()
    };
    Seq::new(h, |k: int| Seq::new(cols.len(), |j: int| cell(cols[j], k)))
}

/// The names joined with commas.
pub open spec fn join_commas(names: Seq<Seq<char>>) -> Seq<char>
    decreases names.len(),
{
    if names.len() == 0 {
        seq![]
    } else if names.len() == 1 {
        names[0]
    } else {
        join_commas(names.drop_last()) + ","@ + names.last()
    }
}

/// The status and details of multi-column uniqueness on these rows.
pub open spec fn compound_outcome(names: Seq<Seq<char>>, rows: Seq<Seq<Option<Seq<char>>>>) -> (Seq<char>, Option<Seq<char>>) {
    let total = rows.len();
    let distinct = distinct_rows(rows);
    let cols = debug_strings(names);
    if distinct == total {
        ("pass"@, Some("columns="@ + cols + ", rows="@ + decimal(total)))
    } else {
        ("fail"@, Some("columns="@ + cols + ", rows="@ + decimal(total) + ", distinct="@ + decimal(distinct)))
    }
}

/// `rr` is the result of multi-column uniqueness over `names` on the table.
pub open spec fn compound_result_is(rr: RuleResult, names: Seq<Seq<char>>, table: Seq<ColumnView>) -> bool {
    let out = compound_outcome(names, key_rows(key_columns(table, names)->Ok_0));
    &&& rr.column@ == join_commas(names)
    &&& rr.rule@ == "CompoundUnique"@
    &&& rr.result@ == out.0
    &&& match rr.details {
        Some(d) => out.1 == Some(d@),
        None => out.1 is None,
    }
}

/// The uniqueness rules of a contract, as the names of their columns.
pub open spec fn compound_list(contract: SchemaContracts) -> Seq<Seq<Seq<char>>> {
    match contract.compound_unique {
        Some(v) => v@.map_values(|c: CompoundUnique| string_views(c.columns@)),
        None => seq![],
    }
}

fn key_columns_exec<'a>(table: &'a Vec<ColumnView>, names: &Vec<String>) -> (r: Result<Vec<&'a ColumnView>, String>)
    ensures
        match r {
            Ok(cs) => key_columns(table@, string_views(names@)) == Ok::<Seq<ColumnView>, Seq<char>>(
                cs@.map_values(|c: &ColumnView| *c),
            ),
            Err(m) => key_columns(table@, string_views(names@)) == Err::<Seq<ColumnView>, Seq<char>>(m@),
        },
{
    let ghost all = string_views(names@);
    let mut acc: Vec<&ColumnView> = Vec::new();
    let mut i: usize = 0;
    assert(all.skip(0) =~= all);
    assert(acc@.map_values(|c: &ColumnView| *c) + seq![] =~= seq![]);
    while i < names.len()
        invariant
            i <= names@.len(),
            all == string_views(names@),
            key_columns(table@, all) == match key_columns(table@, all.skip(i as int)) {
                Ok(cs) => Ok::<Seq<ColumnView>, Seq<char>>(acc@.map_values(|c: &ColumnView| *c) + cs),
                Err(m) => Err(m),
            },
        decreases names@.len() - i,
    {
        let ghost rest = all.skip(i as int);
        assert(rest.drop_first() =~= all.skip(i + 1));
        assert(rest[0] == names@[i as int]@);
        match find_column_exec(table, names[i].as_str()) {
            None => {
                return Err(names[i].clone());
            },
            Some(c) => {
                let ghost before = acc@.map_values(|x: &ColumnView| *x);
                acc.push(c);
                proof {
                    assert(acc@.map_values(|x: &ColumnView| *x) =~= before.push(*c));
                    assert forall|cs: Seq<ColumnView>| true implies before + (seq![*c] + cs) =~= before.push(*c)
                        + cs by {}
                }
            },
        }
        i = i + 1;
    }
    assert(all.skip(i as int) =~= seq![]);
    assert(acc@.map_values(|c: &ColumnView| *c) + seq![] =~= acc@.map_values(|c: &ColumnView| *c));
    Ok(acc)
}

fn key_rows_exec(cols: &Vec<&ColumnView>) -> (rows: Vec<Vec<Option<String>>>)
    ensures
        rows_of(rows@) == key_rows(cols@.map_values(|c: &ColumnView| *c)),
{
    let ghost model = cols@.map_values(|c: &ColumnView| *c);
    let h = if cols.len() == 0 {
        0
    } else {
        cols[0].values.len()
    };
    let mut rows: Vec<Vec<Option<String>>> = Vec::new();
    let mut k: usize = 0;
    while k < h
        invariant
            k <= h,
            model == cols@.map_values(|c: &ColumnView| *c),
            h == key_rows(model).len(),
            rows@.len() == k,
            forall|a: int| 0 <= a < k ==> row_of(#[trigger] rows@[a]) == key_rows(model)[a],
        decreases h - k,
    {
        let mut row: Vec<Option<String>> = Vec::new();
        let mut j: usize = 0;
        while j < cols.len()
            invariant
                j <= cols@.len(),
                k < h,
                model == cols@.map_values(|c: &ColumnView| *c),
                row@.len() == j,
                forall|b: int| 0 <= b < j ==> values_of(row@)[b] == cell(model[b], k as int),
            decreases cols@.len() - j,
        {
            let c = cols[j];
            let ghost before = row@;
            let v = if k < c.values.len() {
                match &c.values[k] {
                    Some(s) => Some(s.clone()),
                    None => None,
                }
            } else {
                None
            };
            row.push(v);
            proof {
                assert(model[j as int] == *c);
                assert forall|b: int| 0 <= b < j + 1 implies values_of(row@)[b] == cell(model[b], k as int) by {
                    if b < j {
                        assert(row@[b] == before[b]);
                        assert(values_of(before)[b] == cell(model[b], k as int));
                    } else {
                        assert(row@[b] == v);
                        if k < c.values@.len() {
                            assert(values_of(c.values@)[k as int] == match c.values@[k as int] {
                                Some(x) => Some(x@),
                                None => None::<Seq<char>>,
                            });
                        }
                    }
                }
            }
            j = j + 1;
        }
        assert(row_of(row) =~= key_rows(model)[k as int]);
        rows.push(row);
        k = k + 1;
    }
    assert(rows_of(rows@) =~= key_rows(model));
    rows
}

fn join_names(names: &Vec<String>) -> (s: String)
    ensures
        s@ == join_commas(string_views(names@)),
{
    let mut s = String::new();
    let mut i: usize = 0;
    while i < names.len()
        invariant
            i <= names@.len(),
            s@ == join_commas(string_views(names@).take(i as int)),
        decreases names@.len() - i,
    {
        let ghost pre = string_views(names@).take(i as int);
        assert(string_views(names@).take(i + 1).drop_last() =~= pre);
        if i > 0 {
            push_str(&mut s, ",");
        } else {
            assert(pre =~= seq![]);
            assert(s@ =~= seq![]);
        }
        push_str(&mut s, names[i].as_str());
        proof {
            if i == 0 {
                assert(s@ =~= names@[0]@);
            }
        }
        i = i + 1;
    }
    assert(string_views(names@).take(names@.len() as int) =~= string_views(names@));
    s
}

/// Applies the contract's multi-column uniqueness rules to the columns of a
/// data file, in order, each result under its columns' names joined with
/// commas; a rule naming a missing column is an error.
pub fn apply_compound_rules(contract: &SchemaContracts, columns: &Vec<ColumnView>) -> (r: Result<Vec<RuleResult>, ValidationError>)
    ensures
        match r {
            Ok(v) => {
                let rules = compound_list(*contract);
                &&& v@.len() == rules.len()
                &&& forall|k: int| 0 <= k < rules.len() ==> key_columns(columns@, rules[k]) is Ok
                &&& forall|k: int| 0 <= k < rules.len() ==> compound_result_is(v@[k], rules[k], columns@)
            },
            Err(e) => {
                let rules = compound_list(*contract);
                exists|k: int|
                    0 <= k < rules.len() && (forall|j: int| 0 <= j < k ==> key_columns(columns@, rules[j]) is Ok)
                        && (key_columns(columns@, #[trigger] rules[k]) matches Err(m) && is_other(
                        e,
                        "column not found: "@ + m,
                    ))
            },
        },
{
    let mut out: Vec<RuleResult> = Vec::new();
    let entries = match &contract.compound_unique {
        Some(v) => v,
        None => {
            return Ok(out);
        },
    };
    let ghost rules = compound_list(*contract);
    let mut i: usize = 0;
    while i < entries.len()
        invariant
            i <= entries@.len(),
            rules == entries@.map_values(|c: CompoundUnique| string_views(c.columns@)),
            rules == compound_list(*contract),
            out@.len() == i,
            forall|k: int| 0 <= k < i ==> key_columns(columns@, rules[k]) is Ok,
            forall|k: int| 0 <= k < i ==> compound_result_is(out@[k], rules[k], columns@),
        decreases entries@.len() - i,
    {
        let names = &entries[i].columns;
        assert(rules[i as int] == string_views(names@));
        let cols = match key_columns_exec(columns, names) {
            Ok(cs) => cs,
            Err(m) => {
                let mut msg = String::new();
                push_str(&mut msg, "column not found: ");
                push_str(&mut msg, m.as_str());
                let e = ValidationError::Other(msg);
                proof {
                    let k = i as int;
                    assert(key_columns(columns@, rules[k]) == Err::<Seq<ColumnView>, Seq<char>>(m@));
                    assert(is_other(e, "column not found: "@ + m@));
                }
                return Err(e);
            },
        };
        let rows = key_rows_exec(&cols);
        let validator = CompoundUniqueValidator { columns: names.clone() };
        assert(string_views(validator.columns@) == string_views(names@));
        let rep = match validator.validate(&rows) {
            Ok(rep) => rep,
            Err(e) => {
                return Err(e);
            },
        };
        let rr = RuleResult {
            column: join_names(names),
            rule: "CompoundUnique".to_owned(),
            result: rep.status.to_owned(),
            details: rep.details,
        };
        out.push(rr);
        i = i + 1;
    }
    Ok(out)
}

} // verus!
