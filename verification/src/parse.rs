//! The rule model and the evaluation entry point.

use vstd::prelude::*;
use vstd::string::StringExecFns;

use crate::matcher::{capture_at, captures_at, compiles, count_matches, match_count, opt_str_view,
    regex_valid, whole_match};
use crate::model::{empty_state, errors_view, eval_rules, invalid_pattern_msg, lemma_find_tab_at,
    lemma_singles_view_push, lemma_tables_view_push, lemma_tables_view_set, missing_mask_msg,
    no_match_msg, no_name_msg, no_position_msg, rules_view, scalar_fields, scalar_rule, spec_parse,
    state_of, subject_of, table_row_fields, table_rows, table_rule, tables_view, upsert_value,
    ErrV, RuleV, TabV};
use crate::numfmt::usize_to_string;

verus! {

/// Severity of a diagnostic message.
#[derive(Debug, Clone, Copy, PartialEq, Eq)]
pub enum ErrorEnum {
    Warning,
    Error,
    Info,
}

/// A loaded document: its file name, its body, and optionally an embedded
/// rule list.
pub struct Scen {
    pub file_name: String,
    pub text: String,
    pub scen: Option<Vec<ScenItem>>,
}

/// One extraction rule.
#[derive(Clone)]
pub struct ScenItem {
    /// The regular expression, expected to hold named capture groups.
    pub regex: String,
    /// Which named groups to pull out, in display order.
    pub names: Vec<String>,
    /// If true, `regex` is matched against the file name instead of the body.
    pub file_name_bool: bool,
    /// Selects table mode.
    pub table: bool,
    /// Zero-based index of the table-locator match to use (table mode only).
    pub position: usize,
    /// The regular expression that locates the table region (table mode only).
    pub table_mask: Option<String>,
}

/// One extracted scalar field.
#[derive(Debug, Clone, PartialEq, Eq)]
pub struct OutputItem {
    pub name: String,
    pub value: String,
}

/// One extracted table column: every value captured under one field name.
#[derive(Debug, Clone, PartialEq, Eq)]
pub struct OutputItemTabls {
    pub name: String,
    pub value: Vec<String>,
}

/// One diagnostic message.
#[derive(Debug, Clone, PartialEq, Eq)]
pub struct ErrorItem {
    pub message: String,
    pub type_error: ErrorEnum,
}

/// The diagnostic text for a pattern that does not compile.
fn invalid_pattern_message(p: &str) -> (r: String)
    ensures
        r@ == invalid_pattern_msg(p@),
{
    "Есть ошибки в регулярном выражении: ".to_owned().concat(p)
}

/// The diagnostic text for a pattern without a match in the subject.
fn no_match_message(p: &str) -> (r: String)
    ensures
        r@ == no_match_msg(p@),
{
    "Не найдено совпадений по выражению: ".to_owned().concat(p)
}

/// The diagnostic text for a named group absent from a match.
fn no_name_message(name: &str) -> (r: String)
    ensures
        r@ == no_name_msg(name@),
{
    "Не найдено совпадений по имени: ".to_owned().concat(name)
}

/// The diagnostic text for a table rule without a locator pattern.
fn missing_mask_message() -> (r: String)
    ensures
        r@ == missing_mask_msg(),
{
    "Отсутствует регулярное вырожение для поиска таблицы".to_owned()
}

/// The diagnostic text for a table locator without a match at the requested
/// occurrence index.
fn no_position_message(p: &str, pos: usize) -> (r: String)
    ensures
        r@ == no_position_msg(p@, pos as nat),
{
    let num = usize_to_string(pos);
    "Не найдено совпадений по выражению и позиции: ".to_owned().concat(p).concat(", ").concat(
        num.as_str(),
    )
}

/// Appends one diagnostic.
fn push_diag(errors: &mut Vec<ErrorItem>, message: String, severity: ErrorEnum)
    ensures
        errors_view(final(errors)@) == errors_view(old(errors)@).push(
            ErrV { message: message@, severity },
        ),
{
    let ghost m = message@;
    errors.push(ErrorItem { message, type_error: severity });
    proof {
        assert(errors_view(errors@) =~= errors_view(old(errors)@).push(ErrV { message: m, severity }));
    }
}

/// Appends `value` to the table column named `name`, creating the column at
/// the end the first time the name is seen.
fn upsert_tab(tables: &mut Vec<OutputItemTabls>, name: &String, value: String)
    ensures
        tables_view(final(tables)@) == upsert_value(tables_view(old(tables)@), name@, value@),
{
    let ghost tv0 = tables_view(tables@);
    let ghost value_v = value@;
    let len = tables.len();
    let mut k: usize = 0;
    while k < len
        invariant
            len == tables@.len(),
            tables@ == old(tables)@,
            tv0 == tables_view(tables@),
            value@ == value_v,
            k <= len,
            forall|j: int| 0 <= j < k ==> tv0[j].name != name@,
        decreases len - k,
    {
        if tables[k].name == *name {
            proof {
                assert(tv0[k as int].name == name@);
                lemma_find_tab_at(tv0, name@, k as int);
            }
            let mut entry = tables.remove(k);
            let ghost entry0 = entry;
            entry.value.push(value);
            proof {
                assert(entry.value@.len() == entry0.value@.len() + 1);
                assert forall|i: int| 0 <= i < entry.value@.len() implies entry.value.deep_view()[i]
                    == entry0.value.deep_view().push(value_v)[i] by {
                    if i < entry0.value@.len() {
                        assert(entry.value@[i] == entry0.value@[i]);
                    } else {
                        assert(entry.value@[i]@ == value_v);
                    }
                }
                assert(entry.value.deep_view() =~= entry0.value.deep_view().push(value_v));
                assert(entry@ == (TabV {
                    name: tv0[k as int].name,
                    values: tv0[k as int].values.push(value_v),
                }));
            }
            let ghost entry_full = entry;
            let ghost entry_v = entry@;
            tables.insert(k, entry);
            proof {
                lemma_tables_view_set(old(tables)@, k as int, entry_full);
                assert(tables_view(tables@) == tv0.update(k as int, entry_v));
            }
            return;
        }
        k += 1;
    }
    proof {
        lemma_find_tab_at(tv0, name@, len as int);
    }
    let mut column: Vec<String> = Vec::new();
    column.push(value);
    let entry = OutputItemTabls { name: name.clone(), value: column };
    proof {
        assert(entry@.values =~= seq![value_v]);
    }
    let ghost entry_full = entry;
    tables.push(entry);
    proof {
        lemma_tables_view_push(old(tables)@, entry_full);
    }
}

/// Evaluates one non-table rule: one match attempt against the chosen
/// subject, then one lookup per requested field name.
fn eval_scalar_rule(
    singles: &mut Vec<OutputItem>,
    errors: &mut Vec<ErrorItem>,
    tables: &Vec<OutputItemTabls>,
    file_name: &String,
    text: &String,
    r: &ScenItem,
)
    requires
        !r.table,
    ensures
        state_of(final(singles)@, tables@, final(errors)@) == scalar_rule(
            state_of(old(singles)@, tables@, old(errors)@),
            file_name@,
            text@,
            r@,
        ),
{
    let ghost st0 = state_of(singles@, tables@, errors@);
    if !compiles(r.regex.as_str()) {
        let msg = invalid_pattern_message(r.regex.as_str());
        push_diag(errors, msg, ErrorEnum::Error);
        return;
    }
    let subject = if !r.file_name_bool {
        text
    } else {
        file_name
    };
    proof {
        assert(subject@ == subject_of(r@, file_name@, text@));
    }
    let caps_opt = captures_at(r.regex.as_str(), subject.as_str(), 0, &r.names);
    match caps_opt {
        None => {
            let msg = no_match_message(r.regex.as_str());
            push_diag(errors, msg, ErrorEnum::Warning);
        },
        Some(caps) => {
            let n = r.names.len();
            let mut j: usize = 0;
            while j < n
                invariant
                    n == r.names@.len(),
                    j <= n,
                    caps@.len() == n,
                    forall|jj: int|
                        0 <= jj < n ==> opt_str_view(#[trigger] caps@[jj]) == capture_at(
                            r.regex@,
                            subject@,
                            0,
                            r.names@[jj]@,
                        ),
                    subject@ == subject_of(r@, file_name@, text@),
                    state_of(singles@, tables@, errors@) == scalar_fields(
                        st0,
                        r@.regex,
                        subject@,
                        r@.names.take(j as int),
                    ),
                decreases n - j,
            {
                proof {
                    assert(r@.names.take(j as int + 1).drop_last() =~= r@.names.take(j as int));
                    assert(r@.names.take(j as int + 1).last() == r@.names[j as int]);
                    assert(r@.names[j as int] == r.names@[j as int]@);
                }
                let name = &r.names[j];
                match &caps[j] {
                    Some(v) => {
                        let item = OutputItem { name: name.clone(), value: v.clone() };
                        let ghost item_full = item;
                        let ghost prev = singles@;
                        singles.push(item);
                        proof {
                            lemma_singles_view_push(prev, item_full);
                        }
                    },
                    None => {
                        let msg = no_name_message(name.as_str());
                        push_diag(errors, msg, ErrorEnum::Warning);
                    },
                }
                j += 1;
            }
            proof {
                assert(r@.names.take(n as int) =~= r@.names);
            }
        },
    }
}

/// Walks one table row: every requested field name is looked up in the row's
/// match; a found group extends its column, an absent one adds a warning.
fn eval_table_row(
    tables: &mut Vec<OutputItemTabls>,
    errors: &mut Vec<ErrorItem>,
    singles: &Vec<OutputItem>,
    pat: &String,
    region: &String,
    row: usize,
    names: &Vec<String>,
)
    requires
        regex_valid(pat@),
        (row as nat) < match_count(pat@, region@),
    ensures
        state_of(singles@, final(tables)@, final(errors)@) == table_row_fields(
            state_of(singles@, old(tables)@, old(errors)@),
            pat@,
            region@,
            row as int,
            names.deep_view(),
        ),
{
    let ghost st0 = state_of(singles@, tables@, errors@);
    let caps = captures_at(pat.as_str(), region.as_str(), row, names).unwrap();
    let n = names.len();
    let mut j: usize = 0;
    while j < n
        invariant
            n == names@.len(),
            j <= n,
            caps@.len() == n,
            forall|jj: int|
                0 <= jj < n ==> opt_str_view(#[trigger] caps@[jj]) == capture_at(
                    pat@,
                    region@,
                    row as int,
                    names@[jj]@,
                ),
            state_of(singles@, tables@, errors@) == table_row_fields(
                st0,
                pat@,
                region@,
                row as int,
                names.deep_view().take(j as int),
            ),
        decreases n - j,
    {
        proof {
            assert(names.deep_view().take(j as int + 1).drop_last() =~= names.deep_view().take(
                j as int,
            ));
            assert(names.deep_view().take(j as int + 1).last() == names@[j as int]@);
        }
        let name = &names[j];
        match &caps[j] {
            Some(v) => {
                upsert_tab(tables, name, v.clone());
            },
            None => {
                let msg = no_name_message(name.as_str());
                push_diag(errors, msg, ErrorEnum::Warning);
            },
        }
        j += 1;
    }
    proof {
        assert(names.deep_view().take(n as int) =~= names.deep_view());
    }
}

/// Evaluates one table rule: locates the table region with the locator
/// pattern, then walks every row match of the rule's pattern inside it.
fn eval_table_rule(
    tables: &mut Vec<OutputItemTabls>,
    errors: &mut Vec<ErrorItem>,
    singles: &Vec<OutputItem>,
    text: &String,
    r: &ScenItem,
)
    requires
        r.table,
    ensures
        state_of(singles@, final(tables)@, final(errors)@) == table_rule(
            state_of(singles@, old(tables)@, old(errors)@),
            text@,
            r@,
        ),
{
    let ghost st0 = state_of(singles@, tables@, errors@);
    let tm = match &r.table_mask {
        None => {
            let msg = missing_mask_message();
            push_diag(errors, msg, ErrorEnum::Error);
            return;
        },
        Some(tm) => tm,
    };
    if !compiles(tm.as_str()) {
        let msg = invalid_pattern_message(tm.as_str());
        push_diag(errors, msg, ErrorEnum::Error);
        return;
    }
    let region = match whole_match(tm.as_str(), text.as_str(), r.position) {
        None => {
            let msg = no_position_message(tm.as_str(), r.position);
            push_diag(errors, msg, ErrorEnum::Warning);
            return;
        },
        Some(region_opt) => match region_opt {
            // Defensive skip: the located match yields no full substring.
            None => {
                return;
            },
            Some(region) => region,
        },
    };
    if !compiles(r.regex.as_str()) {
        let msg = invalid_pattern_message(r.regex.as_str());
        push_diag(errors, msg, ErrorEnum::Error);
        return;
    }
    let nrows = count_matches(r.regex.as_str(), region.as_str());
    let mut i: usize = 0;
    while i < nrows
        invariant
            regex_valid(r.regex@),
            nrows as nat == match_count(r.regex@, region@),
            i <= nrows,
            state_of(singles@, tables@, errors@) == table_rows(
                st0,
                r.regex@,
                region@,
                r@.names,
                i as int,
            ),
        decreases nrows - i,
    {
        eval_table_row(tables, errors, singles, &r.regex, &region, i, &r.names);
        i += 1;
    }
}

/// Evaluates every rule, in list order, against the document `(file_name,
/// text)`, and returns the scalar results, the table results and the
/// diagnostics. It never fails as a whole: a rule that cannot be evaluated
/// only adds a diagnostic and the rest of the list still runs.
pub fn parse(file_name: String, text: String, scens: Vec<ScenItem>) -> (r: (
    Vec<OutputItem>,
    Vec<OutputItemTabls>,
    Vec<ErrorItem>,
))
    ensures
        state_of(r.0@, r.1@, r.2@) == spec_parse(file_name@, text@, rules_view(scens@)),
{
    let mut out_singl_vec: Vec<OutputItem> = Vec::new();
    let mut out_tabls_vec: Vec<OutputItemTabls> = Vec::new();
    let mut out_error_vec: Vec<ErrorItem> = Vec::new();
    proof {
        assert(state_of(out_singl_vec@, out_tabls_vec@, out_error_vec@) =~= empty_state());
        assert(rules_view(scens@.take(0)) =~= Seq::<RuleV>::empty());
    }
    let n = scens.len();
    let mut i: usize = 0;
    while i < n
        invariant
            n == scens@.len(),
            i <= n,
            state_of(out_singl_vec@, out_tabls_vec@, out_error_vec@) == eval_rules(
                empty_state(),
                file_name@,
                text@,
                rules_view(scens@.take(i as int)),
            ),
        decreases n - i,
    {
        proof {
            assert(rules_view(scens@.take(i as int + 1)).drop_last() =~= rules_view(
                scens@.take(i as int),
            ));
            assert(rules_view(scens@.take(i as int + 1)).last() == scens@[i as int]@);
        }
        let r = &scens[i];
        if !r.table {
            eval_scalar_rule(
                &mut out_singl_vec,
                &mut out_error_vec,
                &out_tabls_vec,
                &file_name,
                &text,
                r,
            );
        } else {
            eval_table_rule(&mut out_tabls_vec, &mut out_error_vec, &out_singl_vec, &text, r);
        }
        i += 1;
    }
    proof {
        assert(scens@.take(n as int) =~= scens@);
    }
    (out_singl_vec, out_tabls_vec, out_error_vec)
}

} // verus!
