//! General properties of the evaluation, stated and proved once for every
//! input.

use vstd::prelude::*;

use crate::matcher::{capture_at, match_count, regex_valid, whole_match_at};
use crate::model::{empty_state, eval_rule, find_tab, invalid_pattern_msg, lemma_find_tab_props,
    lemma_find_tab_push, lemma_find_tab_same_names, no_match_msg, scalar_fields, spec_parse,
    subject_of, table_row_fields, table_rows, upsert_value, ErrV, EvalState, OutV, RuleV, TabV};
use crate::parse::ErrorEnum;

verus! {

/// How often `name` occurs in a rule's field-name list.
pub open spec fn occurrences(names: Seq<Seq<char>>, name: Seq<char>) -> nat
    decreases names.len(),
{
    if names.len() == 0 {
        0
    } else {
        occurrences(names.drop_last(), name) + if names.last() == name {
            1nat
        } else {
            0nat
        }
    }
}

/// How many of the first `nrows` row matches of `pat` in `region` have a
/// participating group named `name`.
pub open spec fn rows_with_group(
    pat: Seq<char>,
    region: Seq<char>,
    name: Seq<char>,
    nrows: int,
) -> nat
    decreases nrows,
{
    if nrows <= 0 {
        0
    } else {
        rows_with_group(pat, region, name, nrows - 1) + if capture_at(
            pat,
            region,
            nrows - 1,
            name,
        ) is Some {
            1nat
        } else {
            0nat
        }
    }
}

/// How many values the column named `name` holds, or zero when there is no
/// such column.
pub open spec fn column_len(tables: Seq<TabV>, name: Seq<char>) -> nat {
    let i = find_tab(tables, name);
    if i < tables.len() {
        tables[i].values.len()
    } else {
        0
    }
}

/// Appending a value under `under` grows the column named `name` by one
/// exactly when the two names agree, and touches no other column's length.
proof fn lemma_upsert_column_len(tables: Seq<TabV>, under: Seq<char>, value: Seq<char>, name: Seq<char>)
    ensures
        column_len(upsert_value(tables, under, value), name) == column_len(tables, name) + if under
            == name {
            1nat
        } else {
            0nat
        },
{
    lemma_find_tab_props(tables, under);
    lemma_find_tab_props(tables, name);
    let i = find_tab(tables, under);
    if i < tables.len() {
        let updated = tables.update(
            i,
            TabV { name: tables[i].name, values: tables[i].values.push(value) },
        );
        assert forall|j: int| 0 <= j < tables.len() implies updated[j].name == tables[j].name by {}
        lemma_find_tab_same_names(updated, tables, name);
    } else {
        let e = TabV { name: under, values: seq![value] };
        lemma_find_tab_push(tables, e, name);
    }
}

/// What the outputs of a rule list are: nothing more than what `spec_parse`
/// says, so two evaluations of the same document and rule list agree in
/// every byte.
pub proof fn lemma_deterministic(
    fname: Seq<char>,
    text: Seq<char>,
    rules: Seq<RuleV>,
    out1: EvalState,
    out2: EvalState,
)
    requires
        out1 == spec_parse(fname, text, rules),
        out2 == spec_parse(fname, text, rules),
    ensures
        out1 == out2,
{
}

/// An empty rule list yields three empty sequences.
pub proof fn lemma_empty_rules(fname: Seq<char>, text: Seq<char>)
    ensures
        spec_parse(fname, text, Seq::<RuleV>::empty()) == empty_state(),
        spec_parse(fname, text, Seq::<RuleV>::empty()).singles.len() == 0,
        spec_parse(fname, text, Seq::<RuleV>::empty()).tables.len() == 0,
        spec_parse(fname, text, Seq::<RuleV>::empty()).errors.len() == 0,
{
}

/// The walk over a scalar rule's field names, when every requested group
/// participates in the match: one scalar result per name, in order, with the
/// captured text, and nothing else.
proof fn lemma_scalar_fields_all_found(
    st: EvalState,
    pat: Seq<char>,
    subject: Seq<char>,
    names: Seq<Seq<char>>,
)
    requires
        forall|j: int| 0 <= j < names.len() ==> (#[trigger] capture_at(pat, subject, 0, names[j])) is Some,
    ensures
        scalar_fields(st, pat, subject, names).tables == st.tables,
        scalar_fields(st, pat, subject, names).errors == st.errors,
        scalar_fields(st, pat, subject, names).singles == st.singles + Seq::new(
            names.len(),
            (|j: int| OutV {
                name: names[j],
                value: (capture_at(pat, subject, 0, names[j]))->0,
            }),
        ),
    decreases names.len(),
{
    let expected = Seq::new(
        names.len(),
        (|j: int| OutV { name: names[j], value: (capture_at(pat, subject, 0, names[j]))->0 }),
    );
    if names.len() == 0 {
        assert(st.singles + expected =~= st.singles);
    } else {
        let prefix = names.drop_last();
        lemma_scalar_fields_all_found(st, pat, subject, prefix);
        let prev = Seq::new(
            prefix.len(),
            (|j: int| OutV { name: prefix[j], value: (capture_at(pat, subject, 0, prefix[j]))->0 }),
        );
        assert(names[names.len() - 1] == names.last());
        assert(capture_at(pat, subject, 0, names.last()) is Some);
        assert((st.singles + prev).push(
            OutV {
                name: names.last(),
                value: (capture_at(pat, subject, 0, names.last()))->0,
            },
        ) =~= st.singles + expected);
    }
}

/// A non-table rule whose pattern matches the chosen subject, with every
/// requested group participating: exactly one scalar result per field name,
/// holding the captured text, and no diagnostic.
pub proof fn lemma_scalar_all_found(st: EvalState, fname: Seq<char>, text: Seq<char>, r: RuleV)
    requires
        !r.table,
        regex_valid(r.regex),
        match_count(r.regex, subject_of(r, fname, text)) > 0,
        forall|j: int|
            0 <= j < r.names.len() ==> (#[trigger] capture_at(
                r.regex,
                subject_of(r, fname, text),
                0,
                r.names[j],
            )) is Some,
    ensures
        eval_rule(st, fname, text, r).tables == st.tables,
        eval_rule(st, fname, text, r).errors == st.errors,
        eval_rule(st, fname, text, r).singles == st.singles + Seq::new(
            r.names.len(),
            (|j: int| OutV {
                name: r.names[j],
                value: (capture_at(r.regex, subject_of(r, fname, text), 0, r.names[j]))->0,
            }),
        ),
{
    lemma_scalar_fields_all_found(st, r.regex, subject_of(r, fname, text), r.names);
}

/// A non-table rule whose pattern compiles but finds no match in the chosen
/// subject: no scalar result, and exactly one warning naming the pattern.
pub proof fn lemma_scalar_no_match(st: EvalState, fname: Seq<char>, text: Seq<char>, r: RuleV)
    requires
        !r.table,
        regex_valid(r.regex),
        match_count(r.regex, subject_of(r, fname, text)) == 0,
    ensures
        eval_rule(st, fname, text, r).singles == st.singles,
        eval_rule(st, fname, text, r).tables == st.tables,
        eval_rule(st, fname, text, r).errors == st.errors.push(
            ErrV { message: no_match_msg(r.regex), severity: ErrorEnum::Warning },
        ),
{
}

/// A non-table rule whose pattern does not compile: no output, and exactly
/// one error naming the pattern.
pub proof fn lemma_invalid_pattern_scalar(st: EvalState, fname: Seq<char>, text: Seq<char>, r: RuleV)
    requires
        !r.table,
        !regex_valid(r.regex),
    ensures
        eval_rule(st, fname, text, r).singles == st.singles,
        eval_rule(st, fname, text, r).tables == st.tables,
        eval_rule(st, fname, text, r).errors == st.errors.push(
            ErrV { message: invalid_pattern_msg(r.regex), severity: ErrorEnum::Error },
        ),
{
}

/// A table rule whose locator pattern does not compile: no output, and
/// exactly one error naming the locator pattern.
pub proof fn lemma_invalid_pattern_locator(st: EvalState, fname: Seq<char>, text: Seq<char>, r: RuleV)
    requires
        r.table,
        r.table_mask is Some,
        !regex_valid(r.table_mask->0),
    ensures
        eval_rule(st, fname, text, r).singles == st.singles,
        eval_rule(st, fname, text, r).tables == st.tables,
        eval_rule(st, fname, text, r).errors == st.errors.push(
            ErrV { message: invalid_pattern_msg(r.table_mask->0), severity: ErrorEnum::Error },
        ),
{
}

/// A table rule whose locator works but whose row pattern does not compile:
/// no output, and exactly one error naming the row pattern.
pub proof fn lemma_invalid_pattern_rows(st: EvalState, fname: Seq<char>, text: Seq<char>, r: RuleV)
    requires
        r.table,
        r.table_mask is Some,
        regex_valid(r.table_mask->0),
        r.position < match_count(r.table_mask->0, text),
        whole_match_at(r.table_mask->0, text, r.position as int) is Some,
        !regex_valid(r.regex),
    ensures
        eval_rule(st, fname, text, r).singles == st.singles,
        eval_rule(st, fname, text, r).tables == st.tables,
        eval_rule(st, fname, text, r).errors == st.errors.push(
            ErrV { message: invalid_pattern_msg(r.regex), severity: ErrorEnum::Error },
        ),
{
}

/// One table row's walk over the field names grows the column named `name`
/// once per occurrence of `name` in the list, exactly when the row's group
/// participates.
proof fn lemma_row_fields_column_len(
    st: EvalState,
    pat: Seq<char>,
    region: Seq<char>,
    row: int,
    names: Seq<Seq<char>>,
    name: Seq<char>,
)
    ensures
        column_len(table_row_fields(st, pat, region, row, names).tables, name) == column_len(
            st.tables,
            name,
        ) + if capture_at(pat, region, row, name) is Some {
            occurrences(names, name)
        } else {
            0nat
        },
    decreases names.len(),
{
    if names.len() > 0 {
        let prefix = names.drop_last();
        lemma_row_fields_column_len(st, pat, region, row, prefix, name);
        let st1 = table_row_fields(st, pat, region, row, prefix);
        let last = names.last();
        match capture_at(pat, region, row, last) {
            Some(v) => {
                lemma_upsert_column_len(st1.tables, last, v, name);
            },
            None => {
            },
        }
    }
}

/// The walk over all rows grows the column named `name` by the number of
/// participating rows, times the name's occurrences in the field-name list.
proof fn lemma_rows_column_len(
    st: EvalState,
    pat: Seq<char>,
    region: Seq<char>,
    names: Seq<Seq<char>>,
    nrows: int,
    name: Seq<char>,
)
    ensures
        column_len(table_rows(st, pat, region, names, nrows).tables, name) == column_len(
            st.tables,
            name,
        ) + occurrences(names, name) * rows_with_group(pat, region, name, nrows),
    decreases nrows,
{
    let occ = occurrences(names, name);
    if nrows <= 0 {
        assert(occ * rows_with_group(pat, region, name, nrows) == 0) by (nonlinear_arith)
            requires rows_with_group(pat, region, name, nrows) == 0;
    } else {
        lemma_rows_column_len(st, pat, region, names, nrows - 1, name);
        let st1 = table_rows(st, pat, region, names, nrows - 1);
        lemma_row_fields_column_len(st1, pat, region, nrows - 1, names, name);
        let prev = rows_with_group(pat, region, name, nrows - 1);
        let cur = rows_with_group(pat, region, name, nrows);
        if capture_at(pat, region, nrows - 1, name) is Some {
            assert(cur == prev + 1);
            assert(occ * cur == occ * prev + occ) by (nonlinear_arith)
                requires cur == prev + 1;
        } else {
            assert(cur == prev);
        }
    }
}

/// A table rule that reaches its rows appends, to each column, one value per
/// row match in the located region whose group named `name` participates
/// (counted once per occurrence of `name` in the rule's field-name list).
pub proof fn lemma_table_rule_column_len(
    st: EvalState,
    fname: Seq<char>,
    text: Seq<char>,
    r: RuleV,
    name: Seq<char>,
)
    requires
        r.table,
        r.table_mask is Some,
        regex_valid(r.table_mask->0),
        r.position < match_count(r.table_mask->0, text),
        whole_match_at(r.table_mask->0, text, r.position as int) is Some,
        regex_valid(r.regex),
    ensures
        ({
            let region = whole_match_at(r.table_mask->0, text, r.position as int)->0;
            column_len(eval_rule(st, fname, text, r).tables, name) == column_len(st.tables, name)
                + occurrences(r.names, name) * rows_with_group(
                r.regex,
                region,
                name,
                match_count(r.regex, region) as int,
            )
        }),
{
    let region = whole_match_at(r.table_mask->0, text, r.position as int)->0;
    lemma_rows_column_len(
        st,
        r.regex,
        region,
        r.names,
        match_count(r.regex, region) as int,
        name,
    );
}

} // verus!
