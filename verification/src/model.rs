//! The mathematical model of one evaluation.
//!
//! `spec_parse` folds the rule list, in order, over an evaluation state of
//! three sequences — scalar results, table results and diagnostics — exactly
//! as the engine accumulates them. Every contract of the executable engine
//! speaks in terms of these functions.

use vstd::prelude::*;

use crate::matcher::{capture_at, match_count, regex_valid, whole_match_at};
use crate::numfmt::dec_rep;
use crate::parse::{ErrorEnum, ErrorItem, OutputItem, OutputItemTabls, ScenItem};

verus! {

/// The view of one rule.
pub ghost struct RuleV {
    pub regex: Seq<char>,
    pub names: Seq<Seq<char>>,
    pub file_name_bool: bool,
    pub table: bool,
    pub position: nat,
    pub table_mask: Option<Seq<char>>,
}

/// The view of one scalar result.
pub ghost struct OutV {
    pub name: Seq<char>,
    pub value: Seq<char>,
}

/// The view of one table result.
pub ghost struct TabV {
    pub name: Seq<char>,
    pub values: Seq<Seq<char>>,
}

/// The view of one diagnostic.
pub ghost struct ErrV {
    pub message: Seq<char>,
    pub severity: ErrorEnum,
}

/// Everything one evaluation accumulates.
#[verifier::ext_equal]
pub ghost struct EvalState {
    pub singles: Seq<OutV>,
    pub tables: Seq<TabV>,
    pub errors: Seq<ErrV>,
}

impl View for ScenItem {
    type V = RuleV;

    open spec fn view(&self) -> RuleV {
        RuleV {
            regex: self.regex@,
            names: self.names.deep_view(),
            file_name_bool: self.file_name_bool,
            table: self.table,
            position: self.position as nat,
            table_mask: match self.table_mask {
                Some(s) => Some(s@),
                None => None,
            },
        }
    }
}

impl View for OutputItem {
    type V = OutV;

    open spec fn view(&self) -> OutV {
        OutV { name: self.name@, value: self.value@ }
    }
}

impl View for OutputItemTabls {
    type V = TabV;

    open spec fn view(&self) -> TabV {
        TabV { name: self.name@, values: self.value.deep_view() }
    }
}

impl View for ErrorItem {
    type V = ErrV;

    open spec fn view(&self) -> ErrV {
        ErrV { message: self.message@, severity: self.type_error }
    }
}

/// The views of a rule list.
pub open spec fn rules_view(v: Seq<ScenItem>) -> Seq<RuleV> {
    v.map_values(|r: ScenItem| r@)
}

/// The views of a scalar-result list.
pub open spec fn singles_view(v: Seq<OutputItem>) -> Seq<OutV> {
    v.map_values(|o: OutputItem| o@)
}

/// The views of a table-result list.
pub open spec fn tables_view(v: Seq<OutputItemTabls>) -> Seq<TabV> {
    v.map_values(|t: OutputItemTabls| t@)
}

/// The views of a diagnostic list.
pub open spec fn errors_view(v: Seq<ErrorItem>) -> Seq<ErrV> {
    v.map_values(|e: ErrorItem| e@)
}

/// The state the three output vectors stand for.
pub open spec fn state_of(
    singles: Seq<OutputItem>,
    tables: Seq<OutputItemTabls>,
    errors: Seq<ErrorItem>,
) -> EvalState {
    EvalState {
        singles: singles_view(singles),
        tables: tables_view(tables),
        errors: errors_view(errors),
    }
}

/// The state every evaluation starts from.
pub open spec fn empty_state() -> EvalState {
    EvalState { singles: Seq::empty(), tables: Seq::empty(), errors: Seq::empty() }
}

/// The diagnostic for a pattern that does not compile.
pub open spec fn invalid_pattern_msg(p: Seq<char>) -> Seq<char> {
    "Есть ошибки в регулярном выражении: "@ + p
}

/// The diagnostic for a pattern that found no match in the subject.
pub open spec fn no_match_msg(p: Seq<char>) -> Seq<char> {
    "Не найдено совпадений по выражению: "@ + p
}

/// The diagnostic for a named group absent from a match.
pub open spec fn no_name_msg(name: Seq<char>) -> Seq<char> {
    "Не найдено совпадений по имени: "@ + name
}

/// The diagnostic for a table rule without a locator pattern.
pub open spec fn missing_mask_msg() -> Seq<char> {
    "Отсутствует регулярное вырожение для поиска таблицы"@
}

/// The diagnostic for a table locator without a match at the requested
/// occurrence index.
pub open spec fn no_position_msg(p: Seq<char>, pos: nat) -> Seq<char> {
    "Не найдено совпадений по выражению и позиции: "@ + p + ", "@ + dec_rep(pos)
}

/// `st` with one more scalar result.
pub open spec fn push_single(st: EvalState, name: Seq<char>, value: Seq<char>) -> EvalState {
    EvalState {
        singles: st.singles.push(OutV { name, value }),
        tables: st.tables,
        errors: st.errors,
    }
}

/// `st` with one more diagnostic.
pub open spec fn push_error(st: EvalState, message: Seq<char>, severity: ErrorEnum) -> EvalState {
    EvalState {
        singles: st.singles,
        tables: st.tables,
        errors: st.errors.push(ErrV { message, severity }),
    }
}

/// The index of the first table result named `name`, or `tables.len()` when
/// there is none.
pub open spec fn find_tab(tables: Seq<TabV>, name: Seq<char>) -> int
    decreases tables.len(),
{
    if tables.len() == 0 {
        0
    } else if tables[0].name == name {
        0
    } else {
        1 + find_tab(tables.drop_first(), name)
    }
}

/// `tables` with `value` appended to the column named `name`; the column is
/// created at the end the first time the name is seen.
pub open spec fn upsert_value(tables: Seq<TabV>, name: Seq<char>, value: Seq<char>) -> Seq<TabV> {
    let i = find_tab(tables, name);
    if i < tables.len() {
        tables.update(i, TabV { name: tables[i].name, values: tables[i].values.push(value) })
    } else {
        tables.push(TabV { name, values: seq![value] })
    }
}

/// `st` with `value` appended to the table column named `name`.
pub open spec fn push_table_value(st: EvalState, name: Seq<char>, value: Seq<char>) -> EvalState {
    EvalState {
        singles: st.singles,
        tables: upsert_value(st.tables, name, value),
        errors: st.errors,
    }
}

/// The subject a scalar rule searches: the file name or the body.
pub open spec fn subject_of(r: RuleV, fname: Seq<char>, text: Seq<char>) -> Seq<char> {
    if r.file_name_bool {
        fname
    } else {
        text
    }
}

/// One scalar rule's walk over its field names, over the single match of
/// `pat` in `subject`: a found group appends a scalar result, an absent one a
/// warning.
pub open spec fn scalar_fields(
    st: EvalState,
    pat: Seq<char>,
    subject: Seq<char>,
    names: Seq<Seq<char>>,
) -> EvalState
    decreases names.len(),
{
    if names.len() == 0 {
        st
    } else {
        let st1 = scalar_fields(st, pat, subject, names.drop_last());
        let name = names.last();
        match capture_at(pat, subject, 0, name) {
            Some(v) => push_single(st1, name, v),
            None => push_error(st1, no_name_msg(name), ErrorEnum::Warning),
        }
    }
}

/// What one non-table rule adds to the state.
pub open spec fn scalar_rule(
    st: EvalState,
    fname: Seq<char>,
    text: Seq<char>,
    r: RuleV,
) -> EvalState {
    if !regex_valid(r.regex) {
        push_error(st, invalid_pattern_msg(r.regex), ErrorEnum::Error)
    } else {
        let subject = subject_of(r, fname, text);
        if match_count(r.regex, subject) == 0 {
            push_error(st, no_match_msg(r.regex), ErrorEnum::Warning)
        } else {
            scalar_fields(st, r.regex, subject, r.names)
        }
    }
}

/// One table row's walk over the rule's field names: a found group appends to
/// that name's column, an absent one a warning.
pub open spec fn table_row_fields(
    st: EvalState,
    pat: Seq<char>,
    region: Seq<char>,
    row: int,
    names: Seq<Seq<char>>,
) -> EvalState
    decreases names.len(),
{
    if names.len() == 0 {
        st
    } else {
        let st1 = table_row_fields(st, pat, region, row, names.drop_last());
        let name = names.last();
        match capture_at(pat, region, row, name) {
            Some(v) => push_table_value(st1, name, v),
            None => push_error(st1, no_name_msg(name), ErrorEnum::Warning),
        }
    }
}

/// The first `nrows` row matches of `pat` in `region`, each walked over the
/// rule's field names, in order.
pub open spec fn table_rows(
    st: EvalState,
    pat: Seq<char>,
    region: Seq<char>,
    names: Seq<Seq<char>>,
    nrows: int,
) -> EvalState
    decreases nrows,
{
    if nrows <= 0 {
        st
    } else {
        table_row_fields(
            table_rows(st, pat, region, names, nrows - 1),
            pat,
            region,
            nrows - 1,
            names,
        )
    }
}

/// What one table rule adds to the state.
pub open spec fn table_rule(st: EvalState, text: Seq<char>, r: RuleV) -> EvalState {
    match r.table_mask {
        None => push_error(st, missing_mask_msg(), ErrorEnum::Error),
        Some(tm) => {
            if !regex_valid(tm) {
                push_error(st, invalid_pattern_msg(tm), ErrorEnum::Error)
            } else if r.position >= match_count(tm, text) {
                push_error(st, no_position_msg(tm, r.position), ErrorEnum::Warning)
            } else {
                match whole_match_at(tm, text, r.position as int) {
                    // Defensive skip: the located match yields no group 0.
                    None => st,
                    Some(region) => {
                        if !regex_valid(r.regex) {
                            push_error(st, invalid_pattern_msg(r.regex), ErrorEnum::Error)
                        } else {
                            table_rows(
                                st,
                                r.regex,
                                region,
                                r.names,
                                match_count(r.regex, region) as int,
                            )
                        }
                    },
                }
            }
        },
    }
}

/// What one rule adds to the state.
pub open spec fn eval_rule(st: EvalState, fname: Seq<char>, text: Seq<char>, r: RuleV) -> EvalState {
    if r.table {
        table_rule(st, text, r)
    } else {
        scalar_rule(st, fname, text, r)
    }
}

/// The whole rule list folded over `st`, in list order.
pub open spec fn eval_rules(
    st: EvalState,
    fname: Seq<char>,
    text: Seq<char>,
    rules: Seq<RuleV>,
) -> EvalState
    decreases rules.len(),
{
    if rules.len() == 0 {
        st
    } else {
        eval_rule(eval_rules(st, fname, text, rules.drop_last()), fname, text, rules.last())
    }
}

/// The complete result of one evaluation.
pub open spec fn spec_parse(fname: Seq<char>, text: Seq<char>, rules: Seq<RuleV>) -> EvalState {
    eval_rules(empty_state(), fname, text, rules)
}

/// `find_tab` returns the index of the first column named `name`: every
/// earlier column is named otherwise, and past the end means absent.
pub proof fn lemma_find_tab_at(tables: Seq<TabV>, name: Seq<char>, k: int)
    requires
        0 <= k <= tables.len(),
        forall|j: int| 0 <= j < k ==> tables[j].name != name,
        k < tables.len() ==> tables[k].name == name,
    ensures
        find_tab(tables, name) == k,
    decreases tables.len(),
{
    if tables.len() == 0 {
    } else if tables[0].name == name {
        assert(k == 0);
    } else {
        assert(k >= 1);
        let rest = tables.drop_first();
        assert forall|j: int| 0 <= j < k - 1 implies rest[j].name != name by {
            assert(rest[j] == tables[j + 1]);
        }
        if k - 1 < rest.len() {
            assert(rest[k - 1] == tables[k]);
        }
        lemma_find_tab_at(rest, name, k - 1);
    }
}

/// `find_tab` lands between 0 and the length; every column before it is
/// named otherwise, and when it lands inside, that column carries the name.
pub proof fn lemma_find_tab_props(tables: Seq<TabV>, name: Seq<char>)
    ensures
        0 <= find_tab(tables, name) <= tables.len(),
        forall|j: int| 0 <= j < find_tab(tables, name) ==> tables[j].name != name,
        find_tab(tables, name) < tables.len() ==> tables[find_tab(tables, name)].name == name,
    decreases tables.len(),
{
    if tables.len() > 0 && tables[0].name != name {
        let rest = tables.drop_first();
        lemma_find_tab_props(rest, name);
        let f = find_tab(tables, name);
        assert forall|j: int| 0 <= j < f implies tables[j].name != name by {
            if j > 0 {
                assert(rest[j - 1] == tables[j]);
            }
        }
        if f < tables.len() {
            assert(rest[f - 1] == tables[f]);
        }
    }
}

/// `find_tab` looks only at the column names.
pub proof fn lemma_find_tab_same_names(t1: Seq<TabV>, t2: Seq<TabV>, name: Seq<char>)
    requires
        t1.len() == t2.len(),
        forall|j: int| 0 <= j < t1.len() ==> t1[j].name == t2[j].name,
    ensures
        find_tab(t1, name) == find_tab(t2, name),
    decreases t1.len(),
{
    if t1.len() > 0 {
        assert(t1[0].name == t2[0].name);
        if t1[0].name != name {
            let r1 = t1.drop_first();
            let r2 = t2.drop_first();
            assert forall|j: int| 0 <= j < r1.len() implies r1[j].name == r2[j].name by {
                assert(r1[j] == t1[j + 1]);
                assert(r2[j] == t2[j + 1]);
            }
            lemma_find_tab_same_names(r1, r2, name);
        }
    }
}

/// How `find_tab` behaves across a push: a found column stays found, and a
/// missing one is found exactly when the pushed column carries the name.
pub proof fn lemma_find_tab_push(tables: Seq<TabV>, e: TabV, name: Seq<char>)
    ensures
        find_tab(tables.push(e), name) == if find_tab(tables, name) < tables.len() {
            find_tab(tables, name)
        } else if e.name == name {
            tables.len() as int
        } else {
            tables.len() as int + 1
        },
    decreases tables.len(),
{
    lemma_find_tab_props(tables, name);
    let p = tables.push(e);
    if tables.len() == 0 {
        assert(p[0] == e);
        if e.name == name {
            assert(find_tab(p, name) == 0);
        } else {
            assert(p.drop_first() =~= Seq::<TabV>::empty());
            assert(find_tab(p.drop_first(), name) == 0);
            assert(find_tab(p, name) == 1);
        }
    } else {
        assert(p[0] == tables[0]);
        if tables[0].name == name {
            assert(find_tab(p, name) == 0);
            assert(find_tab(tables, name) == 0);
        } else {
            assert(p.drop_first() =~= tables.drop_first().push(e));
            lemma_find_tab_push(tables.drop_first(), e, name);
            assert(find_tab(p, name) == 1 + find_tab(tables.drop_first().push(e), name));
            assert(find_tab(tables, name) == 1 + find_tab(tables.drop_first(), name));
        }
    }
}

/// Mapping the view over a push appends the pushed element's view.
pub proof fn lemma_singles_view_push(v: Seq<OutputItem>, x: OutputItem)
    ensures
        singles_view(v.push(x)) == singles_view(v).push(x@),
{
    assert(singles_view(v.push(x)) =~= singles_view(v).push(x@));
}

/// Mapping the view over a push appends the pushed element's view.
pub proof fn lemma_tables_view_push(v: Seq<OutputItemTabls>, x: OutputItemTabls)
    ensures
        tables_view(v.push(x)) == tables_view(v).push(x@),
{
    assert(tables_view(v.push(x)) =~= tables_view(v).push(x@));
}

/// Removing an element and inserting another at the same place is an update,
/// and the view map carries it through.
pub proof fn lemma_tables_view_set(v: Seq<OutputItemTabls>, k: int, x: OutputItemTabls)
    requires
        0 <= k < v.len(),
    ensures
        tables_view(v.remove(k).insert(k, x)) == tables_view(v).update(k, x@),
{
    assert(v.remove(k).insert(k, x) =~= v.update(k, x));
    assert(tables_view(v.update(k, x)) =~= tables_view(v).update(k, x@));
}

} // verus!
