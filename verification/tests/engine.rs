use extractor::parse::{parse, ErrorEnum, ScenItem};

fn scalar_rule(pattern: &str, names: &[&str], search_file_name: bool) -> ScenItem {
    ScenItem {
        regex: pattern.to_string(),
        names: names.iter().map(|n| n.to_string()).collect(),
        file_name_bool: search_file_name,
        table: false,
        position: 0,
        table_mask: None,
    }
}

fn table_rule(locator: Option<&str>, pattern: &str, names: &[&str], position: usize) -> ScenItem {
    ScenItem {
        regex: pattern.to_string(),
        names: names.iter().map(|n| n.to_string()).collect(),
        file_name_bool: false,
        table: true,
        position,
        table_mask: locator.map(|l| l.to_string()),
    }
}

#[test]
fn scalar_two_fields() {
    let rule = scalar_rule("ID: (?P<id>\\d+), Name: (?P<name>\\w+)", &["id", "name"], false);
    let (singles, tables, errors) = parse(
        "doc.txt".to_string(),
        "ID: 42, Name: Bob".to_string(),
        vec![rule],
    );
    assert_eq!(singles.len(), 2);
    assert_eq!(singles[0].name, "id");
    assert_eq!(singles[0].value, "42");
    assert_eq!(singles[1].name, "name");
    assert_eq!(singles[1].value, "Bob");
    assert!(tables.is_empty());
    assert!(errors.is_empty());
}

#[test]
fn scalar_first_match_only() {
    let rule = scalar_rule("(?P<n>\\d+)", &["n"], false);
    let (singles, _, errors) = parse(
        String::new(),
        "7 then 8 then 9".to_string(),
        vec![rule],
    );
    assert_eq!(singles.len(), 1);
    assert_eq!(singles[0].value, "7");
    assert!(errors.is_empty());
}

#[test]
fn scalar_searches_file_name() {
    let rule = scalar_rule("(?P<stem>\\w+)\\.txt", &["stem"], true);
    let (singles, _, errors) = parse(
        "report.txt".to_string(),
        "nothing here".to_string(),
        vec![rule],
    );
    assert_eq!(singles.len(), 1);
    assert_eq!(singles[0].name, "stem");
    assert_eq!(singles[0].value, "report");
    assert!(errors.is_empty());
}

#[test]
fn scalar_no_match_warning() {
    let rule = scalar_rule("missing(?P<x>\\d+)", &["x"], false);
    let (singles, tables, errors) = parse(
        String::new(),
        "nothing relevant".to_string(),
        vec![rule],
    );
    assert!(singles.is_empty());
    assert!(tables.is_empty());
    assert_eq!(errors.len(), 1);
    assert_eq!(
        errors[0].message,
        "Не найдено совпадений по выражению: missing(?P<x>\\d+)"
    );
    assert_eq!(errors[0].type_error, ErrorEnum::Warning);
}

#[test]
fn scalar_invalid_pattern_error() {
    let rule = scalar_rule("(", &["x"], false);
    let (singles, tables, errors) = parse(String::new(), "text".to_string(), vec![rule]);
    assert!(singles.is_empty());
    assert!(tables.is_empty());
    assert_eq!(errors.len(), 1);
    assert_eq!(errors[0].message, "Есть ошибки в регулярном выражении: (");
    assert_eq!(errors[0].type_error, ErrorEnum::Error);
}

#[test]
fn scalar_absent_group_warning() {
    let rule = scalar_rule("(?P<a>x)", &["a", "b"], false);
    let (singles, _, errors) = parse(String::new(), "x marks the spot".to_string(), vec![rule]);
    assert_eq!(singles.len(), 1);
    assert_eq!(singles[0].name, "a");
    assert_eq!(singles[0].value, "x");
    assert_eq!(errors.len(), 1);
    assert_eq!(errors[0].message, "Не найдено совпадений по имени: b");
    assert_eq!(errors[0].type_error, ErrorEnum::Warning);
}

#[test]
fn scalar_empty_names_yields_nothing() {
    let rule = scalar_rule("(?P<a>x)", &[], false);
    let (singles, tables, errors) = parse(String::new(), "x".to_string(), vec![rule]);
    assert!(singles.is_empty());
    assert!(tables.is_empty());
    assert!(errors.is_empty());
}

#[test]
fn table_two_columns() {
    let rule = table_rule(
        Some("Table:(?s)(.*?)End"),
        "(?P<x>\\d+)-(?P<y>\\d+)",
        &["x", "y"],
        0,
    );
    let (singles, tables, errors) = parse(
        String::new(),
        "prefix Table: 1-2 3-4 End suffix".to_string(),
        vec![rule],
    );
    assert!(singles.is_empty());
    assert!(errors.is_empty());
    assert_eq!(tables.len(), 2);
    assert_eq!(tables[0].name, "x");
    assert_eq!(tables[0].value, vec!["1".to_string(), "3".to_string()]);
    assert_eq!(tables[1].name, "y");
    assert_eq!(tables[1].value, vec!["2".to_string(), "4".to_string()]);
}

#[test]
fn table_second_occurrence() {
    let rule = table_rule(Some("<(?P<inner>[^>]*)>"), "(?P<v>\\d+)", &["v"], 1);
    let (_, tables, errors) = parse(
        String::new(),
        "<1 2> and <3 4>".to_string(),
        vec![rule],
    );
    assert!(errors.is_empty());
    assert_eq!(tables.len(), 1);
    assert_eq!(tables[0].name, "v");
    assert_eq!(tables[0].value, vec!["3".to_string(), "4".to_string()]);
}

#[test]
fn table_position_out_of_range() {
    let rule = table_rule(
        Some("Table:(?s)(.*?)End"),
        "(?P<x>\\d+)",
        &["x"],
        2,
    );
    let (singles, tables, errors) = parse(
        String::new(),
        "Table: 1-2 3-4 End".to_string(),
        vec![rule],
    );
    assert!(singles.is_empty());
    assert!(tables.is_empty());
    assert_eq!(errors.len(), 1);
    assert_eq!(
        errors[0].message,
        "Не найдено совпадений по выражению и позиции: Table:(?s)(.*?)End, 2"
    );
    assert_eq!(errors[0].type_error, ErrorEnum::Warning);
}

#[test]
fn table_missing_locator_error() {
    let rule = table_rule(None, "(?P<x>\\d+)", &["x"], 0);
    let (_, tables, errors) = parse(String::new(), "1 2 3".to_string(), vec![rule]);
    assert!(tables.is_empty());
    assert_eq!(errors.len(), 1);
    assert_eq!(
        errors[0].message,
        "Отсутствует регулярное вырожение для поиска таблицы"
    );
    assert_eq!(errors[0].type_error, ErrorEnum::Error);
}

#[test]
fn table_invalid_locator_error() {
    let rule = table_rule(Some("("), "(?P<x>\\d+)", &["x"], 0);
    let (_, tables, errors) = parse(String::new(), "1 2 3".to_string(), vec![rule]);
    assert!(tables.is_empty());
    assert_eq!(errors.len(), 1);
    assert_eq!(errors[0].message, "Есть ошибки в регулярном выражении: (");
    assert_eq!(errors[0].type_error, ErrorEnum::Error);
}

#[test]
fn table_invalid_row_pattern_error() {
    let rule = table_rule(Some("\\[(?P<b>[^\\]]*)\\]"), "(", &["x"], 0);
    let (_, tables, errors) = parse(String::new(), "[1 2 3]".to_string(), vec![rule]);
    assert!(tables.is_empty());
    assert_eq!(errors.len(), 1);
    assert_eq!(errors[0].message, "Есть ошибки в регулярном выражении: (");
    assert_eq!(errors[0].type_error, ErrorEnum::Error);
}

#[test]
fn table_column_counts_participating_rows() {
    // Rows are single characters; group `a` participates only in digit rows,
    // group `b` only in letter rows, so each column's length equals the
    // number of rows holding that group, and the other rows warn.
    let rule = table_rule(Some("\\{(?P<r>[^}]*)\\}"), "(?P<a>\\d)|(?P<b>[a-z])", &["a", "b"], 0);
    let (_, tables, errors) = parse(String::new(), "{1 a 2 b}".to_string(), vec![rule]);
    assert_eq!(tables.len(), 2);
    assert_eq!(tables[0].name, "a");
    assert_eq!(tables[0].value, vec!["1".to_string(), "2".to_string()]);
    assert_eq!(tables[1].name, "b");
    assert_eq!(tables[1].value, vec!["a".to_string(), "b".to_string()]);
    // One warning per (row, absent name): four rows, each missing one group.
    assert_eq!(errors.len(), 4);
    for e in &errors {
        assert_eq!(e.type_error, ErrorEnum::Warning);
    }
}

#[test]
fn table_rules_merge_columns() {
    let first = table_rule(Some("A:(?P<r>[0-9 ]*);"), "(?P<val>\\d+)", &["val"], 0);
    let second = table_rule(Some("B:(?P<r>[0-9 ]*);"), "(?P<val>\\d+)", &["val"], 0);
    let (_, tables, errors) = parse(
        String::new(),
        "A:1 2; B:3 4;".to_string(),
        vec![first, second],
    );
    assert!(errors.is_empty());
    assert_eq!(tables.len(), 1);
    assert_eq!(tables[0].name, "val");
    assert_eq!(
        tables[0].value,
        vec!["1".to_string(), "2".to_string(), "3".to_string(), "4".to_string()]
    );
}

#[test]
fn empty_rule_list() {
    let (singles, tables, errors) = parse(
        "name.txt".to_string(),
        "body".to_string(),
        Vec::new(),
    );
    assert!(singles.is_empty());
    assert!(tables.is_empty());
    assert!(errors.is_empty());
}

#[test]
fn deterministic_repeat() {
    let rules = vec![
        scalar_rule("ID: (?P<id>\\d+)", &["id"], false),
        table_rule(Some("Table:(?s)(.*?)End"), "(?P<x>\\d+)-(?P<y>\\d+)", &["x", "y"], 0),
        scalar_rule("(", &["broken"], false),
    ];
    let file_name = "doc.txt".to_string();
    let body = "ID: 42 Table: 1-2 3-4 End".to_string();
    let out1 = parse(file_name.clone(), body.clone(), rules.clone());
    let out2 = parse(file_name, body, rules);
    assert_eq!(out1.0, out2.0);
    assert_eq!(out1.1, out2.1);
    assert_eq!(out1.2, out2.2);
}

#[test]
fn scalar_empty_capture_still_counts() {
    // The group participates in the match even when it captures no text, so
    // a scalar result with an empty value is produced and no warning.
    let rule = scalar_rule("(?P<a>x?)y", &["a"], false);
    let (singles, _, errors) = parse(String::new(), "y".to_string(), vec![rule]);
    assert_eq!(singles.len(), 1);
    assert_eq!(singles[0].name, "a");
    assert_eq!(singles[0].value, "");
    assert!(errors.is_empty());
}

#[test]
fn rule_failure_does_not_stop_batch() {
    let rules = vec![
        scalar_rule("(", &["x"], false),
        scalar_rule("(?P<ok>\\w+)", &["ok"], false),
    ];
    let (singles, _, errors) = parse(String::new(), "hello".to_string(), rules);
    assert_eq!(errors.len(), 1);
    assert_eq!(errors[0].type_error, ErrorEnum::Error);
    assert_eq!(singles.len(), 1);
    assert_eq!(singles[0].name, "ok");
    assert_eq!(singles[0].value, "hello");
}
