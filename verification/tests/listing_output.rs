use casetrack::listing::{has_csv_extension, list_lines, numbered_label, select_csv_sorted, str_le};

#[test]
fn byte_order_on_names() {
    assert!(str_le("a", "b"));
    assert!(!str_le("b", "a"));
    assert!(str_le("ab", "abc"));
    assert!(!str_le("abc", "ab"));
    assert!(str_le("same", "same"));
    assert!(str_le("smoke-20240101_000000", "smoke-20250101_000000"));
}

#[test]
fn csv_extension_detection() {
    assert!(has_csv_extension("definitions/x.csv"));
    assert!(has_csv_extension("x.csv"));
    assert!(has_csv_extension("a/b/c.d.csv"));
    assert!(!has_csv_extension("x.md"));
    assert!(!has_csv_extension("definitions/.csv"));
    assert!(!has_csv_extension("nada"));
    assert!(!has_csv_extension("x.CSV"));
}

#[test]
fn definitions_sort_ascending_and_drop_other_files() {
    let names = vec![
        "definitions/b.csv".to_string(),
        "definitions/a.csv".to_string(),
        "definitions/readme.md".to_string(),
        "definitions/c.csv".to_string(),
    ];
    let sorted = select_csv_sorted(&names, false);
    assert_eq!(
        sorted,
        vec![
            "definitions/a.csv".to_string(),
            "definitions/b.csv".to_string(),
            "definitions/c.csv".to_string(),
        ]
    );
}

#[test]
fn executions_sort_most_recent_first() {
    let names = vec![
        "executions/smoke-20240101_090000.csv".to_string(),
        "executions/smoke-20250101_090000.csv".to_string(),
        "executions/smoke-20230101_090000.csv".to_string(),
        "executions/notes.txt".to_string(),
    ];
    let sorted = select_csv_sorted(&names, true);
    assert_eq!(
        sorted,
        vec![
            "executions/smoke-20250101_090000.csv".to_string(),
            "executions/smoke-20240101_090000.csv".to_string(),
            "executions/smoke-20230101_090000.csv".to_string(),
        ]
    );
}

#[test]
fn listing_reports_none_available_for_both_empty_groups() {
    let lines = list_lines(&Vec::new(), &Vec::new());
    assert_eq!(
        lines,
        vec![
            "No hay archivos de definición disponibles.".to_string(),
            "No hay archivos de ejecución disponibles.".to_string(),
        ]
    );
}

#[test]
fn listing_numbers_each_group_independently() {
    let defs = vec!["definitions/a.csv".to_string(), "definitions/b.csv".to_string()];
    let execs: Vec<String> = Vec::new();
    let lines = list_lines(&defs, &execs);
    assert_eq!(
        lines,
        vec![
            "Archivos de definición disponibles:".to_string(),
            "1: definitions/a.csv".to_string(),
            "2: definitions/b.csv".to_string(),
            "No hay archivos de ejecución disponibles.".to_string(),
        ]
    );
}

#[test]
fn numbered_labels_have_the_fixed_shape() {
    assert_eq!(numbered_label(1, "primero"), "1: primero");
    assert_eq!(numbered_label(12, "x"), "12: x");
}
