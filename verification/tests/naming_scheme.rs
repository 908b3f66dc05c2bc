use casetrack::clock::{compact_stamp, display_stamp, now_stamps};
use casetrack::ident::fresh_case_id;
use casetrack::naming::{
    base_name, definition_csv_path, execution_name, execution_paths, is_definition_path,
    paired_md_path, path_stem, strip_run_suffix, TestType,
};

#[test]
fn test_type_parsing_accepts_the_three_spellings() {
    assert_eq!(TestType::from_name("smoke"), Some(TestType::Smoke));
    assert_eq!(TestType::from_name("regression"), Some(TestType::Regression));
    assert_eq!(TestType::from_name("functional"), Some(TestType::Functional));
    assert_eq!(TestType::from_name("Smoke"), None);
    assert_eq!(TestType::from_name("smokey"), None);
    assert_eq!(TestType::from_name(""), None);
}

#[test]
fn base_names_join_type_and_optional_name() {
    assert_eq!(base_name(TestType::Smoke, ""), "smoke");
    assert_eq!(base_name(TestType::Smoke, "login"), "smoke-login");
    assert_eq!(base_name(TestType::Regression, "pagos"), "regression-pagos");
}

#[test]
fn definition_paths_live_under_their_namespace() {
    assert_eq!(definition_csv_path("smoke-login"), "definitions/smoke-login.csv");
}

#[test]
fn path_stems_drop_directory_and_extension() {
    assert_eq!(path_stem("definitions/smoke-login.csv"), "smoke-login");
    assert_eq!(path_stem("executions/smoke-login-20240101_120000.csv"), "smoke-login-20240101_120000");
    assert_eq!(path_stem("plain.csv"), "plain");
    assert_eq!(path_stem("noext"), "noext");
    assert_eq!(path_stem("dir/.csv"), ".csv");
    assert_eq!(path_stem("a/b/c.d.csv"), "c.d");
}

#[test]
fn run_suffix_stripping_drops_only_a_timestamp_tail() {
    assert_eq!(strip_run_suffix("smoke-login-20240101_120000"), "smoke-login");
    assert_eq!(strip_run_suffix("smoke-20240101_120000"), "smoke");
    assert_eq!(strip_run_suffix("smoke"), "smoke");
    // A hand-given name whose tail is no timestamp keeps its full identity.
    assert_eq!(strip_run_suffix("smoke-login"), "smoke-login");
    assert_eq!(strip_run_suffix("smoke-login-v2"), "smoke-login-v2");
    assert_eq!(strip_run_suffix("smoke-login-2024"), "smoke-login-2024");
    assert_eq!(strip_run_suffix("smoke-2024010a_120000"), "smoke-2024010a_120000");
}

#[test]
fn markdown_paths_pair_by_stem() {
    assert_eq!(paired_md_path("definitions/smoke-login.csv"), "definitions/smoke-login.md");
    assert_eq!(
        paired_md_path("executions/smoke-20240101_120000.csv"),
        "executions/smoke-20240101_120000.md"
    );
    assert_eq!(paired_md_path("plain.csv"), "plain.md");
    // Only the extension changes, even when the name itself contains ".csv".
    assert_eq!(paired_md_path("data/archive.csv.csv"), "data/archive.csv.md");
}

#[test]
fn execution_names_and_paths_follow_the_scheme() {
    let name = execution_name("smoke-login", "20240101_120000");
    assert_eq!(name, "smoke-login-20240101_120000");
    let (csv, md) = execution_paths(&name);
    assert_eq!(csv, "executions/smoke-login-20240101_120000.csv");
    assert_eq!(md, "executions/smoke-login-20240101_120000.md");
}

#[test]
fn definition_paths_are_recognized_by_prefix() {
    assert!(is_definition_path("definitions/smoke.csv"));
    assert!(!is_definition_path("executions/smoke-x.csv"));
    assert!(!is_definition_path("definition/smoke.csv"));
    assert!(!is_definition_path(""));
}

#[test]
fn fresh_ids_are_eight_hex_characters() {
    for _ in 0..20 {
        let id = fresh_case_id();
        assert_eq!(id.chars().count(), 8);
        assert!(id.chars().all(|c| c.is_ascii_hexdigit() && !c.is_ascii_uppercase()));
    }
}

#[test]
fn stamps_render_zero_padded() {
    assert_eq!(compact_stamp(2024, 5, 7, 9, 30, 5), "20240507_093005");
    assert_eq!(display_stamp(2024, 5, 7, 9, 30, 5), "2024-05-07 09:30:05");
    assert_eq!(compact_stamp(2024, 12, 31, 23, 59, 59), "20241231_235959");
}

#[test]
fn stamp_years_saturate_at_the_rendered_range() {
    assert_eq!(compact_stamp(-5, 1, 1, 0, 0, 0), "00000101_000000");
    assert_eq!(compact_stamp(123456, 1, 1, 0, 0, 0), "99990101_000000");
}

#[test]
fn clock_stamps_have_the_file_name_shape() {
    let (compact, display) = now_stamps();
    assert_eq!(compact.chars().count(), 15);
    assert!(compact.chars().all(|c| c.is_ascii_digit() || c == '_'));
    assert!(!compact.contains('-'));
    assert_eq!(display.chars().count(), 19);
}
