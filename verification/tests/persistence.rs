use casetrack::case::{modify_at, new_case, FieldEdit, TestCase};
use casetrack::codec::{cases_to_csv, csv_to_cases};
use casetrack::status::TestStatus;

fn sample_cases() -> Vec<TestCase> {
    let mut a = new_case(
        "a1b2c3d4".to_string(),
        "Login works".to_string(),
        "1.0".to_string(),
        "T-1".to_string(),
    );
    a.status = TestStatus::Validated;
    a.observations = "ok".to_string();
    a.evidence = "img.png".to_string();
    let b = new_case(
        "ffffffff".to_string(),
        "Logout".to_string(),
        "1.0".to_string(),
        "T-1".to_string(),
    );
    vec![a, b]
}

fn assert_cases_equal(x: &TestCase, y: &TestCase) {
    assert_eq!(x.id, y.id);
    assert_eq!(x.description, y.description);
    assert_eq!(x.status, y.status);
    assert_eq!(x.observations, y.observations);
    assert_eq!(x.evidence, y.evidence);
    assert_eq!(x.version, y.version);
    assert_eq!(x.ticket_numbers, y.ticket_numbers);
}

#[test]
fn save_load_round_trip_keeps_every_field() {
    let cases = sample_cases();
    let bytes = cases_to_csv(&cases);
    let (loaded, errors) = csv_to_cases(&bytes);
    assert_eq!(errors, 0);
    assert_eq!(loaded.len(), cases.len());
    for (x, y) in loaded.iter().zip(cases.iter()) {
        assert_cases_equal(x, y);
    }
}

#[test]
fn round_trip_survives_quoting_heavy_fields() {
    let mut tricky = new_case(
        "deadbeef".to_string(),
        "has, commas \"and quotes\"\nand a newline".to_string(),
        "v, 2".to_string(),
        String::new(),
    );
    tricky.observations = "line1\r\nline2 y un retorno suelto\r aquí".to_string();
    tricky.evidence = "ruta con espacios y ñ".to_string();
    let cases = vec![tricky];
    let bytes = cases_to_csv(&cases);
    let (loaded, errors) = csv_to_cases(&bytes);
    assert_eq!(errors, 0);
    assert_eq!(loaded.len(), 1);
    assert_cases_equal(&loaded[0], &cases[0]);
}

#[test]
fn status_persists_as_its_symbolic_name() {
    let cases = sample_cases();
    let bytes = cases_to_csv(&cases);
    let text = String::from_utf8(bytes).unwrap();
    assert!(text.contains("Validated"));
    assert!(text.contains("Pending"));
    assert!(!text.contains("✅"));
    assert!(!text.contains("Validado"));
}

#[test]
fn header_row_comes_first() {
    let cases = sample_cases();
    let bytes = cases_to_csv(&cases);
    let text = String::from_utf8(bytes).unwrap();
    let first_line = text.lines().next().unwrap();
    assert_eq!(
        first_line,
        "id,description,status,observations,evidence,version,ticket_numbers"
    );
}

#[test]
fn malformed_rows_are_skipped_and_counted() {
    let bytes = b"id,description,status,observations,evidence,version,ticket_numbers\n\
x1,foo,Validated,,,1.0,T\n\
bad,row\n\
x2,bar,NotAStatus,,,1.0,T\n\
x3,baz,Pending,,,1.0,T\n"
        .to_vec();
    let (loaded, errors) = csv_to_cases(&bytes);
    assert_eq!(errors, 2);
    assert_eq!(loaded.len(), 2);
    assert_eq!(loaded[0].id, "x1");
    assert_eq!(loaded[0].status, TestStatus::Validated);
    assert_eq!(loaded[1].id, "x3");
    assert_eq!(loaded[1].status, TestStatus::Pending);
}

#[test]
fn empty_and_header_only_files_load_to_nothing() {
    let (loaded, errors) = csv_to_cases(&Vec::new());
    assert_eq!(loaded.len(), 0);
    assert_eq!(errors, 0);

    let header = b"id,description,status,observations,evidence,version,ticket_numbers\n".to_vec();
    let (loaded, errors) = csv_to_cases(&header);
    assert_eq!(loaded.len(), 0);
    assert_eq!(errors, 0);
}

#[test]
fn editing_one_field_leaves_other_rows_byte_identical() {
    let cases = sample_cases();
    let before = String::from_utf8(cases_to_csv(&cases)).unwrap();
    let mut edited = sample_cases();
    modify_at(&mut edited, 0, FieldEdit::Observations("ahora falla".to_string()));
    let after = String::from_utf8(cases_to_csv(&edited)).unwrap();

    let before_lines: Vec<&str> = before.lines().collect();
    let after_lines: Vec<&str> = after.lines().collect();
    assert_eq!(before_lines.len(), after_lines.len());
    for (i, (b, a)) in before_lines.iter().zip(after_lines.iter()).enumerate() {
        if i == 1 {
            assert_ne!(b, a);
        } else {
            assert_eq!(b, a);
        }
    }
}

#[test]
fn single_field_edits_touch_only_that_field() {
    let mut cases = sample_cases();
    modify_at(&mut cases, 1, FieldEdit::Status(TestStatus::Rejected));
    assert_eq!(cases[1].status, TestStatus::Rejected);
    assert_eq!(cases[1].id, "ffffffff");
    assert_eq!(cases[1].description, "Logout");
    assert_eq!(cases[1].observations, "");
    assert_eq!(cases[1].version, "1.0");
    let untouched = sample_cases();
    assert_cases_equal(&cases[0], &untouched[0]);
}
