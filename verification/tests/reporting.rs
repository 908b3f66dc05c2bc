use casetrack::case::{new_case, TestCase};
use casetrack::report::{count_statuses, render_report};
use casetrack::status::TestStatus;

fn sample_cases() -> Vec<TestCase> {
    let mut a = new_case(
        "a1b2c3d4".to_string(),
        "Login works".to_string(),
        "1.0".to_string(),
        "T-1".to_string(),
    );
    a.status = TestStatus::Validated;
    a.observations = "ok".to_string();
    a.evidence = "img.png".to_string();
    let b = new_case(
        "ffffffff".to_string(),
        "Logout".to_string(),
        "1.0".to_string(),
        "T-1".to_string(),
    );
    vec![a, b]
}

#[test]
fn report_matches_the_exact_layout() {
    let cases = sample_cases();
    let report = render_report(&cases, "smoke-login-20240101_000000", "2024-01-01 00:00:00");
    let expected = "# Informe de Pruebas: smoke-login-20240101_000000\n\nFecha de ejecución: 2024-01-01 00:00:00\nVersión de prueba: 1.0\nTicket(s): T-1\n\n## Resumen Numérico\n\n- Total de casos: 2\n- ✅ Validados: 1\n- ❌ Rechazados: 0\n- ⏳ Pendientes: 1\n- ⏭️ Omitidos: 0\n- 🚫 Bloqueados: 0\n\n## Resumen Visual\n\n```mermaid\npie title Distribución de Casos de Prueba\n    \"✅ Validados\" : 1\n    \"⏳ Pendientes\" : 1\n```\n\n## Detalle de casos\n\n| ID | Descripción | Estado | Observaciones | Evidencia |\n|-----|------------|--------|---------------|-----------|\n| a1b2c3d4 | Login works | ✅ Validado | ok | img.png |\n| ffffffff | Logout | ⏳ Pendiente |  |  |\n";
    assert_eq!(report, expected);
}

#[test]
fn report_is_deterministic_for_fixed_inputs() {
    let cases = sample_cases();
    let one = render_report(&cases, "t", "2024-01-01 00:00:00");
    let two = render_report(&cases, "t", "2024-01-01 00:00:00");
    assert_eq!(one, two);
}

#[test]
fn empty_collection_report_has_zero_counts_and_no_chart_lines() {
    let cases: Vec<TestCase> = Vec::new();
    let report = render_report(&cases, "vacío", "2024-01-01 00:00:00");
    assert!(report.contains("- Total de casos: 0\n"));
    assert!(report.contains("- ✅ Validados: 0\n"));
    assert!(report.contains("- 🚫 Bloqueados: 0\n"));
    // The chart block opens and closes with nothing between.
    assert!(report.contains("pie title Distribución de Casos de Prueba\n```\n"));
    // No version or ticket lines for the empty collection.
    assert!(!report.contains("Versión de prueba"));
    assert!(!report.contains("Ticket(s)"));
}

#[test]
fn empty_tickets_render_as_not_available() {
    let case = new_case(
        "aaaaaaaa".to_string(),
        "algo".to_string(),
        "2.0".to_string(),
        String::new(),
    );
    let report = render_report(&vec![case], "t", "2024-01-01 00:00:00");
    assert!(report.contains("Ticket(s): N/A\n"));
}

#[test]
fn status_counts_sum_to_the_case_count() {
    let mut cases = sample_cases();
    cases.push({
        let mut c = new_case("01234567".to_string(), "x".to_string(), "1.0".to_string(), String::new());
        c.status = TestStatus::Blocked;
        c
    });
    let counts = count_statuses(&cases);
    let sum = counts.validated + counts.rejected + counts.pending + counts.skipped + counts.blocked;
    assert_eq!(sum, cases.len());
    assert_eq!(counts.validated, 1);
    assert_eq!(counts.pending, 1);
    assert_eq!(counts.blocked, 1);
    assert_eq!(counts.rejected, 0);
    assert_eq!(counts.skipped, 0);

    let none: Vec<TestCase> = Vec::new();
    let zero = count_statuses(&none);
    assert_eq!(
        zero.validated + zero.rejected + zero.pending + zero.skipped + zero.blocked,
        0
    );
}

#[test]
fn chart_omits_only_zero_counts() {
    let cases = sample_cases();
    let report = render_report(&cases, "t", "2024-01-01 00:00:00");
    assert!(report.contains("    \"✅ Validados\" : 1\n"));
    assert!(report.contains("    \"⏳ Pendientes\" : 1\n"));
    assert!(!report.contains("\"❌ Rechazados\""));
    assert!(!report.contains("\"⏭️ Omitidos\""));
    assert!(!report.contains("\"🚫 Bloqueados\""));
}
