use casetrack::case::record_execution_at;
use casetrack::codec::csv_to_cases;
use casetrack::gateway::{correction_applies, resolve_correction, CorrectionOutcome};
use casetrack::status::TestStatus;
use casetrack::workflow::{
    choice_labels, parse_ordinal_index, plan_execution_from_definition,
    plan_execution_from_execution, CreateFlow, CreatePhase, EditField,
};

fn flow_up_to_descriptions() -> CreateFlow {
    let mut flow = CreateFlow::begin("smoke", "login", false).unwrap();
    assert_eq!(flow.phase, CreatePhase::AwaitingVersion);
    flow.set_version("1.0".to_string());
    assert_eq!(flow.phase, CreatePhase::AwaitingTickets);
    flow.set_tickets("T-9".to_string());
    assert_eq!(flow.phase, CreatePhase::AwaitingDescription);
    flow
}

#[test]
fn invalid_test_type_starts_nothing() {
    assert!(CreateFlow::begin("humo", "x", false).is_none());
    assert!(CreateFlow::begin("", "x", false).is_none());
    assert!(CreateFlow::begin("smoke ", "x", true).is_none());
}

#[test]
fn overwrite_is_confirmed_after_the_shared_fields() {
    let mut flow = CreateFlow::begin("smoke", "login", true).unwrap();
    assert_eq!(flow.phase, CreatePhase::AwaitingVersion);
    flow.set_version("1.0".to_string());
    flow.set_tickets(String::new());
    assert_eq!(flow.phase, CreatePhase::AwaitingOverwrite);
}

#[test]
fn declining_overwrite_aborts_before_any_case() {
    let mut flow = CreateFlow::begin("smoke", "login", true).unwrap();
    flow.set_version("1.0".to_string());
    flow.set_tickets(String::new());
    flow.resolve_overwrite(false);
    assert_eq!(flow.phase, CreatePhase::Aborted);
    assert!(flow.cases.is_empty());
}

#[test]
fn accepting_overwrite_continues_to_case_entry() {
    let mut flow = CreateFlow::begin("smoke", "login", true).unwrap();
    flow.set_version("1.0".to_string());
    flow.set_tickets(String::new());
    flow.resolve_overwrite(true);
    assert_eq!(flow.phase, CreatePhase::AwaitingDescription);
}

#[test]
fn fin_terminates_entry_without_a_case() {
    for sentinel in ["FIN", "fin", "  Fin\t"] {
        let mut flow = flow_up_to_descriptions();
        assert!(flow.offer_description("primer caso".to_string()));
        assert!(!flow.offer_description(sentinel.to_string()));
        assert_eq!(flow.cases.len(), 1);
        assert_eq!(flow.phase, CreatePhase::Saving);
    }
}

#[test]
fn fin_on_an_empty_batch_aborts() {
    let mut flow = flow_up_to_descriptions();
    assert!(!flow.offer_description("FIN".to_string()));
    assert_eq!(flow.phase, CreatePhase::Aborted);
    assert!(flow.cases.is_empty());
}

#[test]
fn created_batch_round_trips_through_its_definition() {
    let mut flow = flow_up_to_descriptions();
    flow.offer_description("Login con usuario válido".to_string());
    flow.offer_description("Login con clave errada".to_string());
    flow.offer_description("fin".to_string());
    assert_eq!(flow.phase, CreatePhase::Saving);

    let (path, bytes) = flow.save_payload();
    assert_eq!(path, "definitions/smoke-login.csv");
    let (loaded, errors) = csv_to_cases(&bytes);
    assert_eq!(errors, 0);
    assert_eq!(loaded.len(), 2);
    assert_eq!(loaded[0].description, "Login con usuario válido");
    assert_eq!(loaded[1].description, "Login con clave errada");
    for case in &loaded {
        assert_eq!(case.status, TestStatus::Pending);
        assert_eq!(case.observations, "");
        assert_eq!(case.evidence, "");
        assert_eq!(case.version, "1.0");
        assert_eq!(case.ticket_numbers, "T-9");
        assert_eq!(case.id.chars().count(), 8);
    }
}

#[test]
fn corrections_replace_only_the_description() {
    let mut flow = flow_up_to_descriptions();
    flow.offer_description("logn roto".to_string());
    flow.offer_description("FIN".to_string());
    flow.apply_correction(0, "login roto".to_string());
    assert_eq!(flow.cases[0].description, "login roto");
    assert_eq!(flow.cases[0].status, TestStatus::Pending);
    assert_eq!(flow.cases[0].version, "1.0");
}

#[test]
fn executing_a_definition_names_one_fresh_pair() {
    let plan = plan_execution_from_definition("definitions/smoke-login.csv", "20240101_120000");
    assert_eq!(plan.name, "smoke-login-20240101_120000");
    assert_eq!(plan.csv_path, "executions/smoke-login-20240101_120000.csv");
    assert_eq!(plan.md_path, "executions/smoke-login-20240101_120000.md");
}

#[test]
fn reexecution_never_accumulates_timestamps() {
    let first = plan_execution_from_definition("definitions/smoke-login.csv", "20240101_120000");
    let second = plan_execution_from_execution(&first.csv_path, "20240202_130000");
    assert_eq!(second.name, "smoke-login-20240202_130000");
    assert_eq!(second.csv_path, "executions/smoke-login-20240202_130000.csv");
    let third = plan_execution_from_execution(&second.csv_path, "20240303_140000");
    assert_eq!(third.name, "smoke-login-20240303_140000");
    assert_ne!(second.csv_path, first.csv_path);
    assert_ne!(third.csv_path, second.csv_path);
    assert_ne!(third.md_path, second.md_path);
}

#[test]
fn recording_an_execution_updates_the_three_outcome_fields() {
    let mut flow = flow_up_to_descriptions();
    flow.offer_description("caso".to_string());
    flow.offer_description("FIN".to_string());
    let mut cases = flow.cases;
    record_execution_at(
        &mut cases,
        0,
        TestStatus::Rejected,
        "falló el botón".to_string(),
        "captura.png".to_string(),
    );
    assert_eq!(cases[0].status, TestStatus::Rejected);
    assert_eq!(cases[0].observations, "falló el botón");
    assert_eq!(cases[0].evidence, "captura.png");
    assert_eq!(cases[0].description, "caso");
    assert_eq!(cases[0].version, "1.0");
}

#[test]
fn choice_labels_show_one_based_ordinals() {
    let mut flow = flow_up_to_descriptions();
    flow.offer_description("uno".to_string());
    flow.offer_description("dos".to_string());
    flow.offer_description("FIN".to_string());
    let labels = choice_labels(&flow.cases);
    assert_eq!(labels, vec!["1: uno".to_string(), "2: dos".to_string()]);
}

#[test]
fn ordinal_parsing_reads_labels_back() {
    assert_eq!(parse_ordinal_index("1: uno"), 0);
    assert_eq!(parse_ordinal_index("3: hacer algo"), 2);
    assert_eq!(parse_ordinal_index("12: x"), 11);
    assert_eq!(parse_ordinal_index("12: con: dos puntos"), 11);
    // Malformed prefixes fall back to the first position.
    assert_eq!(parse_ordinal_index("sin número"), 0);
    assert_eq!(parse_ordinal_index(": vacío"), 0);
    assert_eq!(parse_ordinal_index("0: cero"), 0);
    assert_eq!(parse_ordinal_index("99999999999999999999999999: enorme"), 0);
}

#[test]
fn field_labels_round_trip() {
    for field in [
        EditField::Description,
        EditField::Status,
        EditField::Observations,
        EditField::Evidence,
        EditField::Version,
        EditField::TicketNumbers,
    ] {
        assert_eq!(EditField::from_label(&field.label()), Some(field));
    }
    assert_eq!(EditField::from_label("otro"), None);
    let labels = EditField::option_labels();
    assert_eq!(
        labels,
        vec![
            "Descripción".to_string(),
            "Estado".to_string(),
            "Observaciones".to_string(),
            "Evidencia".to_string(),
            "Versión".to_string(),
            "Ticket(s)".to_string(),
        ]
    );
}

#[test]
fn blank_text_never_goes_to_the_correction_service() {
    assert!(!correction_applies(""));
    assert!(!correction_applies("   \t"));
    assert!(correction_applies("palabra"));
    assert!(correction_applies("  palabra  "));
}

#[test]
fn correction_failures_fall_back_to_the_original() {
    let original = "texto original".to_string();
    assert_eq!(
        resolve_correction(original.clone(), CorrectionOutcome::Corrected("texto corregido".to_string())),
        "texto corregido"
    );
    assert_eq!(
        resolve_correction(original.clone(), CorrectionOutcome::MissingCredential),
        "texto original"
    );
    assert_eq!(
        resolve_correction(original.clone(), CorrectionOutcome::Unreachable),
        "texto original"
    );
    assert_eq!(
        resolve_correction(original.clone(), CorrectionOutcome::ServiceError),
        "texto original"
    );
    assert_eq!(
        resolve_correction(original, CorrectionOutcome::Unparsable),
        "texto original"
    );
}
