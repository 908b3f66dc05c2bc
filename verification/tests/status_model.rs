use casetrack::status::TestStatus;

#[test]
fn labels_are_the_fixed_display_strings() {
    assert_eq!(TestStatus::Pending.label(), "⏳ Pendiente");
    assert_eq!(TestStatus::Validated.label(), "✅ Validado");
    assert_eq!(TestStatus::Rejected.label(), "❌ Rechazado");
    assert_eq!(TestStatus::Skipped.label(), "⏭️ Omitido");
    assert_eq!(TestStatus::Blocked.label(), "🚫 Bloqueado");
}

#[test]
fn names_are_the_symbolic_forms() {
    assert_eq!(TestStatus::Pending.name(), "Pending");
    assert_eq!(TestStatus::Validated.name(), "Validated");
    assert_eq!(TestStatus::Rejected.name(), "Rejected");
    assert_eq!(TestStatus::Skipped.name(), "Skipped");
    assert_eq!(TestStatus::Blocked.name(), "Blocked");
}

#[test]
fn name_parsing_is_exact() {
    assert_eq!(TestStatus::from_name("Pending"), Some(TestStatus::Pending));
    assert_eq!(TestStatus::from_name("Validated"), Some(TestStatus::Validated));
    assert_eq!(TestStatus::from_name("Rejected"), Some(TestStatus::Rejected));
    assert_eq!(TestStatus::from_name("Skipped"), Some(TestStatus::Skipped));
    assert_eq!(TestStatus::from_name("Blocked"), Some(TestStatus::Blocked));
    assert_eq!(TestStatus::from_name("pending"), None);
    assert_eq!(TestStatus::from_name("Validated "), None);
    assert_eq!(TestStatus::from_name(""), None);
}

#[test]
fn label_parsing_is_total_with_pending_fallback() {
    assert_eq!(TestStatus::from_label("✅ Validado"), TestStatus::Validated);
    assert_eq!(TestStatus::from_label("❌ Rechazado"), TestStatus::Rejected);
    assert_eq!(TestStatus::from_label("⏭️ Omitido"), TestStatus::Skipped);
    assert_eq!(TestStatus::from_label("🚫 Bloqueado"), TestStatus::Blocked);
    assert_eq!(TestStatus::from_label("⏳ Pendiente"), TestStatus::Pending);
    assert_eq!(TestStatus::from_label("anything else"), TestStatus::Pending);
    assert_eq!(TestStatus::from_label(""), TestStatus::Pending);
}

#[test]
fn every_label_round_trips_to_its_status() {
    for st in [
        TestStatus::Pending,
        TestStatus::Validated,
        TestStatus::Rejected,
        TestStatus::Skipped,
        TestStatus::Blocked,
    ] {
        assert_eq!(TestStatus::from_label(&st.label()), st);
        assert_eq!(TestStatus::from_name(&st.name()), Some(st));
    }
}
