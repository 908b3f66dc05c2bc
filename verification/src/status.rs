use vstd::prelude::*;

use crate::text::str_eq;

verus! {

/// Outcome recorded for one test case. `Pending` is the initial state of every
/// freshly created case; any state may be reached from any other.
#[derive(Clone, Copy, PartialEq, Eq, Structural, Debug)]
pub enum TestStatus {
    Pending,
    Validated,
    Rejected,
    Skipped,
    Blocked,
}

/// Display label of a status: emoji plus localized word. Used in prompts,
/// in the report's detail table and in the chart.
pub open spec fn spec_label(s: TestStatus) -> Seq<char> {
    match s {
        TestStatus::Pending => "⏳ Pendiente"@,
        TestStatus::Validated => "✅ Validado"@,
        TestStatus::Rejected => "❌ Rechazado"@,
        TestStatus::Skipped => "⏭️ Omitido"@,
        TestStatus::Blocked => "🚫 Bloqueado"@,
    }
}

/// Symbolic name of a status, the form persisted in CSV files.
pub open spec fn spec_name(s: TestStatus) -> Seq<char> {
    match s {
        TestStatus::Pending => "Pending"@,
        TestStatus::Validated => "Validated"@,
        TestStatus::Rejected => "Rejected"@,
        TestStatus::Skipped => "Skipped"@,
        TestStatus::Blocked => "Blocked"@,
    }
}

/// Parsing a symbolic name: exact match on one of the five names, else nothing.
/// A persisted row whose status column holds anything else is malformed.
pub open spec fn spec_status_of_name(n: Seq<char>) -> Option<TestStatus> {
    if n == spec_name(TestStatus::Pending) {
        Some(TestStatus::Pending)
    } else if n == spec_name(TestStatus::Validated) {
        Some(TestStatus::Validated)
    } else if n == spec_name(TestStatus::Rejected) {
        Some(TestStatus::Rejected)
    } else if n == spec_name(TestStatus::Skipped) {
        Some(TestStatus::Skipped)
    } else if n == spec_name(TestStatus::Blocked) {
        Some(TestStatus::Blocked)
    } else {
        None
    }
}

/// Parsing a display label back to a status is total: an unrecognized label
/// deliberately falls back to `Pending` (fail-safe re-entry, not an error).
pub open spec fn spec_status_of_label(l: Seq<char>) -> TestStatus {
    if l == spec_label(TestStatus::Validated) {
        TestStatus::Validated
    } else if l == spec_label(TestStatus::Rejected) {
        TestStatus::Rejected
    } else if l == spec_label(TestStatus::Skipped) {
        TestStatus::Skipped
    } else if l == spec_label(TestStatus::Blocked) {
        TestStatus::Blocked
    } else {
        TestStatus::Pending
    }
}

impl TestStatus {
    /// Display label shown in prompts, reports and tables.
    pub fn label(&self) -> (r: String)
        ensures
            r@ == spec_label(*self),
    {
        match self {
            TestStatus::Pending => String::from_str("⏳ Pendiente"),
            TestStatus::Validated => String::from_str("✅ Validado"),
            TestStatus::Rejected => String::from_str("❌ Rechazado"),
            TestStatus::Skipped => String::from_str("⏭️ Omitido"),
            TestStatus::Blocked => String::from_str("🚫 Bloqueado"),
        }
    }

    /// Symbolic name used in the CSV status column.
    pub fn name(&self) -> (r: String)
        ensures
            r@ == spec_name(*self),
    {
        match self {
            TestStatus::Pending => String::from_str("Pending"),
            TestStatus::Validated => String::from_str("Validated"),
            TestStatus::Rejected => String::from_str("Rejected"),
            TestStatus::Skipped => String::from_str("Skipped"),
            TestStatus::Blocked => String::from_str("Blocked"),
        }
    }

    /// Parses a symbolic name; `None` for anything but the five exact names.
    pub fn from_name(n: &str) -> (r: Option<TestStatus>)
        ensures
            r == spec_status_of_name(n@),
    {
        if str_eq(n, "Pending") {
            Some(TestStatus::Pending)
        } else if str_eq(n, "Validated") {
            Some(TestStatus::Validated)
        } else if str_eq(n, "Rejected") {
            Some(TestStatus::Rejected)
        } else if str_eq(n, "Skipped") {
            Some(TestStatus::Skipped)
        } else if str_eq(n, "Blocked") {
            Some(TestStatus::Blocked)
        } else {
            None
        }
    }

    /// Parses a display label; total, with `Pending` as the deliberate
    /// fallback for unrecognized input.
    pub fn from_label(l: &str) -> (r: TestStatus)
        ensures
            r == spec_status_of_label(l@),
    {
        if str_eq(l, "✅ Validado") {
            TestStatus::Validated
        } else if str_eq(l, "❌ Rechazado") {
            TestStatus::Rejected
        } else if str_eq(l, "⏭️ Omitido") {
            TestStatus::Skipped
        } else if str_eq(l, "🚫 Bloqueado") {
            TestStatus::Blocked
        } else {
            TestStatus::Pending
        }
    }
}

/// The five symbolic names are pairwise distinct, so parsing a name is
/// unambiguous: `spec_status_of_name` inverts `spec_name` on every status.
pub proof fn lemma_name_round_trip(s: TestStatus)
    ensures
        spec_status_of_name(spec_name(s)) == Some(s),
{
    reveal_strlit("Pending");
    reveal_strlit("Validated");
    reveal_strlit("Rejected");
    reveal_strlit("Skipped");
    reveal_strlit("Blocked");
    // The five names differ pairwise already in their first character.
    assert(forall|a: TestStatus, b: TestStatus|
        spec_name(a)[0] == spec_name(b)[0] ==> a == b);
}

/// The five display labels are pairwise distinct, so re-entering a label
/// restores the same status: `spec_status_of_label` inverts `spec_label`.
pub proof fn lemma_label_round_trip(s: TestStatus)
    ensures
        spec_status_of_label(spec_label(s)) == s,
{
    reveal_strlit("⏳ Pendiente");
    reveal_strlit("✅ Validado");
    reveal_strlit("❌ Rechazado");
    reveal_strlit("⏭️ Omitido");
    reveal_strlit("🚫 Bloqueado");
    // The five labels differ pairwise already in their leading emoji.
    assert(forall|a: TestStatus, b: TestStatus|
        spec_label(a)[0] == spec_label(b)[0] ==> a == b);
}

} // verus!
