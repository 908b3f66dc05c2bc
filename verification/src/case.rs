use vstd::prelude::*;

use crate::status::TestStatus;

verus! {

/// One row of test evidence. `id` is generated once at creation and never
/// changes; `version` and `ticket_numbers` are shared by every case created in
/// the same batch; the remaining fields are edited by the workflows.
pub struct TestCase {
    pub id: String,
    pub description: String,
    pub status: TestStatus,
    pub observations: String,
    pub evidence: String,
    pub version: String,
    pub ticket_numbers: String,
}

/// Mathematical image of a `TestCase`: every text field as its character
/// sequence.
pub ghost struct TestCaseView {
    pub id: Seq<char>,
    pub description: Seq<char>,
    pub status: TestStatus,
    pub observations: Seq<char>,
    pub evidence: Seq<char>,
    pub version: Seq<char>,
    pub ticket_numbers: Seq<char>,
}

impl View for TestCase {
    type V = TestCaseView;

    open spec fn view(&self) -> TestCaseView {
        TestCaseView {
            id: self.id@,
            description: self.description@,
            status: self.status,
            observations: self.observations@,
            evidence: self.evidence@,
            version: self.version@,
            ticket_numbers: self.ticket_numbers@,
        }
    }
}

impl Clone for TestCase {
    fn clone(&self) -> (r: Self)
        ensures
            r@ == self@,
    {
        TestCase {
            id: self.id.clone(),
            description: self.description.clone(),
            status: self.status,
            observations: self.observations.clone(),
            evidence: self.evidence.clone(),
            version: self.version.clone(),
            ticket_numbers: self.ticket_numbers.clone(),
        }
    }
}

/// The views of a whole collection of cases.
pub open spec fn views_of_cases(s: Seq<TestCase>) -> Seq<TestCaseView> {
    s.map_values(|c: TestCase| c@)
}

/// A freshly created case: given description, batch-shared version and
/// tickets, initial status `Pending`, and nothing observed or evidenced yet.
pub open spec fn spec_new_case(
    id: Seq<char>,
    description: Seq<char>,
    version: Seq<char>,
    tickets: Seq<char>,
) -> TestCaseView {
    TestCaseView {
        id: id,
        description: description,
        status: TestStatus::Pending,
        observations: Seq::<char>::empty(),
        evidence: Seq::<char>::empty(),
        version: version,
        ticket_numbers: tickets,
    }
}

/// Builds the case a creation batch records for one accepted description.
pub fn new_case(id: String, description: String, version: String, tickets: String) -> (r: TestCase)
    ensures
        r@ == spec_new_case(id@, description@, version@, tickets@),
{
    TestCase {
        id,
        description,
        status: TestStatus::Pending,
        observations: String::new(),
        evidence: String::new(),
        version,
        ticket_numbers: tickets,
    }
}

/// One single-field change requested by the modify workflow.
pub enum FieldEdit {
    Description(String),
    Status(TestStatus),
    Observations(String),
    Evidence(String),
    Version(String),
    TicketNumbers(String),
}

/// What a single-field edit does to a case: exactly the named field takes the
/// new value; every other field keeps its old one.
pub open spec fn spec_apply_edit(c: TestCaseView, e: FieldEdit) -> TestCaseView {
    match e {
        FieldEdit::Description(v) => TestCaseView { description: v@, ..c },
        FieldEdit::Status(s) => TestCaseView { status: s, ..c },
        FieldEdit::Observations(v) => TestCaseView { observations: v@, ..c },
        FieldEdit::Evidence(v) => TestCaseView { evidence: v@, ..c },
        FieldEdit::Version(v) => TestCaseView { version: v@, ..c },
        FieldEdit::TicketNumbers(v) => TestCaseView { ticket_numbers: v@, ..c },
    }
}

/// Applies a single-field edit to one case.
pub fn apply_edit(c: &mut TestCase, e: FieldEdit)
    ensures
        final(c)@ == spec_apply_edit(old(c)@, e),
{
    match e {
        FieldEdit::Description(v) => {
            c.description = v;
        },
        FieldEdit::Status(s) => {
            c.status = s;
        },
        FieldEdit::Observations(v) => {
            c.observations = v;
        },
        FieldEdit::Evidence(v) => {
            c.evidence = v;
        },
        FieldEdit::Version(v) => {
            c.version = v;
        },
        FieldEdit::TicketNumbers(v) => {
            c.ticket_numbers = v;
        },
    }
}

/// Applies a single-field edit to the case at position `i`, leaving every
/// other case untouched.
pub fn modify_at(cases: &mut Vec<TestCase>, i: usize, e: FieldEdit)
    requires
        i < old(cases)@.len(),
    ensures
        final(cases)@.len() == old(cases)@.len(),
        final(cases)@[i as int]@ == spec_apply_edit(old(cases)@[i as int]@, e),
        forall|j: int|
            0 <= j < old(cases)@.len() && j != i ==> final(cases)@[j] == old(cases)@[j],
{
    let case = &mut cases[i];
    apply_edit(case, e);
}

/// What executing one case records: a fresh status, observations and
/// evidence; identity, description, version and tickets are untouched.
pub open spec fn spec_executed_case(
    c: TestCaseView,
    status: TestStatus,
    observations: Seq<char>,
    evidence: Seq<char>,
) -> TestCaseView {
    TestCaseView { status: status, observations: observations, evidence: evidence, ..c }
}

/// Records the outcome of executing the case at position `i`.
pub fn record_execution_at(
    cases: &mut Vec<TestCase>,
    i: usize,
    status: TestStatus,
    observations: String,
    evidence: String,
)
    requires
        i < old(cases)@.len(),
    ensures
        final(cases)@.len() == old(cases)@.len(),
        final(cases)@[i as int]@ == spec_executed_case(
            old(cases)@[i as int]@,
            status,
            observations@,
            evidence@,
        ),
        forall|j: int|
            0 <= j < old(cases)@.len() && j != i ==> final(cases)@[j] == old(cases)@[j],
{
    let case = &mut cases[i];
    case.status = status;
    case.observations = observations;
    case.evidence = evidence;
}

} // verus!
