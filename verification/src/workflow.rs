use vstd::prelude::*;

use crate::case::{spec_new_case, TestCase};
use crate::codec::{cases_to_csv, spec_doc_of_cases, spec_load_errors, spec_loaded_views};
use crate::csv_io::{csv_encoding, csv_parsed};
use crate::ident::{fresh_case_id, is_hex_char};
use crate::naming::{
    base_name, definition_csv_path, execution_name, execution_paths, path_stem,
    spec_base_name, spec_definition_csv_path, spec_execution_csv_path, spec_execution_md_path,
    spec_execution_name, spec_path_stem, spec_strip_run_suffix, spec_type_of_name,
    strip_run_suffix, TestType,
};
use crate::text::str_eq;
use crate::text::{
    find_char, is_digit_char, lemma_decimal_val, lemma_digits_val_nonneg, lemma_find_at,
    lemma_find_bounds, spec_digit_val, spec_digits_val, spec_find, spec_is_fin,
};
use crate::case::views_of_cases;
use crate::listing::{numbered_label, spec_numbered_label, spec_numbered_lines, views_of_names};
use crate::text::is_end_sentinel;

verus! {

/// Where the create workflow stands between two prompts.
#[derive(Clone, Copy, PartialEq, Eq, Structural, Debug)]
pub enum CreatePhase {
    /// Waiting for the batch-shared version.
    AwaitingVersion,
    /// Waiting for the batch-shared ticket numbers.
    AwaitingTickets,
    /// A definition of this name exists; its overwrite must be confirmed.
    AwaitingOverwrite,
    /// Waiting for the next case description, or the end sentinel.
    AwaitingDescription,
    /// Entry is closed with at least one case: the definition may be saved.
    Saving,
    /// The operation is over without a save; nothing may be written.
    Aborted,
}

/// The create workflow's state: what has been collected so far, and the
/// phase that says which event comes next. The interactive loop around it
/// performs the prompts and the file writes; every decision is taken here.
pub struct CreateFlow {
    pub test_type: TestType,
    pub base: String,
    pub definition_exists: bool,
    pub version: String,
    pub tickets: String,
    pub cases: Vec<TestCase>,
    pub phase: CreatePhase,
}

impl CreateFlow {
    /// Starts a create run. The test type must be one of the three allowed
    /// spellings, else there is nothing to start; with a valid type the flow
    /// opens on the version prompt, remembering whether a definition of the
    /// computed name already exists so that its overwrite is confirmed once
    /// the shared fields are collected.
    pub fn begin(test_type: &str, name: &str, definition_exists: bool) -> (r: Option<CreateFlow>)
        ensures
            match r {
                None => spec_type_of_name(test_type@) is None,
                Some(flow) => {
                    &&& spec_type_of_name(test_type@) == Some(flow.test_type)
                    &&& flow.base@ == spec_base_name(flow.test_type, name@)
                    &&& flow.definition_exists == definition_exists
                    &&& flow.version@.len() == 0
                    &&& flow.tickets@.len() == 0
                    &&& flow.cases@.len() == 0
                    &&& flow.phase == CreatePhase::AwaitingVersion
                },
            },
    {
        let t = match TestType::from_name(test_type) {
            Some(t) => t,
            None => {
                return None;
            },
        };
        let base = base_name(t, name);
        Some(
            CreateFlow {
                test_type: t,
                base,
                definition_exists,
                version: String::new(),
                tickets: String::new(),
                cases: Vec::new(),
                phase: CreatePhase::AwaitingVersion,
            },
        )
    }

    /// Where this flow's definition will be written.
    pub fn definition_path(&self) -> (r: String)
        ensures
            r@ == spec_definition_csv_path(self.base@),
    {
        definition_csv_path(self.base.as_str())
    }

    /// Answers the overwrite confirmation. Declining aborts the whole
    /// operation: the phase moves to `Aborted` and nothing else changes, so
    /// the existing file stays as it was and no further step is owed.
    pub fn resolve_overwrite(&mut self, overwrite: bool)
        requires
            old(self).phase == CreatePhase::AwaitingOverwrite,
        ensures
            final(self).phase == (if overwrite {
                CreatePhase::AwaitingDescription
            } else {
                CreatePhase::Aborted
            }),
            final(self).test_type == old(self).test_type,
            final(self).base@ == old(self).base@,
            final(self).definition_exists == old(self).definition_exists,
            final(self).version@ == old(self).version@,
            final(self).tickets@ == old(self).tickets@,
            final(self).cases@ == old(self).cases@,
    {
        self.phase = if overwrite {
            CreatePhase::AwaitingDescription
        } else {
            CreatePhase::Aborted
        };
    }

    /// Records the batch-shared version.
    pub fn set_version(&mut self, version: String)
        requires
            old(self).phase == CreatePhase::AwaitingVersion,
        ensures
            final(self).phase == CreatePhase::AwaitingTickets,
            final(self).version@ == version@,
            final(self).test_type == old(self).test_type,
            final(self).base@ == old(self).base@,
            final(self).definition_exists == old(self).definition_exists,
            final(self).tickets@ == old(self).tickets@,
            final(self).cases@ == old(self).cases@,
    {
        self.version = version;
        self.phase = CreatePhase::AwaitingTickets;
    }

    /// Records the batch-shared ticket numbers. With both shared fields
    /// collected, the flow turns to the overwrite confirmation when a
    /// definition of this name already exists, else straight to case entry.
    pub fn set_tickets(&mut self, tickets: String)
        requires
            old(self).phase == CreatePhase::AwaitingTickets,
        ensures
            final(self).phase == (if old(self).definition_exists {
                CreatePhase::AwaitingOverwrite
            } else {
                CreatePhase::AwaitingDescription
            }),
            final(self).tickets@ == tickets@,
            final(self).test_type == old(self).test_type,
            final(self).base@ == old(self).base@,
            final(self).definition_exists == old(self).definition_exists,
            final(self).version@ == old(self).version@,
            final(self).cases@ == old(self).cases@,
    {
        self.tickets = tickets;
        self.phase = if self.definition_exists {
            CreatePhase::AwaitingOverwrite
        } else {
            CreatePhase::AwaitingDescription
        };
    }

    /// Offers one entered description. The sentinel `FIN` — any letter case,
    /// whitespace around it ignored — always ends entry without making a
    /// case: with an empty batch the operation aborts, else it closes ready
    /// to save. Any other text becomes one case with a fresh identifier,
    /// status `Pending`, nothing observed, and the batch's shared version and
    /// tickets.
    pub fn offer_description(&mut self, description: String) -> (added: bool)
        requires
            old(self).phase == CreatePhase::AwaitingDescription,
        ensures
            final(self).test_type == old(self).test_type,
            final(self).base@ == old(self).base@,
            final(self).definition_exists == old(self).definition_exists,
            final(self).version@ == old(self).version@,
            final(self).tickets@ == old(self).tickets@,
            spec_is_fin(description@) ==> {
                &&& !added
                &&& final(self).cases@ == old(self).cases@
                &&& final(self).phase == (if old(self).cases@.len() == 0 {
                    CreatePhase::Aborted
                } else {
                    CreatePhase::Saving
                })
            },
            !spec_is_fin(description@) ==> {
                &&& added
                &&& final(self).phase == CreatePhase::AwaitingDescription
                &&& final(self).cases@.len() == old(self).cases@.len() + 1
                &&& (forall|j: int|
                    0 <= j < old(self).cases@.len() ==> final(self).cases@[j] == old(
                        self,
                    ).cases@[j])
                &&& final(self).cases@.last()@ == spec_new_case(
                    final(self).cases@.last()@.id,
                    description@,
                    old(self).version@,
                    old(self).tickets@,
                )
                &&& final(self).cases@.last()@.id.len() == 8
                &&& (forall|i: int|
                    0 <= i < 8 ==> is_hex_char(#[trigger] final(self).cases@.last()@.id[i]))
            },
    {
        if is_end_sentinel(description.as_str()) {
            self.phase = if self.cases.len() == 0 {
                CreatePhase::Aborted
            } else {
                CreatePhase::Saving
            };
            false
        } else {
            let id = fresh_case_id();
            let case = crate::case::new_case(
                id,
                description,
                self.version.clone(),
                self.tickets.clone(),
            );
            self.cases.push(case);
            true
        }
    }

    /// Replaces the description of one collected case with its corrected
    /// form; every other field and every other case stays as it was.
    pub fn apply_correction(&mut self, index: usize, corrected: String)
        requires
            old(self).phase == CreatePhase::Saving,
            index < old(self).cases@.len(),
        ensures
            final(self).phase == CreatePhase::Saving,
            final(self).test_type == old(self).test_type,
            final(self).base@ == old(self).base@,
            final(self).definition_exists == old(self).definition_exists,
            final(self).version@ == old(self).version@,
            final(self).tickets@ == old(self).tickets@,
            final(self).cases@.len() == old(self).cases@.len(),
            final(self).cases@[index as int]@ == crate::case::spec_apply_edit(
                old(self).cases@[index as int]@,
                crate::case::FieldEdit::Description(corrected),
            ),
            forall|j: int|
                0 <= j < old(self).cases@.len() && j != index ==> final(self).cases@[j] == old(
                    self,
                ).cases@[j],
    {
        crate::case::modify_at(&mut self.cases, index, crate::case::FieldEdit::Description(corrected));
    }

    /// Serializes the closed batch for persisting: the definition's path and
    /// its CSV bytes. Loading those bytes back yields exactly the collected
    /// cases, none skipped.
    pub fn save_payload(&self) -> (r: (String, Vec<u8>))
        requires
            self.phase == CreatePhase::Saving,
        ensures
            r.0@ == spec_definition_csv_path(self.base@),
            r.1@ == csv_encoding(spec_doc_of_cases(views_of_cases(self.cases@))),
            spec_loaded_views(csv_parsed(r.1@)) == views_of_cases(self.cases@),
            spec_load_errors(csv_parsed(r.1@)) == 0,
    {
        let path = definition_csv_path(self.base.as_str());
        let bytes = cases_to_csv(&self.cases);
        (path, bytes)
    }
}

/// Where one execution run will write its snapshot.
pub struct ExecutionPlan {
    pub name: String,
    pub csv_path: String,
    pub md_path: String,
}

/// Well-formedness of a plan: both paths are derived from the name.
pub open spec fn spec_plan_paths_consistent(p: &ExecutionPlan) -> bool {
    &&& p.csv_path@ == spec_execution_csv_path(p.name@)
    &&& p.md_path@ == spec_execution_md_path(p.name@)
}

/// Plans an execution run from a definition: the snapshot is named after the
/// definition's stem with the fresh timestamp appended.
pub fn plan_execution_from_definition(definition_path: &str, stamp: &str) -> (r: ExecutionPlan)
    ensures
        r.name@ == spec_execution_name(spec_path_stem(definition_path@), stamp@),
        spec_plan_paths_consistent(&r),
{
    let stem = path_stem(definition_path);
    let name = execution_name(stem.as_str(), stamp);
    let (csv_path, md_path) = execution_paths(name.as_str());
    ExecutionPlan { name, csv_path, md_path }
}

/// Plans an execution run from a prior execution file: the prior run's
/// `-<timestamp>` tail is stripped from the stem before the fresh timestamp
/// is appended, so re-execution never accumulates timestamps.
pub fn plan_execution_from_execution(prior_path: &str, stamp: &str) -> (r: ExecutionPlan)
    ensures
        r.name@ == spec_execution_name(
            spec_strip_run_suffix(spec_path_stem(prior_path@)),
            stamp@,
        ),
        spec_plan_paths_consistent(&r),
{
    let stem = path_stem(prior_path);
    let base = strip_run_suffix(stem.as_str());
    let name = execution_name(base.as_str(), stamp);
    let (csv_path, md_path) = execution_paths(name.as_str());
    ExecutionPlan { name, csv_path, md_path }
}

/// Re-executing the snapshot that an earlier run wrote restores that run's
/// base before the new timestamp is appended: executing a definition gives
/// `<base>-<t1>`, and re-executing that file gives `<base>-<t2>`, never
/// `<base>-<t1>-<t2>`. This needs the base free of `/` and the first
/// timestamp of the run-timestamp shape, which the clock guarantees of every
/// reading.
pub proof fn lemma_reexecution_keeps_base(base: Seq<char>, s1: Seq<char>, s2: Seq<char>)
    requires
        forall|i: int| 0 <= i < base.len() ==> base[i] != '/',
        crate::naming::spec_run_stamp_shape(s1),
    ensures
        spec_execution_name(
            spec_strip_run_suffix(
                spec_path_stem(spec_execution_csv_path(spec_execution_name(base, s1))),
            ),
            s2,
        ) == spec_execution_name(base, s2),
{
    reveal_strlit("executions/");
    reveal_strlit(".csv");
    crate::naming::lemma_run_stamp_chars(s1);
    let name = spec_execution_name(base, s1);
    let p = spec_execution_csv_path(name);
    // The last slash of the path is the namespace separator.
    crate::text::lemma_rfind_at(p, '/', 10);
    let comp = crate::naming::spec_last_component(p);
    assert(comp =~= name + ".csv"@);
    // The last dot of the component is the extension's.
    crate::text::lemma_rfind_at(comp, '.', name.len() as int);
    assert(crate::naming::spec_file_stem(comp) =~= name);
    crate::naming::lemma_strip_restores_base(base, s1);
}

/// The six editable fields of a case, as the modify workflow offers them.
#[derive(Clone, Copy, PartialEq, Eq, Structural, Debug)]
pub enum EditField {
    Description,
    Status,
    Observations,
    Evidence,
    Version,
    TicketNumbers,
}

/// The label each field is offered under.
pub open spec fn spec_field_label(f: EditField) -> Seq<char> {
    match f {
        EditField::Description => "Descripción"@,
        EditField::Status => "Estado"@,
        EditField::Observations => "Observaciones"@,
        EditField::Evidence => "Evidencia"@,
        EditField::Version => "Versión"@,
        EditField::TicketNumbers => "Ticket(s)"@,
    }
}

/// Parsing a field label: exact match on one of the six labels.
pub open spec fn spec_field_of_label(l: Seq<char>) -> Option<EditField> {
    if l == spec_field_label(EditField::Description) {
        Some(EditField::Description)
    } else if l == spec_field_label(EditField::Status) {
        Some(EditField::Status)
    } else if l == spec_field_label(EditField::Observations) {
        Some(EditField::Observations)
    } else if l == spec_field_label(EditField::Evidence) {
        Some(EditField::Evidence)
    } else if l == spec_field_label(EditField::Version) {
        Some(EditField::Version)
    } else if l == spec_field_label(EditField::TicketNumbers) {
        Some(EditField::TicketNumbers)
    } else {
        None
    }
}

impl EditField {
    pub fn label(&self) -> (r: String)
        ensures
            r@ == spec_field_label(*self),
    {
        match self {
            EditField::Description => String::from_str("Descripción"),
            EditField::Status => String::from_str("Estado"),
            EditField::Observations => String::from_str("Observaciones"),
            EditField::Evidence => String::from_str("Evidencia"),
            EditField::Version => String::from_str("Versión"),
            EditField::TicketNumbers => String::from_str("Ticket(s)"),
        }
    }

    pub fn from_label(l: &str) -> (r: Option<EditField>)
        ensures
            r == spec_field_of_label(l@),
    {
        if str_eq(l, "Descripción") {
            Some(EditField::Description)
        } else if str_eq(l, "Estado") {
            Some(EditField::Status)
        } else if str_eq(l, "Observaciones") {
            Some(EditField::Observations)
        } else if str_eq(l, "Evidencia") {
            Some(EditField::Evidence)
        } else if str_eq(l, "Versión") {
            Some(EditField::Version)
        } else if str_eq(l, "Ticket(s)") {
            Some(EditField::TicketNumbers)
        } else {
            None
        }
    }

    /// The six field labels, in the order the modify workflow offers them.
    pub fn option_labels() -> (r: Vec<String>)
        ensures
            views_of_names(r@) == seq![
                spec_field_label(EditField::Description),
                spec_field_label(EditField::Status),
                spec_field_label(EditField::Observations),
                spec_field_label(EditField::Evidence),
                spec_field_label(EditField::Version),
                spec_field_label(EditField::TicketNumbers),
            ],
    {
        let mut out: Vec<String> = Vec::new();
        out.push(EditField::Description.label());
        out.push(EditField::Status.label());
        out.push(EditField::Observations.label());
        out.push(EditField::Evidence.label());
        out.push(EditField::Version.label());
        out.push(EditField::TicketNumbers.label());
        proof {
            assert(views_of_names(out@) =~= seq![
                spec_field_label(EditField::Description),
                spec_field_label(EditField::Status),
                spec_field_label(EditField::Observations),
                spec_field_label(EditField::Evidence),
                spec_field_label(EditField::Version),
                spec_field_label(EditField::TicketNumbers),
            ]);
        }
        out
    }
}

/// Offering a field's label and reading the selection back names the same
/// field: the rendering table and the parsing table can never drift apart.
pub proof fn lemma_field_label_round_trip(f: EditField)
    ensures
        spec_field_of_label(spec_field_label(f)) == Some(f),
{
    reveal_strlit("Descripción");
    reveal_strlit("Estado");
    reveal_strlit("Observaciones");
    reveal_strlit("Evidencia");
    reveal_strlit("Versión");
    reveal_strlit("Ticket(s)");
    assert(spec_field_label(EditField::Status)[1] == 's');
    assert(spec_field_label(EditField::Evidence)[1] == 'v');
    assert(forall|a: EditField, b: EditField|
        spec_field_label(a).len() == spec_field_label(b).len() && spec_field_label(a)[0]
            == spec_field_label(b)[0] && spec_field_label(a)[1] == spec_field_label(b)[1] ==> a
            == b);
}

/// The descriptions of a collection, in order.
pub open spec fn spec_descriptions(cs: Seq<crate::case::TestCaseView>) -> Seq<Seq<char>> {
    cs.map_values(|c: crate::case::TestCaseView| c.description)
}

/// The selection labels of the modify workflow: `<n>: <description>`, the
/// ordinal 1-based.
pub fn choice_labels(cases: &Vec<TestCase>) -> (r: Vec<String>)
    ensures
        views_of_names(r@) == spec_numbered_lines(spec_descriptions(views_of_cases(cases@))),
{
    let mut out: Vec<String> = Vec::new();
    let mut i: usize = 0;
    while i < cases.len()
        invariant
            i <= cases@.len(),
            views_of_names(out@) =~= spec_numbered_lines(
                spec_descriptions(views_of_cases(cases@.take(i as int))),
            ),
        decreases cases@.len() - i,
    {
        proof {
            assert(spec_descriptions(views_of_cases(cases@.take(i + 1))).drop_last()
                =~= spec_descriptions(views_of_cases(cases@.take(i as int))));
            assert(spec_descriptions(views_of_cases(cases@.take(i + 1))).last()
                == cases@[i as int]@.description);
            assert(spec_descriptions(views_of_cases(cases@.take(i + 1))).len() == i + 1);
        }
        let label = numbered_label(i + 1, cases[i].description.as_str());
        let ghost prev_out = out@;
        let ghost label_view = label@;
        out.push(label);
        proof {
            assert(views_of_names(out@) =~= views_of_names(prev_out).push(label_view));
            assert(views_of_names(out@) =~= spec_numbered_lines(
                spec_descriptions(views_of_cases(cases@.take(i + 1))),
            ));
        }
        i += 1;
    }
    proof {
        assert(cases@.take(cases@.len() as int) =~= cases@);
    }
    out
}

/// The 0-based position a selection label points at: the digits before the
/// first `:` read as a 1-based ordinal. A label whose prefix is not a
/// well-formed positive ordinal falls back to the first position.
pub open spec fn spec_ordinal_index(l: Seq<char>) -> int {
    let p = l.take(spec_find(l, ':'));
    if p.len() >= 1 && (forall|i: int| 0 <= i < p.len() ==> is_digit_char(#[trigger] p[i]))
        && 1 <= spec_digits_val(p) <= usize::MAX {
        spec_digits_val(p) - 1
    } else {
        0
    }
}

/// The value of a digit string never falls when more digits follow.
proof fn lemma_digits_val_prefix(s: Seq<char>, m: int)
    requires
        0 <= m <= s.len(),
    ensures
        spec_digits_val(s.take(m)) <= spec_digits_val(s),
    decreases s.len() - m,
{
    if m < s.len() {
        lemma_digits_val_prefix(s, m + 1);
        assert(s.take(m + 1).drop_last() =~= s.take(m));
        lemma_digits_val_nonneg(s.take(m));
        assert(spec_digits_val(s.take(m + 1)) == spec_digits_val(s.take(m)) * 10
            + spec_digit_val(s.take(m + 1).last()));
    } else {
        assert(s.take(m) =~= s);
    }
}

/// Reads a selection label back to its 0-based position.
pub fn parse_ordinal_index(label: &str) -> (r: usize)
    ensures
        r == spec_ordinal_index(label@),
{
    let n = label.unicode_len();
    let cut = find_char(label, ':');
    proof {
        lemma_find_bounds(label@, ':');
    }
    let ghost p = label@.take(cut as int);
    if cut == 0 {
        return 0;
    }
    let mut val: usize = 0;
    let mut i: usize = 0;
    while i < cut
        invariant
            i <= cut <= n,
            n == label@.len(),
            cut == spec_find(label@, ':'),
            p == label@.take(cut as int),
            p.len() == cut,
            forall|j: int| 0 <= j < i ==> is_digit_char(#[trigger] p[j]),
            val == spec_digits_val(p.take(i as int)),
        decreases cut - i,
    {
        let c = label.get_char(i);
        proof {
            assert(p[i as int] == label@[i as int]);
            assert(p.take(i + 1).drop_last() =~= p.take(i as int));
            assert(p.take(i + 1).last() == p[i as int]);
        }
        let d: usize = if c == '0' {
            0
        } else if c == '1' {
            1
        } else if c == '2' {
            2
        } else if c == '3' {
            3
        } else if c == '4' {
            4
        } else if c == '5' {
            5
        } else if c == '6' {
            6
        } else if c == '7' {
            7
        } else if c == '8' {
            8
        } else if c == '9' {
            9
        } else {
            proof {
                let sp = label@.take(spec_find(label@, ':'));
                assert(sp == p);
                assert(!is_digit_char(sp[i as int]));
                assert(!(forall|j: int| 0 <= j < sp.len() ==> is_digit_char(#[trigger] sp[j])));
                assert(spec_ordinal_index(label@) == 0);
            }
            return 0;
        };
        proof {
            assert(is_digit_char(p[i as int]));
            assert(spec_digit_val(p[i as int]) == d);
        }
        if val > (usize::MAX - d) / 10 {
            // The ordinal overflows; the full prefix can only be larger.
            proof {
                vstd::arithmetic::div_mod::lemma_fundamental_div_mod((usize::MAX - d) as int, 10);
                assert(val * 10 + d > usize::MAX) by (nonlinear_arith)
                    requires
                        val > (usize::MAX - d) / 10,
                        (usize::MAX - d) as int == ((usize::MAX - d) / 10) * 10 + (usize::MAX
                            - d) % 10,
                        0 <= (usize::MAX - d) % 10 < 10,
                        d <= 9,
                ;
                lemma_digits_val_nonneg(p.take(i as int));
                assert(spec_digits_val(p.take(i + 1)) == val * 10 + d);
                lemma_digits_val_prefix(p, i + 1);
                assert(spec_digits_val(p) > usize::MAX);
                let sp = label@.take(spec_find(label@, ':'));
                assert(sp == p);
                assert(!(spec_digits_val(sp) <= usize::MAX));
                assert(spec_ordinal_index(label@) == 0);
            }
            return 0;
        }
        val = val * 10 + d;
        i += 1;
    }
    proof {
        assert(p.take(cut as int) =~= p);
    }
    if val == 0 {
        return 0;
    }
    val - 1
}

/// Reading back the label the workflow itself offered for position `i`
/// selects position `i` again: label rendering and selection parsing agree.
pub proof fn lemma_choice_label_round_trip(i: int, description: Seq<char>)
    requires
        0 <= i < usize::MAX,
    ensures
        spec_ordinal_index(spec_numbered_label((i + 1) as nat, description)) == i,
{
    reveal_strlit(": ");
    let num = crate::text::spec_decimal((i + 1) as nat);
    lemma_decimal_val((i + 1) as nat);
    let l = spec_numbered_label((i + 1) as nat, description);
    assert(l[num.len() as int] == ':');
    assert forall|j: int| 0 <= j < num.len() implies l[j] != ':' by {
        assert(l[j] == num[j]);
        assert(is_digit_char(num[j]));
    }
    lemma_find_at(l, ':', num.len() as int);
    assert(l.take(num.len() as int) =~= num);
}

} // verus!
