use vstd::prelude::*;

use crate::case::{TestCase, TestCaseView, views_of_cases};
use crate::status::{spec_label, TestStatus};
use crate::text::{spec_decimal, to_decimal};

verus! {

/// How many cases of a collection carry the given status.
pub open spec fn spec_count_status(cs: Seq<TestCaseView>, st: TestStatus) -> int
    decreases cs.len(),
{
    if cs.len() == 0 {
        0
    } else {
        spec_count_status(cs.drop_last(), st) + (if cs.last().status == st {
            1int
        } else {
            0int
        })
    }
}

pub proof fn lemma_count_status_nonneg(cs: Seq<TestCaseView>, st: TestStatus)
    ensures
        0 <= spec_count_status(cs, st) <= cs.len(),
    decreases cs.len(),
{
    if cs.len() > 0 {
        lemma_count_status_nonneg(cs.drop_last(), st);
    }
}

/// The five per-status counts of the report's numeric summary sum to exactly
/// the number of cases, for every collection — the empty one included.
pub proof fn lemma_counts_sum_to_len(cs: Seq<TestCaseView>)
    ensures
        spec_count_status(cs, TestStatus::Validated) + spec_count_status(cs, TestStatus::Rejected)
            + spec_count_status(cs, TestStatus::Pending)
            + spec_count_status(cs, TestStatus::Skipped)
            + spec_count_status(cs, TestStatus::Blocked) == cs.len(),
    decreases cs.len(),
{
    if cs.len() > 0 {
        lemma_counts_sum_to_len(cs.drop_last());
    }
}

/// The per-status counts of one collection, as the report uses them.
pub struct StatusCounts {
    pub validated: usize,
    pub rejected: usize,
    pub pending: usize,
    pub skipped: usize,
    pub blocked: usize,
}

/// Counts every status across a collection.
pub fn count_statuses(cases: &Vec<TestCase>) -> (r: StatusCounts)
    ensures
        r.validated == spec_count_status(views_of_cases(cases@), TestStatus::Validated),
        r.rejected == spec_count_status(views_of_cases(cases@), TestStatus::Rejected),
        r.pending == spec_count_status(views_of_cases(cases@), TestStatus::Pending),
        r.skipped == spec_count_status(views_of_cases(cases@), TestStatus::Skipped),
        r.blocked == spec_count_status(views_of_cases(cases@), TestStatus::Blocked),
{
    let mut counts = StatusCounts {
        validated: 0,
        rejected: 0,
        pending: 0,
        skipped: 0,
        blocked: 0,
    };
    let mut i: usize = 0;
    while i < cases.len()
        invariant
            i <= cases@.len(),
            counts.validated == spec_count_status(
                views_of_cases(cases@.take(i as int)),
                TestStatus::Validated,
            ),
            counts.rejected == spec_count_status(
                views_of_cases(cases@.take(i as int)),
                TestStatus::Rejected,
            ),
            counts.pending == spec_count_status(
                views_of_cases(cases@.take(i as int)),
                TestStatus::Pending,
            ),
            counts.skipped == spec_count_status(
                views_of_cases(cases@.take(i as int)),
                TestStatus::Skipped,
            ),
            counts.blocked == spec_count_status(
                views_of_cases(cases@.take(i as int)),
                TestStatus::Blocked,
            ),
        decreases cases@.len() - i,
    {
        proof {
            lemma_count_status_nonneg(views_of_cases(cases@.take(i as int)), TestStatus::Validated);
            lemma_count_status_nonneg(views_of_cases(cases@.take(i as int)), TestStatus::Rejected);
            lemma_count_status_nonneg(views_of_cases(cases@.take(i as int)), TestStatus::Pending);
            lemma_count_status_nonneg(views_of_cases(cases@.take(i as int)), TestStatus::Skipped);
            lemma_count_status_nonneg(views_of_cases(cases@.take(i as int)), TestStatus::Blocked);
            assert(views_of_cases(cases@.take(i as int)).len() == i);
            assert(views_of_cases(cases@.take(i + 1)).drop_last()
                =~= views_of_cases(cases@.take(i as int)));
            assert(views_of_cases(cases@.take(i + 1)).last() == cases@[i as int]@);
        }
        match cases[i].status {
            TestStatus::Validated => counts.validated += 1,
            TestStatus::Rejected => counts.rejected += 1,
            TestStatus::Pending => counts.pending += 1,
            TestStatus::Skipped => counts.skipped += 1,
            TestStatus::Blocked => counts.blocked += 1,
        }
        i += 1;
    }
    proof {
        assert(cases@.take(cases@.len() as int) =~= cases@);
    }
    counts
}

/// The report's opening: title line and generation-timestamp line.
pub open spec fn spec_report_head(title: Seq<char>, stamp: Seq<char>) -> Seq<char> {
    "# Informe de Pruebas: "@ + title + seq!['\n', '\n'] + "Fecha de ejecución: "@ + stamp
        + seq!['\n']
}

/// The version and ticket lines, taken from the first case; a blank line for
/// the empty collection. Empty tickets are shown as `N/A`.
pub open spec fn spec_report_meta(cs: Seq<TestCaseView>) -> Seq<char> {
    if cs.len() == 0 {
        seq!['\n']
    } else {
        "Versión de prueba: "@ + cs[0].version + seq!['\n'] + "Ticket(s): "@
            + (if cs[0].ticket_numbers.len() == 0 {
            "N/A"@
        } else {
            cs[0].ticket_numbers
        }) + seq!['\n', '\n']
    }
}

/// One line of the numeric summary.
pub open spec fn spec_summary_line(prefix: Seq<char>, n: int) -> Seq<char> {
    prefix + spec_decimal(n as nat) + seq!['\n']
}

/// The numeric summary: total first, then the five statuses in the fixed
/// order Validated, Rejected, Pending, Skipped, Blocked.
pub open spec fn spec_report_summary(cs: Seq<TestCaseView>) -> Seq<char> {
    "## Resumen Numérico\n\n"@ + spec_summary_line("- Total de casos: "@, cs.len() as int)
        + spec_summary_line("- ✅ Validados: "@, spec_count_status(cs, TestStatus::Validated))
        + spec_summary_line("- ❌ Rechazados: "@, spec_count_status(cs, TestStatus::Rejected))
        + spec_summary_line("- ⏳ Pendientes: "@, spec_count_status(cs, TestStatus::Pending))
        + spec_summary_line("- ⏭️ Omitidos: "@, spec_count_status(cs, TestStatus::Skipped))
        + spec_summary_line("- 🚫 Bloqueados: "@, spec_count_status(cs, TestStatus::Blocked))
        + seq!['\n']
}

/// The plural wording a status is counted under, shared by the numeric
/// summary and the chart.
pub open spec fn spec_count_label(st: TestStatus) -> Seq<char> {
    match st {
        TestStatus::Pending => "⏳ Pendientes"@,
        TestStatus::Validated => "✅ Validados"@,
        TestStatus::Rejected => "❌ Rechazados"@,
        TestStatus::Skipped => "⏭️ Omitidos"@,
        TestStatus::Blocked => "🚫 Bloqueados"@,
    }
}

fn count_label(st: TestStatus) -> (r: String)
    ensures
        r@ == spec_count_label(st),
{
    match st {
        TestStatus::Pending => String::from_str("⏳ Pendientes"),
        TestStatus::Validated => String::from_str("✅ Validados"),
        TestStatus::Rejected => String::from_str("❌ Rechazados"),
        TestStatus::Skipped => String::from_str("⏭️ Omitidos"),
        TestStatus::Blocked => String::from_str("🚫 Bloqueados"),
    }
}

/// One slice of the pie chart.
pub open spec fn spec_chart_line(label: Seq<char>, n: int) -> Seq<char> {
    "    \""@ + label + "\" : "@ + spec_decimal(n as nat) + seq!['\n']
}

/// A status appears in the chart exactly when its count is positive, under
/// its plural counting label.
pub open spec fn spec_chart_entry(st: TestStatus, n: int) -> Seq<char> {
    if n > 0 {
        spec_chart_line(spec_count_label(st), n)
    } else {
        Seq::<char>::empty()
    }
}

/// The visual summary: a pie-chart code block with one line per status with a
/// positive count, in the fixed status order; zero counts leave no line.
pub open spec fn spec_report_chart(cs: Seq<TestCaseView>) -> Seq<char> {
    "## Resumen Visual\n\n```mermaid\npie title Distribución de Casos de Prueba\n"@
        + spec_chart_entry(TestStatus::Validated, spec_count_status(cs, TestStatus::Validated))
        + spec_chart_entry(TestStatus::Rejected, spec_count_status(cs, TestStatus::Rejected))
        + spec_chart_entry(TestStatus::Pending, spec_count_status(cs, TestStatus::Pending))
        + spec_chart_entry(TestStatus::Skipped, spec_count_status(cs, TestStatus::Skipped))
        + spec_chart_entry(TestStatus::Blocked, spec_count_status(cs, TestStatus::Blocked))
        + "```\n\n"@
}

/// The empty collection charts nothing: every count is zero, so the chart's
/// code block opens and closes with no slice line between.
pub proof fn lemma_empty_collection_chart(cs: Seq<TestCaseView>)
    requires
        cs.len() == 0,
    ensures
        spec_report_chart(cs)
            == "## Resumen Visual\n\n```mermaid\npie title Distribución de Casos de Prueba\n"@
            + "```\n\n"@,
{
    assert(spec_count_status(cs, TestStatus::Validated) == 0);
    assert(spec_count_status(cs, TestStatus::Rejected) == 0);
    assert(spec_count_status(cs, TestStatus::Pending) == 0);
    assert(spec_count_status(cs, TestStatus::Skipped) == 0);
    assert(spec_count_status(cs, TestStatus::Blocked) == 0);
    assert(spec_report_chart(cs)
        =~= "## Resumen Visual\n\n```mermaid\npie title Distribución de Casos de Prueba\n"@
        + "```\n\n"@);
}

/// One row of the detail table: the case's fields with the status as its
/// display label.
pub open spec fn spec_detail_row(c: TestCaseView) -> Seq<char> {
    "| "@ + c.id + " | "@ + c.description + " | "@ + spec_label(c.status) + " | "@
        + c.observations + " | "@ + c.evidence + " |"@ + seq!['\n']
}

pub open spec fn spec_detail_rows(cs: Seq<TestCaseView>) -> Seq<char>
    decreases cs.len(),
{
    if cs.len() == 0 {
        Seq::<char>::empty()
    } else {
        spec_detail_rows(cs.drop_last()) + spec_detail_row(cs.last())
    }
}

/// The detail table: fixed header and separator, then one row per case in
/// order.
pub open spec fn spec_report_detail(cs: Seq<TestCaseView>) -> Seq<char> {
    "## Detalle de casos\n\n| ID | Descripción | Estado | Observaciones | Evidencia |\n|-----|------------|--------|---------------|-----------|\n"@
        + spec_detail_rows(cs)
}

/// The whole Markdown report: head, metadata, numeric summary, chart, detail
/// table, in that order. Two calls with the same cases, title and timestamp
/// produce identical text.
pub open spec fn spec_report(cs: Seq<TestCaseView>, title: Seq<char>, stamp: Seq<char>) -> Seq<char> {
    spec_report_head(title, stamp) + spec_report_meta(cs) + spec_report_summary(cs)
        + spec_report_chart(cs) + spec_report_detail(cs)
}

fn render_head(title: &str, stamp: &str) -> (r: String)
    ensures
        r@ == spec_report_head(title@, stamp@),
{
    let mut out = String::from_str("# Informe de Pruebas: ");
    out.append(title);
    out.append("\n\n");
    out.append("Fecha de ejecución: ");
    out.append(stamp);
    out.append("\n");
    proof {
        reveal_strlit("\n\n");
        reveal_strlit("\n");
        assert(out@ =~= spec_report_head(title@, stamp@));
    }
    out
}

fn render_meta(cases: &Vec<TestCase>) -> (r: String)
    ensures
        r@ == spec_report_meta(views_of_cases(cases@)),
{
    if cases.len() == 0 {
        proof {
            reveal_strlit("\n");
        }
        let r = String::from_str("\n");
        proof {
            assert(r@ =~= spec_report_meta(views_of_cases(cases@)));
        }
        r
    } else {
        let first = &cases[0];
        let mut out = String::from_str("Versión de prueba: ");
        out.append(first.version.as_str());
        out.append("\n");
        out.append("Ticket(s): ");
        if first.ticket_numbers.unicode_len() == 0 {
            out.append("N/A");
        } else {
            out.append(first.ticket_numbers.as_str());
        }
        out.append("\n\n");
        proof {
            reveal_strlit("\n");
            reveal_strlit("\n\n");
            assert(views_of_cases(cases@)[0] == cases@[0]@);
            assert(out@ =~= spec_report_meta(views_of_cases(cases@)));
        }
        out
    }
}

fn render_summary(cases: &Vec<TestCase>, counts: &StatusCounts) -> (r: String)
    requires
        counts.validated == spec_count_status(views_of_cases(cases@), TestStatus::Validated),
        counts.rejected == spec_count_status(views_of_cases(cases@), TestStatus::Rejected),
        counts.pending == spec_count_status(views_of_cases(cases@), TestStatus::Pending),
        counts.skipped == spec_count_status(views_of_cases(cases@), TestStatus::Skipped),
        counts.blocked == spec_count_status(views_of_cases(cases@), TestStatus::Blocked),
    ensures
        r@ == spec_report_summary(views_of_cases(cases@)),
{
    let mut out = String::from_str("## Resumen Numérico\n\n");
    out.append("- Total de casos: ");
    out.append(to_decimal(cases.len()).as_str());
    out.append("\n");
    out.append("- ✅ Validados: ");
    out.append(to_decimal(counts.validated).as_str());
    out.append("\n");
    out.append("- ❌ Rechazados: ");
    out.append(to_decimal(counts.rejected).as_str());
    out.append("\n");
    out.append("- ⏳ Pendientes: ");
    out.append(to_decimal(counts.pending).as_str());
    out.append("\n");
    out.append("- ⏭️ Omitidos: ");
    out.append(to_decimal(counts.skipped).as_str());
    out.append("\n");
    out.append("- 🚫 Bloqueados: ");
    out.append(to_decimal(counts.blocked).as_str());
    out.append("\n\n");
    proof {
        reveal_strlit("\n");
        reveal_strlit("\n\n");
        assert(views_of_cases(cases@).len() == cases@.len());
        assert(out@ =~= spec_report_summary(views_of_cases(cases@)));
    }
    out
}

fn render_chart_entry(st: TestStatus, n: usize) -> (r: String)
    ensures
        r@ == spec_chart_entry(st, n as int),
{
    if n > 0 {
        let mut out = String::from_str("    \"");
        out.append(count_label(st).as_str());
        out.append("\" : ");
        out.append(to_decimal(n).as_str());
        out.append("\n");
        proof {
            reveal_strlit("\n");
            assert(out@ =~= spec_chart_entry(st, n as int));
        }
        out
    } else {
        let r = String::new();
        proof {
            assert(r@ =~= spec_chart_entry(st, n as int));
        }
        r
    }
}

fn render_chart(cases: &Vec<TestCase>, counts: &StatusCounts) -> (r: String)
    requires
        counts.validated == spec_count_status(views_of_cases(cases@), TestStatus::Validated),
        counts.rejected == spec_count_status(views_of_cases(cases@), TestStatus::Rejected),
        counts.pending == spec_count_status(views_of_cases(cases@), TestStatus::Pending),
        counts.skipped == spec_count_status(views_of_cases(cases@), TestStatus::Skipped),
        counts.blocked == spec_count_status(views_of_cases(cases@), TestStatus::Blocked),
    ensures
        r@ == spec_report_chart(views_of_cases(cases@)),
{
    let mut out = String::from_str(
        "## Resumen Visual\n\n```mermaid\npie title Distribución de Casos de Prueba\n",
    );
    out.append(render_chart_entry(TestStatus::Validated, counts.validated).as_str());
    out.append(render_chart_entry(TestStatus::Rejected, counts.rejected).as_str());
    out.append(render_chart_entry(TestStatus::Pending, counts.pending).as_str());
    out.append(render_chart_entry(TestStatus::Skipped, counts.skipped).as_str());
    out.append(render_chart_entry(TestStatus::Blocked, counts.blocked).as_str());
    out.append("```\n\n");
    proof {
        assert(out@ =~= spec_report_chart(views_of_cases(cases@)));
    }
    out
}

fn render_detail_row(c: &TestCase) -> (r: String)
    ensures
        r@ == spec_detail_row(c@),
{
    let mut out = String::from_str("| ");
    out.append(c.id.as_str());
    out.append(" | ");
    out.append(c.description.as_str());
    out.append(" | ");
    out.append(c.status.label().as_str());
    out.append(" | ");
    out.append(c.observations.as_str());
    out.append(" | ");
    out.append(c.evidence.as_str());
    out.append(" |");
    out.append("\n");
    proof {
        reveal_strlit("\n");
        assert(out@ =~= spec_detail_row(c@));
    }
    out
}

fn render_detail(cases: &Vec<TestCase>) -> (r: String)
    ensures
        r@ == spec_report_detail(views_of_cases(cases@)),
{
    let mut out = String::from_str(
        "## Detalle de casos\n\n| ID | Descripción | Estado | Observaciones | Evidencia |\n|-----|------------|--------|---------------|-----------|\n",
    );
    let ghost fixed = out@;
    let mut i: usize = 0;
    while i < cases.len()
        invariant
            i <= cases@.len(),
            out@ == fixed + spec_detail_rows(views_of_cases(cases@.take(i as int))),
        decreases cases@.len() - i,
    {
        proof {
            assert(views_of_cases(cases@.take(i + 1)).drop_last()
                =~= views_of_cases(cases@.take(i as int)));
            assert(views_of_cases(cases@.take(i + 1)).last() == cases@[i as int]@);
        }
        out.append(render_detail_row(&cases[i]).as_str());
        i += 1;
    }
    proof {
        assert(cases@.take(cases@.len() as int) =~= cases@);
        assert(out@ =~= spec_report_detail(views_of_cases(cases@)));
    }
    out
}

/// Renders the whole Markdown report for a collection, deterministically from
/// the cases, the title and the given generation timestamp.
pub fn render_report(cases: &Vec<TestCase>, title: &str, stamp: &str) -> (r: String)
    ensures
        r@ == spec_report(views_of_cases(cases@), title@, stamp@),
{
    let counts = count_statuses(cases);
    let mut out = render_head(title, stamp);
    out.append(render_meta(cases).as_str());
    out.append(render_summary(cases, &counts).as_str());
    out.append(render_chart(cases, &counts).as_str());
    out.append(render_detail(cases).as_str());
    proof {
        assert(out@ =~= spec_report(views_of_cases(cases@), title@, stamp@));
    }
    out
}

} // verus!
