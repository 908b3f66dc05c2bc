use vstd::prelude::*;

use crate::case::{TestCase, TestCaseView, views_of_cases};
use crate::csv_io::{
    csv_decode_records, csv_encode_records, csv_encoding, csv_parsed, spec_doc_views,
    spec_opt_row_views, spec_row_views,
};
use crate::status::{spec_name, spec_status_of_name, TestStatus};

verus! {

/// The fixed header record of every persisted file: the seven column names in
/// their fixed order.
pub open spec fn spec_header_row() -> Seq<Seq<char>> {
    seq![
        "id"@,
        "description"@,
        "status"@,
        "observations"@,
        "evidence"@,
        "version"@,
        "ticket_numbers"@,
    ]
}

/// The record a case is persisted as: its seven fields in column order, the
/// status as its symbolic name.
pub open spec fn spec_case_row(c: TestCaseView) -> Seq<Seq<char>> {
    seq![
        c.id,
        c.description,
        spec_name(c.status),
        c.observations,
        c.evidence,
        c.version,
        c.ticket_numbers,
    ]
}

pub open spec fn spec_rows_of_cases(cs: Seq<TestCaseView>) -> Seq<Seq<Seq<char>>> {
    cs.map_values(|c: TestCaseView| spec_case_row(c))
}

/// The whole persisted document of a collection: header first, then one
/// record per case in order.
pub open spec fn spec_doc_of_cases(cs: Seq<TestCaseView>) -> Seq<Seq<Seq<char>>> {
    seq![spec_header_row()] + spec_rows_of_cases(cs)
}

/// Reading one record back: it must have exactly seven fields and a status
/// column holding one of the five symbolic names; anything else is malformed.
pub open spec fn spec_case_of_row(r: Seq<Seq<char>>) -> Option<TestCaseView> {
    if r.len() == 7 {
        match spec_status_of_name(r[2]) {
            Some(st) => Some(
                TestCaseView {
                    id: r[0],
                    description: r[1],
                    status: st,
                    observations: r[3],
                    evidence: r[4],
                    version: r[5],
                    ticket_numbers: r[6],
                },
            ),
            None => None,
        }
    } else {
        None
    }
}

/// The case one parsed record contributes, if any: a record the reader
/// rejected, or one that is not a well-formed case row, contributes nothing.
pub open spec fn spec_record_case(o: Option<Seq<Seq<char>>>) -> Option<TestCaseView> {
    match o {
        Some(r) => spec_case_of_row(r),
        None => None,
    }
}

/// The cases a parsed document loads to. The first record is the header and
/// carries no data; among the rest, every well-formed record contributes one
/// case, in order, and malformed records are skipped.
pub open spec fn spec_loaded_views(recs: Seq<Option<Seq<Seq<char>>>>) -> Seq<TestCaseView>
    decreases recs.len(),
{
    if recs.len() <= 1 {
        Seq::<TestCaseView>::empty()
    } else {
        spec_loaded_views(recs.drop_last()) + (match spec_record_case(recs.last()) {
            Some(c) => seq![c],
            None => Seq::<TestCaseView>::empty(),
        })
    }
}

/// How many records of a parsed document are skipped as malformed.
pub open spec fn spec_load_errors(recs: Seq<Option<Seq<Seq<char>>>>) -> int
    decreases recs.len(),
{
    if recs.len() <= 1 {
        0
    } else {
        spec_load_errors(recs.drop_last()) + (match spec_record_case(recs.last()) {
            Some(c) => 0int,
            None => 1int,
        })
    }
}

/// Builds the header record.
fn header_row() -> (r: Vec<String>)
    ensures
        spec_row_views(r) == spec_header_row(),
        r@.len() == 7,
{
    let mut row: Vec<String> = Vec::new();
    row.push(String::from_str("id"));
    row.push(String::from_str("description"));
    row.push(String::from_str("status"));
    row.push(String::from_str("observations"));
    row.push(String::from_str("evidence"));
    row.push(String::from_str("version"));
    row.push(String::from_str("ticket_numbers"));
    proof {
        assert(spec_row_views(row) =~= spec_header_row());
    }
    row
}

/// Builds the record one case is persisted as.
fn case_row(c: &TestCase) -> (r: Vec<String>)
    ensures
        spec_row_views(r) == spec_case_row(c@),
        r@.len() == 7,
{
    let mut row: Vec<String> = Vec::new();
    row.push(c.id.clone());
    row.push(c.description.clone());
    row.push(c.status.name());
    row.push(c.observations.clone());
    row.push(c.evidence.clone());
    row.push(c.version.clone());
    row.push(c.ticket_numbers.clone());
    proof {
        assert(spec_row_views(row) =~= spec_case_row(c@));
    }
    row
}

/// Reads one record back into a case, `None` when the record is malformed.
fn row_to_case(row: &Vec<String>) -> (r: Option<TestCase>)
    ensures
        match r {
            Some(c) => spec_case_of_row(spec_row_views(*row)) == Some(c@),
            None => spec_case_of_row(spec_row_views(*row)) is None,
        },
{
    if row.len() != 7 {
        return None;
    }
    let status = match TestStatus::from_name(row[2].as_str()) {
        Some(st) => st,
        None => {
            return None;
        },
    };
    Some(
        TestCase {
            id: row[0].clone(),
            description: row[1].clone(),
            status,
            observations: row[3].clone(),
            evidence: row[4].clone(),
            version: row[5].clone(),
            ticket_numbers: row[6].clone(),
        },
    )
}

/// A well-formed case row always reads back as the case it was written from.
pub proof fn lemma_case_row_round_trip(c: TestCaseView)
    ensures
        spec_case_of_row(spec_case_row(c)) == Some(c),
{
    crate::status::lemma_name_round_trip(c.status);
}

/// Writing a collection and parsing the bytes back yields exactly the
/// collection's cases, with no record skipped: the persisted document is a
/// faithful image of the collection.
pub proof fn lemma_doc_round_trip(cs: Seq<TestCaseView>)
    ensures
        spec_loaded_views(
            spec_doc_of_cases(cs).map_values(|x: Seq<Seq<char>>| Some(x)),
        ) == cs,
        spec_load_errors(spec_doc_of_cases(cs).map_values(|x: Seq<Seq<char>>| Some(x))) == 0,
    decreases cs.len(),
{
    let m = spec_doc_of_cases(cs).map_values(|x: Seq<Seq<char>>| Some(x));
    if cs.len() == 0 {
        assert(m.len() == 1);
        assert(spec_loaded_views(m) =~= cs);
    } else {
        lemma_doc_round_trip(cs.drop_last());
        let prev = spec_doc_of_cases(cs.drop_last()).map_values(|x: Seq<Seq<char>>| Some(x));
        assert(m.drop_last() =~= prev) by {
            assert(spec_rows_of_cases(cs).drop_last() =~= spec_rows_of_cases(cs.drop_last()));
        }
        assert(m.last() == Some(spec_case_row(cs.last())));
        lemma_case_row_round_trip(cs.last());
        assert(spec_loaded_views(m) =~= cs);
    }
}

/// A single-case change stays local in the persisted document: when two
/// collections differ in at most the case at position `i`, their documents
/// share the header and every record except the one at position `i + 1`.
pub proof fn lemma_doc_localizes_edits(
    before: Seq<TestCaseView>,
    after: Seq<TestCaseView>,
    i: int,
)
    requires
        before.len() == after.len(),
        0 <= i < before.len(),
        forall|j: int| 0 <= j < before.len() && j != i ==> after[j] == before[j],
    ensures
        spec_doc_of_cases(after).len() == spec_doc_of_cases(before).len(),
        forall|j: int|
            0 <= j < spec_doc_of_cases(before).len() && j != i + 1
                ==> spec_doc_of_cases(after)[j] == spec_doc_of_cases(before)[j],
{
}

/// Serializes a collection to CSV bytes: the header record followed by one
/// record per case. Parsing the result recovers exactly the given cases with
/// no record skipped (the save/load round trip).
pub fn cases_to_csv(cases: &Vec<TestCase>) -> (r: Vec<u8>)
    ensures
        r@ == csv_encoding(spec_doc_of_cases(views_of_cases(cases@))),
        spec_loaded_views(csv_parsed(r@)) == views_of_cases(cases@),
        spec_load_errors(csv_parsed(r@)) == 0,
{
    let mut rows: Vec<Vec<String>> = Vec::new();
    rows.push(header_row());
    let mut i: usize = 0;
    while i < cases.len()
        invariant
            i <= cases@.len(),
            rows@.len() == i + 1,
            spec_doc_views(rows) =~= spec_doc_of_cases(views_of_cases(cases@.take(i as int))),
            forall|k: int| 0 <= k < rows@.len() ==> #[trigger] rows@[k]@.len() == 7,
        decreases cases@.len() - i,
    {
        let row = case_row(&cases[i]);
        let ghost prev_doc = spec_doc_views(rows);
        rows.push(row);
        proof {
            assert(spec_doc_views(rows) =~= prev_doc.push(spec_case_row(cases@[i as int]@)));
            assert(views_of_cases(cases@.take(i + 1))
                =~= views_of_cases(cases@.take(i as int)).push(cases@[i as int]@));
            assert(spec_rows_of_cases(views_of_cases(cases@.take(i + 1)))
                =~= spec_rows_of_cases(views_of_cases(cases@.take(i as int))).push(
                    spec_case_row(cases@[i as int]@),
                ));
            assert(spec_doc_of_cases(views_of_cases(cases@.take(i + 1)))
                =~= prev_doc.push(spec_case_row(cases@[i as int]@)));
            assert(spec_doc_views(rows) =~= spec_doc_of_cases(views_of_cases(cases@.take(i + 1))));
        }
        i += 1;
    }
    proof {
        assert(cases@.take(cases@.len() as int) =~= cases@);
        reveal_strlit("id");
        assert(spec_doc_views(rows)[0] == spec_row_views(rows@[0]));
        assert(spec_row_views(rows@[0])[0] == rows@[0]@[0]@);
        assert(rows@[0]@[0]@ == "id"@);
        assert(rows@[0]@[0]@[0] == 'i');
    }
    let bytes = csv_encode_records(&rows);
    proof {
        lemma_doc_round_trip(views_of_cases(cases@));
    }
    bytes
}

/// Deserializes CSV bytes: the first record is the header; every malformed
/// record among the rest is skipped and counted, never fatal.
pub fn csv_to_cases(bytes: &[u8]) -> (r: (Vec<TestCase>, usize))
    ensures
        views_of_cases(r.0@) == spec_loaded_views(csv_parsed(bytes@)),
        r.1 == spec_load_errors(csv_parsed(bytes@)),
{
    let recs = csv_decode_records(bytes);
    let ghost parsed = csv_parsed(bytes@);
    proof {
        assert(parsed.len() == recs@.len());
    }
    let mut cases: Vec<TestCase> = Vec::new();
    let mut errors: usize = 0;
    if recs.len() == 0 {
        return (cases, errors);
    }
    let mut i: usize = 1;
    while i < recs.len()
        invariant
            1 <= i <= recs@.len(),
            parsed == csv_parsed(bytes@),
            parsed =~= recs@.map_values(|o: Option<Vec<String>>| spec_opt_row_views(o)),
            parsed.len() == recs@.len(),
            views_of_cases(cases@) =~= spec_loaded_views(parsed.take(i as int)),
            errors == spec_load_errors(parsed.take(i as int)),
            errors < i,
        decreases recs@.len() - i,
    {
        proof {
            assert(parsed.take(i + 1).drop_last() =~= parsed.take(i as int));
            assert(parsed.take(i + 1).last() == spec_opt_row_views(recs@[i as int]));
        }
        let rec = &recs[i];
        match rec {
            Some(row) => {
                match row_to_case(row) {
                    Some(c) => {
                        cases.push(c);
                        proof {
                            assert(views_of_cases(cases@)
                                =~= spec_loaded_views(parsed.take(i + 1)));
                        }
                    },
                    None => {
                        errors += 1;
                    },
                }
            },
            None => {
                errors += 1;
            },
        }
        i += 1;
    }
    proof {
        assert(parsed.take(recs@.len() as int) =~= parsed);
    }
    (cases, errors)
}

} // verus!
