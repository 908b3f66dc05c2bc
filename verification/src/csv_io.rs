use vstd::prelude::*;

verus! {

/// The CSV rendering of a sequence of records, as the `csv` crate's writer
/// produces it with its default configuration (comma delimiter, `"` quoting
/// applied where a field needs it, `\n` terminator).
pub uninterp spec fn csv_encoding(rows: Seq<Seq<Seq<char>>>) -> Seq<u8>;

/// The records the `csv` crate's reader recovers from a byte stream when told
/// that there is no header row and that records may vary in width: one entry
/// per record, `None` for a record the reader rejects.
pub uninterp spec fn csv_parsed(bytes: Seq<u8>) -> Seq<Option<Seq<Seq<char>>>>;

/// The fields of one record as character sequences.
pub open spec fn spec_row_views(r: Vec<String>) -> Seq<Seq<char>> {
    r@.map_values(|f: String| f@)
}

/// The records of a whole document as character sequences.
pub open spec fn spec_doc_views(rows: Vec<Vec<String>>) -> Seq<Seq<Seq<char>>> {
    rows@.map_values(|r: Vec<String>| spec_row_views(r))
}

/// A possibly rejected record as character sequences.
pub open spec fn spec_opt_row_views(o: Option<Vec<String>>) -> Option<Seq<Seq<char>>> {
    match o {
        Some(r) => Some(spec_row_views(r)),
        None => None,
    }
}

/// Relies on `csv::Writer::write_record` and `csv::Writer::into_inner`: the
/// writer emits the given records in order with RFC 4180 quoting, so reading
/// its output back (headerless) recovers exactly the records written. The
/// width conditions keep every written line a real record: a lone empty field
/// would be an empty line, which the reader skips, and a leading byte-order
/// mark would be eaten by the reader.
#[verifier::external_body]
pub(crate) fn csv_encode_records(rows: &Vec<Vec<String>>) -> (r: Vec<u8>)
    requires
        forall|i: int| 0 <= i < rows@.len() ==> #[trigger] rows@[i]@.len() == rows@[0]@.len(),
        rows@.len() > 0 ==> rows@[0]@.len() >= 2,
        rows@.len() > 0 && rows@[0]@[0]@.len() > 0 ==> rows@[0]@[0]@[0] != '\u{FEFF}',
    ensures
        r@ == csv_encoding(spec_doc_views(*rows)),
        csv_parsed(r@) == spec_doc_views(*rows).map_values(|x: Seq<Seq<char>>| Some(x)),
{
    let mut w = csv::Writer::from_writer(Vec::new());
    for row in rows.iter() {
        let _ = w.write_record(row);
    }
    w.into_inner().unwrap_or_default()
}

/// Relies on `csv::Reader::records` with headers off and flexible widths: it
/// yields every record of the stream in order, an error (kept here as `None`)
/// for a record it cannot decode, and nothing at all for an empty stream.
#[verifier::external_body]
pub(crate) fn csv_decode_records(bytes: &[u8]) -> (r: Vec<Option<Vec<String>>>)
    ensures
        r@.map_values(|o: Option<Vec<String>>| spec_opt_row_views(o)) == csv_parsed(bytes@),
        bytes@.len() == 0 ==> r@.len() == 0,
{
    let mut rdr =
        csv::ReaderBuilder::new().has_headers(false).flexible(true).from_reader(bytes);
    let mut out: Vec<Option<Vec<String>>> = Vec::new();
    for rec in rdr.records() {
        match rec {
            Ok(sr) => out.push(Some(sr.iter().map(|f| f.to_string()).collect())),
            Err(_) => out.push(None),
        }
    }
    out
}

} // verus!
