//! CSV decoding of export bytes, delegated to the `csv` crate.
//!
//! The parse result is named rather than re-specified: what the parser
//! returns is a function of the bytes alone, and the extraction logic is
//! verified over that name.
use vstd::prelude::*;

verus! {

/// A decoded CSV document: the header row, then the data rows.
#[derive(Debug)]
pub struct CsvTable {
    pub headers: Vec<String>,
    pub rows: Vec<Vec<String>>,
}

/// How CSV decoding can fail.
#[derive(Debug)]
pub enum CsvFault {
    /// The header row could not be read.
    NoHeaders,
    /// A data record could not be parsed.
    MalformedRow,
}

/// The header row the CSV parser reads from `bytes`, when it reads one.
pub uninterp spec fn csv_headers_of(bytes: Seq<u8>) -> Option<Seq<Seq<char>>>;

/// The data rows the CSV parser reads from `bytes`, when they all parse.
pub uninterp spec fn csv_rows_of(bytes: Seq<u8>) -> Option<Seq<Seq<Seq<char>>>>;

/// Relies on `csv::Reader`: `headers` and `into_records` decode the header
/// row and the data records from the bytes alone; a record that fails to
/// parse surfaces as an `Err` item.
#[verifier::external_body]
pub(crate) fn parse_csv_bytes(bytes: &[u8]) -> (r: Result<CsvTable, CsvFault>)
    ensures
        match r {
            Ok(t) => csv_headers_of(bytes@) == Some(t.headers.deep_view()) && csv_rows_of(bytes@)
                == Some(t.rows.deep_view()),
            Err(CsvFault::NoHeaders) => csv_headers_of(bytes@) is None,
            Err(CsvFault::MalformedRow) => csv_headers_of(bytes@) is Some && csv_rows_of(bytes@)
                is None,
        },
{
    let mut reader = csv::Reader::from_reader(bytes);
    let headers: Vec<String> = match reader.headers() {
        Ok(h) => h.iter().map(|f| f.to_string()).collect(),
        Err(_) => return Err(CsvFault::NoHeaders),
    };
    let mut rows: Vec<Vec<String>> = Vec::new();
    for record in reader.into_records() {
        match record {
            Ok(rec) => rows.push(rec.iter().map(|f| f.to_string()).collect()),
            Err(_) => return Err(CsvFault::MalformedRow),
        }
    }
    Ok(CsvTable { headers, rows })
}

} // verus!
