//! The alias extractor: turns a decoded export into the alias mapping.
//!
//! Two schemas are understood. The alias-service export keeps a row's alias
//! when its `enabled` column equals `"true"` up to case. The
//! password-manager export derives aliases from the `login_username` column
//! and from the space-separated tokens of the `fields` column, keeping every
//! value that ends with the target domain.
use vstd::prelude::*;

use crate::alias_map::AliasMap;
use crate::csv_table::CsvFault;
use crate::csv_table::CsvTable;
use crate::csv_table::csv_headers_of;
use crate::csv_table::csv_rows_of;
use crate::csv_table::parse_csv_bytes;
use crate::errors::ErrorKind;
use crate::errors::RunError;
use crate::text::ci_true;
use crate::text::domain_with_at;
use crate::text::ends_with;
use crate::text::eq_true_ignore_case;
use crate::text::local_part_of;
use crate::text::remove_domain;
use crate::text::split_on_spaces;
use crate::text::split_spaces;
use crate::text::str_eq;
use crate::text::str_ends_with;
use crate::text::strip_domain_suffix;
use crate::text::strip_suffix_rec;
use crate::text::trim_spaces;
use crate::text::trimmed;
use crate::text::with_leading_at;
use vstd::string::StringExecFns;

verus! {

/// The position of the first header equal to `header_name`, or a
/// missing-header error naming it.
pub fn get_header_index(headers: &Vec<String>, header_name: &str) -> (r: Result<usize, RunError>)
    ensures
        match r {
            Ok(i) => headers.deep_view().index_of_first(header_name@) == Some(i as int),
            Err(e) => {
                &&& headers.deep_view().index_of_first(header_name@) is None
                &&& e.phase is None
                &&& e.kind matches ErrorKind::MissingHeader(h) && h@ == header_name@
            },
        },
{
    let n = headers.len();
    let mut i: usize = 0;
    while i < n
        invariant
            n == headers@.len(),
            i <= n,
            forall|j: int| 0 <= j < i ==> headers.deep_view()[j] != header_name@,
        decreases n - i,
    {
        if str_eq(headers[i].as_str(), header_name) {
            proof {
                headers.deep_view().index_of_first_ensures(header_name@);
                assert(headers.deep_view()[i as int] == header_name@);
            }
            return Ok(i);
        }
        i += 1;
    }
    proof {
        headers.deep_view().index_of_first_ensures(header_name@);
    }
    Err(RunError::new(ErrorKind::MissingHeader(header_name.to_owned())))
}

/// Whether an alias-service row is kept: it has an `enabled` value equal to
/// `"true"` up to case, and an alias value.
pub open spec fn sl_row_kept(row: Seq<Seq<char>>, ai: int, ei: int) -> bool {
    ei < row.len() && ci_true(row[ei]) && ai < row.len()
}

/// The note a kept alias-service row stores: its `note` value, or the empty
/// string when the row is too short.
pub open spec fn sl_note(row: Seq<Seq<char>>, ni: int) -> Seq<char> {
    if ni < row.len() {
        row[ni]
    } else {
        Seq::empty()
    }
}

/// The mapping the alias-service rows denote, read front to back: each kept
/// row stores its alias's local part with the row's note.
pub open spec fn sl_fold(rows: Seq<Seq<Seq<char>>>, ai: int, ei: int, ni: int) -> Map<
    Seq<char>,
    Seq<char>,
>
    decreases rows.len(),
{
    if rows.len() == 0 {
        Map::empty()
    } else {
        let m = sl_fold(rows.drop_last(), ai, ei, ni);
        let row = rows.last();
        if sl_row_kept(row, ai, ei) {
            m.insert(local_part_of(row[ai]), sl_note(row, ni))
        } else {
            m
        }
    }
}

/// The first alias-service header that is missing, in checking order, if
/// any.
pub open spec fn missing_sl_header(headers: Seq<Seq<char>>) -> Option<Seq<char>> {
    if headers.index_of_first("alias"@) is None {
        Some("alias"@)
    } else if headers.index_of_first("enabled"@) is None {
        Some("enabled"@)
    } else if headers.index_of_first("note"@) is None {
        Some("note"@)
    } else {
        None
    }
}

/// The mapping an alias-service document with all its headers denotes.
pub open spec fn sl_aliases_map(headers: Seq<Seq<char>>, rows: Seq<Seq<Seq<char>>>) -> Map<
    Seq<char>,
    Seq<char>,
> {
    sl_fold(
        rows,
        headers.index_of_first("alias"@)->0,
        headers.index_of_first("enabled"@)->0,
        headers.index_of_first("note"@)->0,
    )
}

/// An alias is in the alias-service mapping exactly when some row is kept
/// and its alias value has that local part: in particular, a row
/// contributes its alias if and only if its `enabled` column equals
/// `"true"` up to case.
pub proof fn lemma_sl_membership(rows: Seq<Seq<Seq<char>>>, ai: int, ei: int, ni: int, k: Seq<char>)
    ensures
        sl_fold(rows, ai, ei, ni).contains_key(k) <==> exists|i: int|
            0 <= i < rows.len() && sl_row_kept(rows[i], ai, ei) && local_part_of(rows[i][ai]) == k,
    decreases rows.len(),
{
    if rows.len() > 0 {
        lemma_sl_membership(rows.drop_last(), ai, ei, ni, k);
        let last = rows.len() - 1;
        if sl_fold(rows, ai, ei, ni).contains_key(k) {
            if sl_row_kept(rows[last], ai, ei) && local_part_of(rows[last][ai]) == k {
            } else {
                let i = choose|i: int|
                    0 <= i < rows.drop_last().len() && sl_row_kept(rows.drop_last()[i], ai, ei)
                        && local_part_of(rows.drop_last()[i][ai]) == k;
                assert(rows[i] == rows.drop_last()[i]);
            }
        }
        if exists|i: int|
            0 <= i < rows.len() && sl_row_kept(rows[i], ai, ei) && local_part_of(rows[i][ai]) == k {
            let i = choose|i: int|
                0 <= i < rows.len() && sl_row_kept(rows[i], ai, ei) && local_part_of(rows[i][ai])
                    == k;
            if i < last {
                assert(rows.drop_last()[i] == rows[i]);
                assert(sl_fold(rows.drop_last(), ai, ei, ni).contains_key(k));
            }
        }
    }
}

/// Builds the alias mapping from a decoded alias-service document.
pub fn aliases_from_sl_table(table: &CsvTable) -> (r: Result<AliasMap, RunError>)
    ensures
        match r {
            Ok(m) => {
                &&& missing_sl_header(table.headers.deep_view()) is None
                &&& m.wf()
                &&& m@ == sl_aliases_map(table.headers.deep_view(), table.rows.deep_view())
            },
            Err(e) => {
                &&& missing_sl_header(table.headers.deep_view()) matches Some(h)
                &&& e.kind matches ErrorKind::MissingHeader(hs) && hs@ == missing_sl_header(
                    table.headers.deep_view(),
                )->0
                &&& e.phase is None
            },
        },
{
    let ai = match get_header_index(&table.headers, "alias") {
        Ok(i) => i,
        Err(e) => { return Err(e) },
    };
    let ei = match get_header_index(&table.headers, "enabled") {
        Ok(i) => i,
        Err(e) => { return Err(e) },
    };
    let ni = match get_header_index(&table.headers, "note") {
        Ok(i) => i,
        Err(e) => { return Err(e) },
    };
    let mut m = AliasMap::new();
    let n = table.rows.len();
    let mut i: usize = 0;
    proof {
        assert(table.rows.deep_view().take(0) =~= Seq::<Seq<Seq<char>>>::empty());
    }
    while i < n
        invariant
            n == table.rows@.len(),
            i <= n,
            m.wf(),
            m@ == sl_fold(table.rows.deep_view().take(i as int), ai as int, ei as int, ni as int),
        decreases n - i,
    {
        let row = &table.rows[i];
        let ghost rows = table.rows.deep_view();
        proof {
            assert(rows[i as int] == table.rows@[i as int].deep_view());
            assert(rows.take(i + 1).drop_last() =~= rows.take(i as int));
            assert(rows.take(i + 1).last() == rows[i as int]);
        }
        if ei < row.len() && eq_true_ignore_case(row[ei].as_str()) && ai < row.len() {
            let key = remove_domain(row[ai].as_str());
            let note = if ni < row.len() {
                row[ni].clone()
            } else {
                String::new()
            };
            proof {
                assert(row.deep_view()[ai as int] == row@[ai as int]@);
                assert(sl_row_kept(rows[i as int], ai as int, ei as int));
                assert(note@ == sl_note(rows[i as int], ni as int));
            }
            m.insert(key, note);
        } else {
            proof {
                assert(!sl_row_kept(rows[i as int], ai as int, ei as int));
            }
        }
        i += 1;
    }
    proof {
        assert(table.rows.deep_view().take(n as int) =~= table.rows.deep_view());
    }
    Ok(m)
}

/// Parses alias-service export bytes and builds the alias mapping.
pub fn extract_aliases_sl(bytes: &[u8]) -> (r: Result<AliasMap, RunError>)
    ensures
        match r {
            Ok(m) => {
                &&& csv_headers_of(bytes@) matches Some(h)
                &&& csv_rows_of(bytes@) matches Some(rs)
                &&& missing_sl_header(csv_headers_of(bytes@)->0) is None
                &&& m.wf()
                &&& m@ == sl_aliases_map(csv_headers_of(bytes@)->0, csv_rows_of(bytes@)->0)
            },
            Err(e) => {
                &&& e.phase is None
                &&& match e.kind {
                    ErrorKind::NoHeaders => csv_headers_of(bytes@) is None,
                    ErrorKind::MalformedExport => csv_headers_of(bytes@) is Some && csv_rows_of(
                        bytes@,
                    ) is None,
                    ErrorKind::MissingHeader(hs) => csv_headers_of(bytes@) matches Some(h)
                        && missing_sl_header(h) == Some(hs@),
                    _ => false,
                }
            },
        },
{
    let table = match parse_csv_bytes(bytes) {
        Ok(t) => t,
        Err(CsvFault::NoHeaders) => { return Err(RunError::new(ErrorKind::NoHeaders)) },
        Err(CsvFault::MalformedRow) => { return Err(RunError::new(ErrorKind::MalformedExport)) },
    };
    aliases_from_sl_table(&table)
}

/// The note stored for a password-manager alias.
pub open spec fn bw_note(alias: Seq<char>) -> Seq<char> {
    "Used for "@ + alias
}

/// Folds one candidate value into the mapping: trimmed, it must end with
/// the domain suffix; the suffix is then stripped and the alias stored.
pub open spec fn bw_insert_token(
    m: Map<Seq<char>, Seq<char>>,
    tok: Seq<char>,
    suffix: Seq<char>,
) -> Map<Seq<char>, Seq<char>> {
    let t = trimmed(tok);
    if ends_with(t, suffix) {
        let a = strip_suffix_rec(t, suffix);
        m.insert(a, bw_note(a))
    } else {
        m
    }
}

/// Folds the tokens of a `fields` value into the mapping, front to back.
pub open spec fn bw_tokens_fold(
    m: Map<Seq<char>, Seq<char>>,
    toks: Seq<Seq<char>>,
    suffix: Seq<char>,
) -> Map<Seq<char>, Seq<char>>
    decreases toks.len(),
{
    if toks.len() == 0 {
        m
    } else {
        bw_insert_token(bw_tokens_fold(m, toks.drop_last(), suffix), toks.last(), suffix)
    }
}

/// Folds one password-manager row into the mapping: the `login_username`
/// value first, then the tokens of the `fields` value.
pub open spec fn bw_row_map(
    m: Map<Seq<char>, Seq<char>>,
    row: Seq<Seq<char>>,
    li: int,
    fi: int,
    suffix: Seq<char>,
) -> Map<Seq<char>, Seq<char>> {
    let m1 = if li < row.len() {
        bw_insert_token(m, row[li], suffix)
    } else {
        m
    };
    if fi < row.len() {
        bw_tokens_fold(m1, split_spaces(row[fi]), suffix)
    } else {
        m1
    }
}

/// The mapping the password-manager rows denote, read front to back.
pub open spec fn bw_fold(rows: Seq<Seq<Seq<char>>>, li: int, fi: int, suffix: Seq<char>) -> Map<
    Seq<char>,
    Seq<char>,
>
    decreases rows.len(),
{
    if rows.len() == 0 {
        Map::empty()
    } else {
        bw_row_map(bw_fold(rows.drop_last(), li, fi, suffix), rows.last(), li, fi, suffix)
    }
}

/// The first password-manager header that is missing, in checking order, if
/// any.
pub open spec fn missing_bw_header(headers: Seq<Seq<char>>) -> Option<Seq<char>> {
    if headers.index_of_first("login_username"@) is None {
        Some("login_username"@)
    } else if headers.index_of_first("fields"@) is None {
        Some("fields"@)
    } else {
        None
    }
}

/// The mapping a password-manager document with all its headers denotes,
/// for the given target domain (normalized to begin with `'@'`).
pub open spec fn bw_aliases_map(
    headers: Seq<Seq<char>>,
    rows: Seq<Seq<Seq<char>>>,
    domain: Seq<char>,
) -> Map<Seq<char>, Seq<char>> {
    bw_fold(
        rows,
        headers.index_of_first("login_username"@)->0,
        headers.index_of_first("fields"@)->0,
        with_leading_at(domain),
    )
}

/// Builds the alias mapping from a decoded password-manager document.
pub fn aliases_from_bw_table(table: &CsvTable, domain: &str) -> (r: Result<AliasMap, RunError>)
    ensures
        match r {
            Ok(m) => {
                &&& missing_bw_header(table.headers.deep_view()) is None
                &&& m.wf()
                &&& m@ == bw_aliases_map(
                    table.headers.deep_view(),
                    table.rows.deep_view(),
                    domain@,
                )
            },
            Err(e) => {
                &&& missing_bw_header(table.headers.deep_view()) matches Some(h)
                &&& e.kind matches ErrorKind::MissingHeader(hs) && hs@ == missing_bw_header(
                    table.headers.deep_view(),
                )->0
                &&& e.phase is None
            },
        },
{
    let li = match get_header_index(&table.headers, "login_username") {
        Ok(i) => i,
        Err(e) => { return Err(e) },
    };
    let fi = match get_header_index(&table.headers, "fields") {
        Ok(i) => i,
        Err(e) => { return Err(e) },
    };
    let suffix = domain_with_at(domain);
    let mut m = AliasMap::new();
    let n = table.rows.len();
    let mut i: usize = 0;
    proof {
        assert(table.rows.deep_view().take(0) =~= Seq::<Seq<Seq<char>>>::empty());
    }
    while i < n
        invariant
            n == table.rows@.len(),
            i <= n,
            m.wf(),
            suffix@ == with_leading_at(domain@),
            m@ == bw_fold(table.rows.deep_view().take(i as int), li as int, fi as int, suffix@),
        decreases n - i,
    {
        let row = &table.rows[i];
        let ghost rows = table.rows.deep_view();
        let ghost m0 = m@;
        proof {
            assert(rows[i as int] == table.rows@[i as int].deep_view());
            assert(rows.take(i + 1).drop_last() =~= rows.take(i as int));
            assert(rows.take(i + 1).last() == rows[i as int]);
        }
        if li < row.len() {
            let candidate = trim_spaces(row[li].as_str());
            proof {
                assert(row.deep_view()[li as int] == row@[li as int]@);
            }
            if str_ends_with(candidate.as_str(), suffix.as_str()) {
                let alias = strip_domain_suffix(candidate.as_str(), suffix.as_str());
                let note = String::from_str("Used for ").concat(alias.as_str());
                m.insert(alias, note);
            }
        }
        proof {
            assert(m@ == (if li < rows[i as int].len() {
                bw_insert_token(m0, rows[i as int][li as int], suffix@)
            } else {
                m0
            }));
        }
        if fi < row.len() {
            let ghost m1 = m@;
            let toks = split_on_spaces(row[fi].as_str());
            proof {
                assert(row.deep_view()[fi as int] == row@[fi as int]@);
                assert(toks.deep_view().take(0) =~= Seq::<Seq<char>>::empty());
            }
            let tn = toks.len();
            let mut j: usize = 0;
            while j < tn
                invariant
                    tn == toks@.len(),
                    j <= tn,
                    m.wf(),
                    suffix@ == with_leading_at(domain@),
                    m@ == bw_tokens_fold(m1, toks.deep_view().take(j as int), suffix@),
                decreases tn - j,
            {
                proof {
                    assert(toks.deep_view().take(j + 1).drop_last() =~= toks.deep_view().take(
                        j as int,
                    ));
                    assert(toks.deep_view().take(j + 1).last() == toks.deep_view()[j as int]);
                    assert(toks.deep_view()[j as int] == toks@[j as int]@);
                }
                let tok = trim_spaces(toks[j].as_str());
                if str_ends_with(tok.as_str(), suffix.as_str()) {
                    let alias = strip_domain_suffix(tok.as_str(), suffix.as_str());
                    let note = String::from_str("Used for ").concat(alias.as_str());
                    m.insert(alias, note);
                }
                j += 1;
            }
            proof {
                assert(toks.deep_view().take(tn as int) =~= toks.deep_view());
                assert(toks.deep_view() == split_spaces(rows[i as int][fi as int]));
            }
        }
        proof {
            assert(m@ == bw_row_map(m0, rows[i as int], li as int, fi as int, suffix@));
        }
        i += 1;
    }
    proof {
        assert(table.rows.deep_view().take(n as int) =~= table.rows.deep_view());
    }
    Ok(m)
}

/// The sub-format a password-manager export file may be in.
#[derive(Debug)]
pub enum ExportFormat {
    Csv,
    Json,
}

/// Parses password-manager export bytes and builds the alias mapping. The
/// JSON sub-format is not understood and is rejected before any parsing.
pub fn extract_aliases_bw(bytes: &[u8], domain: &str, format: &ExportFormat) -> (r: Result<
    AliasMap,
    RunError,
>)
    ensures
        format is Json ==> (r matches Err(e) && e.kind is UnsupportedFormat && e.phase is None),
        format is Csv ==> match r {
            Ok(m) => {
                &&& csv_headers_of(bytes@) matches Some(h)
                &&& csv_rows_of(bytes@) matches Some(rs)
                &&& missing_bw_header(csv_headers_of(bytes@)->0) is None
                &&& m.wf()
                &&& m@ == bw_aliases_map(
                    csv_headers_of(bytes@)->0,
                    csv_rows_of(bytes@)->0,
                    domain@,
                )
            },
            Err(e) => {
                &&& e.phase is None
                &&& match e.kind {
                    ErrorKind::NoHeaders => csv_headers_of(bytes@) is None,
                    ErrorKind::MalformedExport => csv_headers_of(bytes@) is Some && csv_rows_of(
                        bytes@,
                    ) is None,
                    ErrorKind::MissingHeader(hs) => csv_headers_of(bytes@) matches Some(h)
                        && missing_bw_header(h) == Some(hs@),
                    _ => false,
                }
            },
        },
{
    match format {
        ExportFormat::Json => Err(RunError::new(ErrorKind::UnsupportedFormat)),
        ExportFormat::Csv => {
            let table = match parse_csv_bytes(bytes) {
                Ok(t) => t,
                Err(CsvFault::NoHeaders) => { return Err(RunError::new(ErrorKind::NoHeaders)) },
                Err(CsvFault::MalformedRow) => {
                    return Err(RunError::new(ErrorKind::MalformedExport))
                },
            };
            aliases_from_bw_table(&table, domain)
        },
    }
}

} // verus!
