use route_sync::csv_table::CsvTable;
use route_sync::errors::ErrorKind;
use route_sync::extract::ExportFormat;
use route_sync::extract::aliases_from_bw_table;
use route_sync::extract::aliases_from_sl_table;
use route_sync::extract::extract_aliases_bw;
use route_sync::extract::extract_aliases_sl;
use route_sync::extract::get_header_index;

fn row(fields: &[&str]) -> Vec<String> {
    fields.iter().map(|f| f.to_string()).collect()
}

#[test]
fn header_lookup_finds_first_match() {
    let headers = row(&["alias", "enabled", "note", "enabled"]);
    assert_eq!(get_header_index(&headers, "enabled").unwrap(), 1);
    let err = get_header_index(&headers, "missing").unwrap_err();
    match err.kind {
        ErrorKind::MissingHeader(h) => assert_eq!(h, "missing"),
        _ => panic!("expected a missing-header error"),
    }
}

#[test]
fn sl_rows_kept_iff_enabled_is_true() {
    let table = CsvTable {
        headers: row(&["alias", "enabled", "note"]),
        rows: vec![
            row(&["on@x.com", "true", "kept lower"]),
            row(&["upper@x.com", "TRUE", "kept upper"]),
            row(&["mixed@x.com", "tRuE", "kept mixed"]),
            row(&["off@x.com", "false", "dropped"]),
            row(&["empty@x.com", "", "dropped too"]),
        ],
    };
    let m = aliases_from_sl_table(&table).unwrap();
    assert_eq!(m.len(), 3);
    assert!(m.contains_key("on"));
    assert!(m.contains_key("upper"));
    assert!(m.contains_key("mixed"));
    assert!(!m.contains_key("off"));
    assert!(!m.contains_key("empty"));
    assert_eq!(m.get("on").unwrap(), "kept lower");
}

#[test]
fn sl_later_row_overwrites_earlier_note() {
    let table = CsvTable {
        headers: row(&["alias", "enabled", "note"]),
        rows: vec![row(&["dup@x.com", "true", "first"]), row(&["dup@x.com", "true", "second"])],
    };
    let m = aliases_from_sl_table(&table).unwrap();
    assert_eq!(m.len(), 1);
    assert_eq!(m.get("dup").unwrap(), "second");
}

#[test]
fn sl_missing_header_short_circuits() {
    let table = CsvTable {
        headers: row(&["alias", "note"]),
        rows: vec![row(&["x@x.com", "true"])],
    };
    let err = aliases_from_sl_table(&table).unwrap_err();
    match err.kind {
        ErrorKind::MissingHeader(h) => assert_eq!(h, "enabled"),
        _ => panic!("expected a missing-header error"),
    }
    assert!(err.phase.is_none());
}

#[test]
fn sl_extraction_from_csv_bytes() {
    let bytes = b"alias,enabled,note\nfoo@bar.com,true,hello\nbar@bar.com,false,ignored\nplain,TRUE,\n";
    let m = extract_aliases_sl(bytes).unwrap();
    assert_eq!(m.len(), 2);
    assert_eq!(m.get("foo").unwrap(), "hello");
    assert_eq!(m.get("plain").unwrap(), "");
    assert!(!m.contains_key("bar"));
}

#[test]
fn sl_malformed_record_fails_extraction() {
    let bytes = b"alias,enabled,note\nfoo@bar.com,true\n";
    let err = extract_aliases_sl(bytes).unwrap_err();
    assert!(matches!(err.kind, ErrorKind::MalformedExport));
}

#[test]
fn sl_unreadable_header_row_fails_extraction() {
    let bytes = b"ali\xFFas,enabled,note\nfoo@bar.com,true,x\n";
    let err = extract_aliases_sl(bytes).unwrap_err();
    assert!(matches!(err.kind, ErrorKind::NoHeaders));
}

#[test]
fn bw_username_and_fields_both_contribute() {
    let table = CsvTable {
        headers: row(&["name", "login_username", "fields"]),
        rows: vec![
            row(&["site one", "jdoe@example.net", ""]),
            row(&["site two", "other@elsewhere.org", "tok@example.net spare"]),
        ],
    };
    let m = aliases_from_bw_table(&table, "example.net").unwrap();
    assert_eq!(m.len(), 2);
    assert_eq!(m.get("jdoe").unwrap(), "Used for jdoe");
    assert_eq!(m.get("tok").unwrap(), "Used for tok");
    assert!(!m.contains_key("other"));
}

#[test]
fn bw_domain_with_or_without_at_behaves_alike() {
    let table = CsvTable {
        headers: row(&["login_username", "fields"]),
        rows: vec![row(&["jdoe@example.net", ""])],
    };
    let with_at = aliases_from_bw_table(&table, "@example.net").unwrap();
    let without = aliases_from_bw_table(&table, "example.net").unwrap();
    assert!(with_at.contains_key("jdoe"));
    assert!(without.contains_key("jdoe"));
}

#[test]
fn bw_fields_tokens_are_trimmed_and_filtered() {
    let table = CsvTable {
        headers: row(&["login_username", "fields"]),
        rows: vec![row(&["", "a@example.net  b@example.net\t c@other.org"])],
    };
    let m = aliases_from_bw_table(&table, "example.net").unwrap();
    assert_eq!(m.len(), 2);
    assert!(m.contains_key("a"));
    assert!(m.contains_key("b"));
    assert!(!m.contains_key("c"));
}

#[test]
fn bw_missing_header_short_circuits() {
    let table = CsvTable {
        headers: row(&["login_username", "items"]),
        rows: vec![],
    };
    let err = aliases_from_bw_table(&table, "example.net").unwrap_err();
    match err.kind {
        ErrorKind::MissingHeader(h) => assert_eq!(h, "fields"),
        _ => panic!("expected a missing-header error"),
    }
}

#[test]
fn bw_extraction_from_csv_bytes() {
    let bytes = b"login_username,fields\njdoe@example.net,extra@example.net\n";
    let m = extract_aliases_bw(bytes, "example.net", &ExportFormat::Csv).unwrap();
    assert_eq!(m.len(), 2);
    assert_eq!(m.get("jdoe").unwrap(), "Used for jdoe");
    assert_eq!(m.get("extra").unwrap(), "Used for extra");
}

#[test]
fn bw_json_sub_format_is_rejected_up_front() {
    let err = extract_aliases_bw(b"{\"items\": []}", "example.net", &ExportFormat::Json)
        .unwrap_err();
    assert!(matches!(err.kind, ErrorKind::UnsupportedFormat));
    assert!(err.phase.is_none());
}
