use astinus::{load_csv, save_csv, Format, InsertPosition, SheetError, Spreadsheet};

fn strings(texts: &[&str]) -> Vec<String> {
    texts.iter().map(|t| t.to_string()).collect()
}

fn some_row(texts: &[&str]) -> Vec<Option<String>> {
    texts.iter().map(|t| Some(t.to_string())).collect()
}

#[test]
fn format_is_chosen_by_kind() {
    assert_eq!(Format::from_kind("csv"), Some(Format::Csv));
    assert_eq!(Format::from_kind("xlsx"), None);
    assert_eq!(Format::from_kind("CSV"), None);
    assert_eq!(Format::from_kind(""), None);
}

#[test]
fn open_reads_headers_and_rows() {
    let sheet = Spreadsheet::open("csv", b"name,qty\napple,3\n\"pear, green\",5\n").unwrap();
    assert_eq!(sheet.get_columns(), strings(&["name", "qty"]));
    assert_eq!(sheet.get_row_count(), 2);
    assert_eq!(sheet.get_rows(0, 1).unwrap(), vec![some_row(&["apple", "3"]), some_row(&["pear, green", "5"])]);
    assert!(!sheet.is_dirty());
}

#[test]
fn open_then_edit_marks_dirty() {
    let mut sheet = Spreadsheet::open("csv", b"A,B\n1,2\n").unwrap();
    assert!(!sheet.is_dirty());
    sheet.set_cell(0, 1, Some("9".to_string())).unwrap();
    assert!(sheet.is_dirty());
}

#[test]
fn open_rejects_unknown_kind() {
    assert!(matches!(Spreadsheet::open("xls", b"A\n1\n"), Err(SheetError::UnsupportedFormat)));
}

#[test]
fn open_reports_malformed_csv_as_storage_error() {
    let result = Spreadsheet::open("csv", b"A,B\n1,2,3\n");
    assert!(matches!(result, Err(SheetError::Storage(_))));
}

#[test]
fn open_of_empty_file_has_no_columns_or_rows() {
    let sheet = Spreadsheet::open("csv", b"").unwrap();
    assert_eq!(sheet.get_column_count(), 0);
    assert_eq!(sheet.get_row_count(), 0);
}

#[test]
fn open_then_save_round_trips_text() {
    let original: &[u8] = b"A,B,C\n1,,x y\n\"q,r\",\"say \"\"hi\"\"\",3\n";
    let sheet = Spreadsheet::open("csv", original).unwrap();
    let saved = sheet.save("csv").unwrap();
    assert_eq!(saved, original.to_vec());
    let again = Spreadsheet::open("csv", &saved).unwrap();
    assert_eq!(again.get_columns(), sheet.get_columns());
    assert_eq!(again.get_rows(0, 1).unwrap(), sheet.get_rows(0, 1).unwrap());
}

#[test]
fn save_writes_missing_cells_as_empty_fields() {
    let mut sheet = Spreadsheet::new();
    sheet.insert_columns(InsertPosition::End, strings(&["A", "B"])).unwrap();
    sheet.insert_row(InsertPosition::End, strings(&["1"])).unwrap();
    sheet.insert_row(InsertPosition::End, strings(&["2", "3"])).unwrap();
    let bytes = save_csv(&sheet).unwrap();
    assert_eq!(bytes, b"A,B\n1,\n2,3\n".to_vec());
}

#[test]
fn save_rejects_unknown_kind() {
    let sheet = Spreadsheet::new();
    assert!(matches!(sheet.save("ods"), Err(SheetError::UnsupportedFormat)));
}

#[test]
fn save_does_not_clear_dirty_flag() {
    let mut sheet = Spreadsheet::new();
    sheet.insert_columns(InsertPosition::End, strings(&["A"])).unwrap();
    let _ = sheet.save("csv").unwrap();
    assert!(sheet.is_dirty());
    sheet.clear_dirty();
    assert!(!sheet.is_dirty());
}

#[test]
fn load_csv_appends_to_existing_contents() {
    let mut sheet = Spreadsheet::new();
    sheet.insert_columns(InsertPosition::End, strings(&["X"])).unwrap();
    sheet.insert_row(InsertPosition::End, strings(&["0"])).unwrap();
    load_csv(b"Y\n1\n2\n", &mut sheet).unwrap();
    assert_eq!(sheet.get_columns(), strings(&["X", "Y"]));
    assert_eq!(sheet.get_row_count(), 3);
    assert_eq!(sheet.get_cell(1, 0), Some("1".to_string()));
    assert!(sheet.is_dirty());
}

#[test]
fn load_csv_error_leaves_sheet_unchanged() {
    let mut sheet = Spreadsheet::new();
    let result = load_csv(b"A\n\xff\n", &mut sheet);
    assert!(matches!(result, Err(SheetError::Storage(_))));
    assert_eq!(sheet.get_column_count(), 0);
    assert!(!sheet.is_dirty());
}

#[test]
fn save_of_empty_sheet_writes_one_empty_field() {
    let sheet = Spreadsheet::open("csv", b"").unwrap();
    assert_eq!(sheet.save("csv").unwrap(), b"\"\"\n".to_vec());
}

#[test]
fn opened_rows_hold_a_value_for_every_column() {
    let sheet = Spreadsheet::open("csv", b"A,B,C\n,,\nx,,z\n").unwrap();
    assert_eq!(
        sheet.get_rows(0, 1).unwrap(),
        vec![
            vec![Some(String::new()), Some(String::new()), Some(String::new())],
            vec![Some("x".to_string()), Some(String::new()), Some("z".to_string())],
        ]
    );
}
