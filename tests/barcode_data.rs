use print_queue::barcode::{clean_for_code128, normalize_ean13, to_code128_data, Ean13Error};
use print_queue::records::{CodegenHistoryEntry, CodegenHistoryExport, Task, TasksExport};

#[test]
fn ean13_gets_its_check_digit() {
    assert_eq!(normalize_ean13("590123412345").unwrap(), "5901234123457");
    assert_eq!(normalize_ean13("400638133393").unwrap(), "4006381333931");
    assert_eq!(normalize_ean13("000000000000").unwrap(), "0000000000000");
}

#[test]
fn ean13_with_check_digit() {
    assert_eq!(normalize_ean13("5901234123457").unwrap(), "5901234123457");
    assert_eq!(
        normalize_ean13("5901234123458").unwrap_err(),
        Ean13Error::CheckDigit { expected: 7, got: 8 }
    );
}

#[test]
fn ean13_refuses_bad_input() {
    assert_eq!(normalize_ean13("59012341234a").unwrap_err(), Ean13Error::NonDigit);
    assert_eq!(normalize_ean13("５9012341234").unwrap_err(), Ean13Error::NonDigit);
    assert_eq!(normalize_ean13("12345").unwrap_err(), Ean13Error::BadLength);
    assert_eq!(normalize_ean13("").unwrap_err(), Ean13Error::BadLength);
    assert_eq!(normalize_ean13("59012341234570").unwrap_err(), Ean13Error::BadLength);
}

#[test]
fn code128_cleaning() {
    assert_eq!(clean_for_code128("ab\ncd\t"), "abcd");
    assert_eq!(clean_for_code128("Grüße"), "Gr??e");
    assert_eq!(clean_for_code128("\u{7f}\u{85}x"), "x");
    assert_eq!(clean_for_code128(""), "");
    assert_eq!(to_code128_data("A1"), "\u{0181}A1");
    assert_eq!(to_code128_data("\r\n"), "\u{0181}");
}

#[test]
fn exports_carry_the_format_version() {
    let task = Task {
        id: 1,
        name: "n".to_string(),
        number: "42".to_string(),
        feature_type: "feat".to_string(),
        branch: "main".to_string(),
        pr_title: "t".to_string(),
        created_at: "2024-01-01T00:00:00+00:00".to_string(),
    };
    let export = TasksExport::new(vec![task], "2024-02-02T00:00:00+00:00".to_string());
    assert_eq!(export.version, "1.0");
    assert_eq!(export.tasks.len(), 1);
    assert_eq!(export.export_date, "2024-02-02T00:00:00+00:00");
    let entry = CodegenHistoryEntry {
        id: 3,
        mode: "single".to_string(),
        summary: "s".to_string(),
        payload: "{}".to_string(),
        created_at: "2024-01-01T00:00:00+00:00".to_string(),
    };
    let history = CodegenHistoryExport::new(vec![entry], "d".to_string());
    assert_eq!(history.version, "1.0");
    assert_eq!(history.entries[0].id, 3);
}
