use libsql_plugin::text::{c_string, decimal_i64, decimal_u64, is_wal, nul_error, same_text};

#[test]
fn prints_numbers_in_decimal() {
    assert_eq!(decimal_u64(0), "0");
    assert_eq!(decimal_u64(u64::MAX), "18446744073709551615");
    assert_eq!(decimal_i64(-7), "-7");
    assert_eq!(decimal_i64(i64::MIN), "-9223372036854775808");
    assert_eq!(decimal_i64(i64::MAX), "9223372036854775807");
}

#[test]
fn compares_texts() {
    assert!(same_text("caf\u{e9}", "caf\u{e9}"));
    assert!(!same_text("abc", "abd"));
    assert!(!same_text("abc", "abcd"));
    assert!(same_text("", ""));
}

#[test]
fn finds_the_first_nul_byte() {
    assert_eq!(nul_error("select 1"), None);
    assert_eq!(
        nul_error("\u{e9}x\0y\0"),
        Some("nul byte found in provided data at position: 3".to_string())
    );
    assert_eq!(
        nul_error("\0"),
        Some("nul byte found in provided data at position: 0".to_string())
    );
}

#[test]
fn replaces_what_is_not_utf8() {
    assert_eq!(c_string(Some(b"ok\xffno".to_vec())), "ok\u{fffd}no");
    assert_eq!(c_string(Some("caf\u{e9}".as_bytes().to_vec())), "caf\u{e9}");
    assert_eq!(c_string(None), "");
}

#[test]
fn reads_wal_in_any_case() {
    assert!(is_wal("wal"));
    assert!(is_wal("WaL"));
    assert!(!is_wal("delete"));
    assert!(!is_wal("wa"));
    assert!(!is_wal("wal2"));
    assert!(!is_wal("\u{17f}al"));
}
