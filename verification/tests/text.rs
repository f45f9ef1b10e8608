use thunderbird_api::text::{decimal, same_text};

#[test]
fn decimal_writes_numbers() {
    assert_eq!(decimal(0), "0");
    assert_eq!(decimal(7), "7");
    assert_eq!(decimal(10), "10");
    assert_eq!(decimal(1234567890), "1234567890");
    assert_eq!(decimal(u64::MAX), "18446744073709551615");
}

#[test]
fn same_text_compares_contents() {
    assert!(same_text("", ""));
    assert!(same_text("text", "text"));
    assert!(same_text("caf\u{e9}", "caf\u{e9}"));
    assert!(!same_text("text", "texts"));
    assert!(!same_text("text", "tex"));
    assert!(!same_text("text", "test"));
    assert!(!same_text("caf\u{e9}", "cafe"));
}
