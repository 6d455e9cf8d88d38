use cargo_test_junit::text::same_text;

#[test]
fn test_ok() {
    println!("Oh noes!!");
    assert!(true);
}

#[test]
fn same_text_compares_characters() {
    assert!(same_text("", ""));
    assert!(same_text("ok", "ok"));
    assert!(!same_text("ok", "ko"));
    assert!(!same_text("ok", "okay"));
    assert!(!same_text("okay", "ok"));
    assert!(same_text("t\u{e9}st", "t\u{e9}st"));
    assert!(!same_text("t\u{e9}st", "test"));
}
