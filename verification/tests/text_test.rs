use rust_mlir::text::append_decimal;

fn decimal(n: usize) -> String {
    let mut text = String::new();
    append_decimal(&mut text, n);
    text
}

#[test]
fn decimal_notation() {
    assert_eq!(decimal(0), "0");
    assert_eq!(decimal(9), "9");
    assert_eq!(decimal(10), "10");
    assert_eq!(decimal(1234567890), "1234567890");
    assert_eq!(decimal(usize::MAX), usize::MAX.to_string());
}

#[test]
fn decimal_is_appended() {
    let mut text = "n=".to_string();
    append_decimal(&mut text, 305);
    assert_eq!(text, "n=305");
    append_decimal(&mut text, 0);
    assert_eq!(text, "n=3050");
}
