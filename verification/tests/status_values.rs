use otelwasm_rust_sdk::{Status, StatusCode};

#[test]
fn success_status() {
    let s = Status::success();
    assert_eq!(s.code, StatusCode::Success);
    assert_eq!(s.reason, "");
    assert_eq!(s.code.value(), 0);
}

#[test]
fn error_status() {
    let s = Status::error("broken");
    assert_eq!(s.code, StatusCode::Error);
    assert_eq!(s.reason, "broken");
    assert_eq!(s.code.value(), 1);
    assert_eq!(Status::error_owned(String::from("x")), Status::error("x"));
}
