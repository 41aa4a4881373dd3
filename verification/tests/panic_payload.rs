use nicy_runtime::host::{panic_payload_to_string, payload_text};

#[test]
fn test_panic_payload_to_string() {
    assert_eq!(panic_payload_to_string(Box::new("task error")), "task error");
    assert_eq!(
        panic_payload_to_string(Box::new(String::from("owned"))),
        "owned"
    );
    assert_eq!(
        panic_payload_to_string(Box::new(123i32)),
        "non-string panic payload"
    );
}

#[test]
fn payload_text_prefers_str_then_string() {
    assert_eq!(payload_text(Some("a".to_string()), Some("b".to_string())), "a");
    assert_eq!(payload_text(None, Some("b".to_string())), "b");
    assert_eq!(payload_text(None, None), "non-string panic payload");
}

#[test]
fn panic_payload_of_other_types_is_not_text() {
    assert_eq!(panic_payload_to_string(Box::new(1.5f64)), "non-string panic payload");
    assert_eq!(panic_payload_to_string(Box::new(vec![1u8])), "non-string panic payload");
}
