use traylingo::mask::{create_safe_preview, mask_sensitive_patterns};

#[test]
fn test_mask_sensitive_patterns() {
    // Email masking
    assert_eq!(
        mask_sensitive_patterns("Contact: user@example.com"),
        "Contact: [EMAIL]"
    );

    // URL masking
    assert_eq!(
        mask_sensitive_patterns("See https://example.com/path"),
        "See [URL]"
    );

    // Long number masking (4+ digits)
    assert_eq!(mask_sensitive_patterns("Card: 1234567890"), "Card: [***]");

    // Short numbers are kept
    assert_eq!(mask_sensitive_patterns("Code: 123"), "Code: 123");

    // Combined
    assert_eq!(
        mask_sensitive_patterns("Email user@test.com or call 12345"),
        "Email [EMAIL] or call [***]"
    );
}

#[test]
fn test_create_safe_preview() {
    // Long text is truncated
    let long_text = "a".repeat(100);
    assert_eq!(create_safe_preview(&long_text).len(), 30);

    // Short text with sensitive data is masked
    assert!(create_safe_preview("user@example.com").contains("[EMAIL]"));
}

#[test]
fn test_mask_plain_http_url() {
    assert_eq!(mask_sensitive_patterns("go to http://a.b now"), "go to [URL] now");
    // A bare scheme with nothing after it is not a URL.
    assert_eq!(mask_sensitive_patterns("write http:// first"), "write http:// first");
}

#[test]
fn test_mask_email_edge_cases() {
    // An @ without a valid domain tail stays as it is.
    assert_eq!(mask_sensitive_patterns("a@b"), "a@b");
    // The address is found mid-text, the rest kept.
    assert_eq!(mask_sensitive_patterns("x a.b-c@mail.example.org y"), "x [EMAIL] y");
    // Leading text that shares characters with the address does not confuse it.
    assert_eq!(mask_sensitive_patterns("a@b@c.com"), "a@[EMAIL]");
}

#[test]
fn test_mask_number_runs() {
    // Exactly four digits are masked, three are not.
    assert_eq!(mask_sensitive_patterns("1234"), "[***]");
    assert_eq!(mask_sensitive_patterns("123"), "123");
    // Separated short runs stay.
    assert_eq!(mask_sensitive_patterns("12-34"), "12-34");
    assert_eq!(mask_sensitive_patterns("call 123 4567 now"), "call 123 [***] now");
}
