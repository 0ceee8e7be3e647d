use phronesis::fs::naming::validate_name;

#[test]
fn test_valid_names() {
    assert!(validate_name("send_email_politely.jsonl", "/test").is_none());
    assert!(validate_name("analyze_data_patterns.jsonl", "/test").is_none());
    assert!(validate_name("greet_user.jsonl", "/test").is_none());
    assert!(validate_name("handle_error_gracefully.jsonl", "/test").is_none());
}

#[test]
fn test_invalid_names() {
    assert!(validate_name("single.jsonl", "/test").is_some());
    assert!(validate_name("send_email.txt", "/test").is_some());
    assert!(validate_name("bad name.jsonl", "/test").is_some());
    assert!(validate_name("Send_Email.jsonl", "/test").is_some());
    assert!(validate_name("send_email", "/test").is_some());
    assert!(validate_name("", "/test").is_some());
}

#[test]
fn test_unicode_names_rejected() {
    assert!(validate_name("보내다_이메일.jsonl", "/test").is_some());
}

#[test]
fn test_starts_with_digit() {
    assert!(validate_name("1send_email.jsonl", "/test").is_some());
    assert!(validate_name("0_action.jsonl", "/test").is_some());
}

#[test]
fn test_consecutive_underscores() {
    assert!(validate_name("send__email.jsonl", "/test").is_some());
}

#[test]
fn test_trailing_underscore() {
    assert!(validate_name("send_email_.jsonl", "/test").is_some());
}

#[test]
fn test_very_long_name() {
    let long_name = format!("{}_{}.jsonl", "a".repeat(100), "b".repeat(100));
    assert!(
        validate_name(&long_name, "/test").is_none(),
        "Long but valid name should pass"
    );
}

#[test]
fn test_minimal_valid_name() {
    assert!(validate_name("a_b.jsonl", "/test").is_none());
}

#[test]
fn test_numbers_in_segments() {
    assert!(validate_name("handle_error42.jsonl", "/test").is_none());
    assert!(validate_name("retry3_connection.jsonl", "/test").is_none());
}

#[test]
fn test_only_extension() {
    assert!(validate_name(".jsonl", "/test").is_some());
}

#[test]
fn test_warning_fields_populated() {
    let warning = validate_name("BAD", "/some/path").unwrap();
    assert_eq!(warning.file_path, "/some/path");
    assert_eq!(warning.rule_violated, "naming_convention");
    assert!(!warning.message.is_empty());
    assert!(!warning.ts.is_empty());
}

#[test]
fn ac04_naming_validation() {
    assert!(validate_name("analyze_data_patterns.jsonl", "/test").is_none());
    assert!(validate_name("send_email_politely.jsonl", "/test").is_none());
    assert!(validate_name("handle_error_gracefully.jsonl", "/test").is_none());

    let warning = validate_name("bad name.jsonl", "/test");
    assert!(warning.is_some());
    assert_eq!(warning.unwrap().rule_violated, "naming_convention");

    assert!(validate_name("single.jsonl", "/test").is_some());
    assert!(validate_name("send_email.txt", "/test").is_some());
    assert!(validate_name("Send_Email.jsonl", "/test").is_some());
}

#[test]
fn naming_warning_message_names_the_file() {
    let warning = validate_name("BAD NAME.txt", "praxis/BAD NAME.txt").unwrap();
    assert_eq!(
        warning.message,
        "Filename 'BAD NAME.txt' does not match naming convention: verb_object[_method].jsonl"
    );
    assert_eq!(warning.file_path, "praxis/BAD NAME.txt");
}

#[test]
fn naming_extension_must_end_the_name() {
    assert!(validate_name("send_email.jsonl.bak", "/t").is_some());
    assert!(validate_name("send_email.jsonl\n", "/t").is_some());
    assert!(validate_name("_send_email.jsonl", "/t").is_some());
    assert!(validate_name("send-email.jsonl", "/t").is_some());
    assert!(validate_name("a1_b2_c3.jsonl", "/t").is_none());
}
