use llmpad::error::{upstream_message, AppError, Service};
use llmpad::text::{decimal_text, same_text};

#[test]
fn numbers_are_written_in_decimal() {
    assert_eq!(decimal_text(0), "0");
    assert_eq!(decimal_text(7), "7");
    assert_eq!(decimal_text(10), "10");
    assert_eq!(decimal_text(404), "404");
    assert_eq!(decimal_text(500), "500");
    assert_eq!(decimal_text(1234), "1234");
    assert_eq!(decimal_text(65535), "65535");
}

#[test]
fn store_failure_shows_its_cause() {
    let e = AppError::Store { cause: "database is locked".to_string() };
    assert_eq!(e.message(), "database is locked");
}

#[test]
fn missing_row_shows_as_no_rows() {
    assert_eq!(AppError::NotFound.message(), "Query returned no rows");
}

#[test]
fn texts_are_the_same_character_by_character() {
    assert!(same_text("", ""));
    assert!(same_text("abc", "abc"));
    assert!(!same_text("abc", "abd"));
    assert!(!same_text("abc", "ab"));
    assert!(!same_text("", "a"));
}

#[test]
fn upstream_failure_shows_status_and_body() {
    assert_eq!(
        upstream_message(Service::Completion, "500 Internal Server Error", "server error"),
        "API retornou erro 500 Internal Server Error: server error"
    );
    assert_eq!(upstream_message(Service::Tags, "404", ""), "Ollama retornou erro 404: ");
}
