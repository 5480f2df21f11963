use rusteron::common::{AeronCError, AeronErrorType};

#[test]
fn code_of_timed_out() {
    assert_eq!(AeronErrorType::TimedOut.code(), -234324);
}

#[test]
fn error_text_names_the_kind() {
    assert_eq!(AeronCError::from_code(-2).to_text(), "Aeron error -2: PublicationBackPressured");
    assert_eq!(AeronCError::from_code(-77).to_text(), "Aeron error -77: Unknown(-77)");
}
