use ibkr_flex_mcp::flex::parse::{get_response_outcome, send_response_outcome, ControlResponse, FlexError, GetOutcome};

fn envelope(status: Option<&str>, code: Option<&str>, error_code: Option<&str>, message: Option<&str>) -> ControlResponse {
    ControlResponse {
        status: status.map(String::from),
        reference_code: code.map(String::from),
        error_code: error_code.map(String::from),
        error_message: message.map(String::from),
    }
}

#[test]
fn send_success_yields_reference_code() {
    let r = send_response_outcome(Ok(envelope(Some("Success"), Some("REF123"), None, None)));
    assert_eq!(r.unwrap(), "REF123");
}

#[test]
fn send_failure_surfaces_api_error() {
    let err = send_response_outcome(Ok(envelope(Some("Fail"), None, Some("1012"), Some("Token has expired"))))
        .unwrap_err();
    assert!(matches!(err, FlexError::Api(_)), "got {err:?}");
    assert!(err.message().contains("1012"));
    assert!(err.message().contains("Token has expired"));
}

#[test]
fn send_success_without_reference_code_is_parse_error() {
    assert!(matches!(
        send_response_outcome(Ok(envelope(Some("Success"), None, None, None))).unwrap_err(),
        FlexError::Parse(_)
    ));
}

#[test]
fn send_success_with_empty_reference_code_is_parse_error() {
    assert_eq!(
        send_response_outcome(Ok(envelope(Some("Success"), Some(""), None, None))).unwrap_err(),
        FlexError::Parse("no reference code in response".into())
    );
}

#[test]
fn send_without_status_is_parse_error() {
    assert_eq!(
        send_response_outcome(Ok(envelope(None, Some("REF"), None, None))).unwrap_err(),
        FlexError::Parse("missing Status element".into())
    );
}

#[test]
fn send_unreadable_envelope_is_parse_error() {
    assert_eq!(
        send_response_outcome(Err("bad".into())).unwrap_err(),
        FlexError::Parse("SendRequest response: bad".into())
    );
}

#[test]
fn send_failure_message_layout() {
    let err = send_response_outcome(Ok(envelope(Some("Fail"), None, Some("1012"), Some("Token has expired"))))
        .unwrap_err();
    assert_eq!(err, FlexError::Api("SendRequest status Fail: 1012 - Token has expired".into()));
    let err = send_response_outcome(Ok(envelope(Some("Warn"), None, None, None))).unwrap_err();
    assert_eq!(err, FlexError::Api("SendRequest status Warn:  - ".into()));
}

const IN_PROGRESS: &str = r#"<FlexStatementResponse><Status>Warn</Status><ErrorCode>1019</ErrorCode><ErrorMessage>Statement generation in progress. Try again shortly.</ErrorMessage></FlexStatementResponse>"#;

#[test]
fn get_in_progress_is_detected() {
    let parsed = envelope(Some("Warn"), None, Some("1019"), Some("Statement generation in progress. Try again shortly."));
    assert_eq!(get_response_outcome(IN_PROGRESS, Ok(parsed)).unwrap(), GetOutcome::InProgress);
}

#[test]
fn get_statement_payload_is_returned_verbatim() {
    let xml = r#"<FlexQueryResponse queryName="Activity" type="AF"><FlexStatements count="1"><FlexStatement accountId="U1234567"><OpenPositions/></FlexStatement></FlexStatements></FlexQueryResponse>"#;
    let parsed = envelope(None, None, None, None);
    assert_eq!(get_response_outcome(xml, Ok(parsed)).unwrap(), GetOutcome::Statement(xml.to_string()));
}

#[test]
fn get_error_envelope_surfaces_api_error() {
    let xml = r#"<FlexStatementResponse><Status>Fail</Status><ErrorCode>1003</ErrorCode><ErrorMessage>Statement could not be generated</ErrorMessage></FlexStatementResponse>"#;
    let parsed = envelope(Some("Fail"), None, Some("1003"), Some("Statement could not be generated"));
    let err = get_response_outcome(xml, Ok(parsed)).unwrap_err();
    assert!(matches!(err, FlexError::Api(_)), "got {err:?}");
    assert!(err.message().contains("1003"));
    assert_eq!(err, FlexError::Api("GetStatement error 1003: Statement could not be generated".into()));
}

#[test]
fn get_unreadable_body_is_the_statement() {
    assert_eq!(
        get_response_outcome("not xml at all", Err("syntax".into())).unwrap(),
        GetOutcome::Statement("not xml at all".into())
    );
}

#[test]
fn get_success_envelope_with_error_code_is_the_statement() {
    let parsed = envelope(Some("Success"), None, Some("1"), None);
    assert_eq!(get_response_outcome("<x/>", Ok(parsed)).unwrap(), GetOutcome::Statement("<x/>".into()));
}

#[test]
fn error_messages_show_each_variant() {
    assert_eq!(FlexError::Api("x".into()).message(), "Flex API error: x");
    assert_eq!(FlexError::Parse("y".into()).message(), "Flex response malformed: y");
    assert_eq!(FlexError::NotReady(3).message(), "statement not ready after 3 attempts");
    assert_eq!(FlexError::NotReady(1024).message(), "statement not ready after 1024 attempts");
    assert_eq!(FlexError::NotReady(0).message(), "statement not ready after 0 attempts");
    assert_eq!(FlexError::Transport("z".into()).message(), "transport error: z");
}
