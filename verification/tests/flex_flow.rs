use ibkr_flex_mcp::flex::transport::TransportError;
use ibkr_flex_mcp::flex::{
    ControlResponse, FetchReply, FetchState, FetchStep, FlexClient, FlexError, FlexStatement, HttpRequest, GET_URL,
    SEND_URL,
};
use std::time::Duration;

const SEND_OK: &str = r#"<FlexStatementResponse><Status>Success</Status><ReferenceCode>REF123</ReferenceCode></FlexStatementResponse>"#;
const IN_PROGRESS: &str = r#"<FlexStatementResponse><Status>Warn</Status><ErrorCode>1019</ErrorCode><ErrorMessage>Statement generation in progress.</ErrorMessage></FlexStatementResponse>"#;
const STATEMENT: &str = r#"<FlexQueryResponse queryName="Activity" type="AF"><FlexStatements count="1"><FlexStatement accountId="U1234567"><OpenPositions/></FlexStatement></FlexStatements></FlexQueryResponse>"#;

/// A reply body together with the fields its envelope carries.
fn reply(body: &str) -> FetchReply {
    let field = |s: &str| Some(s.to_string());
    let envelope = if body == SEND_OK {
        Ok(ControlResponse { status: field("Success"), reference_code: field("REF123"), error_code: None, error_message: None })
    } else if body == IN_PROGRESS {
        Ok(ControlResponse {
            status: field("Warn"),
            reference_code: None,
            error_code: field("1019"),
            error_message: field("Statement generation in progress."),
        })
    } else {
        Ok(ControlResponse { status: None, reference_code: None, error_code: None, error_message: None })
    };
    FetchReply::Body { body: body.to_string(), envelope }
}

/// Drives a fetch over canned replies, recording each request made.
fn run(client: &FlexClient<()>, replies: &[&str]) -> (Result<FlexStatement, FlexError>, Vec<HttpRequest>) {
    let mut requests = Vec::new();
    let mut step = client.start_fetch("my-token", "Q789");
    let mut queue = replies.iter();
    loop {
        match step {
            FetchStep::Done(result) => return (result, requests),
            FetchStep::Request { request, next, .. } => {
                requests.push(request);
                let r = match queue.next() {
                    Some(body) => reply(body),
                    None => FetchReply::TransportFailed(TransportError("fake: no more responses queued".into())),
                };
                step = client.on_reply("my-token", "Q789", next, r);
            }
        }
    }
}

fn param<'a>(request: &'a HttpRequest, key: &str) -> Option<&'a str> {
    request.params.iter().find(|(k, _)| k == key).map(|(_, v)| v.as_str())
}

#[test]
fn fetches_statement_after_polling_through_in_progress() {
    let client = FlexClient::new(()).with_retry(5, Duration::ZERO);
    let (result, _) = run(&client, &[SEND_OK, IN_PROGRESS, STATEMENT]);
    let statement = result.expect("should fetch statement");
    assert_eq!(statement.query_id, "Q789");
    assert_eq!(statement.reference_code, "REF123");
    assert_eq!(statement.raw_xml, STATEMENT);
}

#[test]
fn sends_flex_protocol_params_to_correct_endpoints() {
    let client = FlexClient::new(()).with_retry(5, Duration::ZERO);
    let (result, calls) = run(&client, &[SEND_OK, STATEMENT]);
    result.unwrap();
    assert_eq!(calls.len(), 2);

    let send = &calls[0];
    assert_eq!(send.url, SEND_URL);
    assert_eq!(param(send, "t"), Some("my-token"));
    assert_eq!(param(send, "q"), Some("Q789"));
    assert_eq!(param(send, "v"), Some("3"));

    let get = &calls[1];
    assert_eq!(get.url, GET_URL);
    assert_eq!(param(get, "t"), Some("my-token"));
    assert_eq!(param(get, "q"), Some("REF123"));
}

#[test]
fn gives_up_after_max_retries_when_never_ready() {
    let client = FlexClient::new(()).with_retry(3, Duration::ZERO);
    let (result, calls) = run(&client, &[SEND_OK, IN_PROGRESS, IN_PROGRESS, IN_PROGRESS]);
    assert_eq!(result.unwrap_err(), FlexError::NotReady(3));
    assert_eq!(calls.len(), 4);
}

#[test]
fn default_client_polls_eight_times_five_seconds_apart() {
    let client = FlexClient::new(());
    assert_eq!(client.max_retries(), 8);
    assert_eq!(client.retry_delay(), Duration::from_secs(5));
    let replies = [SEND_OK, IN_PROGRESS, IN_PROGRESS, IN_PROGRESS, IN_PROGRESS, IN_PROGRESS, IN_PROGRESS, IN_PROGRESS, IN_PROGRESS];
    let (result, calls) = run(&client, &replies);
    assert_eq!(result.unwrap_err(), FlexError::NotReady(8));
    assert_eq!(calls.len(), 9);
}

#[test]
fn zero_retries_gives_up_after_the_reference_code() {
    let client = FlexClient::new(()).with_retry(0, Duration::ZERO);
    let (result, calls) = run(&client, &[SEND_OK]);
    assert_eq!(result.unwrap_err(), FlexError::NotReady(0));
    assert_eq!(calls.len(), 1);
}

#[test]
fn transport_failure_ends_the_fetch() {
    let client = FlexClient::new(()).with_retry(5, Duration::ZERO);
    let (result, calls) = run(&client, &[SEND_OK]);
    assert_eq!(result.unwrap_err(), FlexError::Transport("fake: no more responses queued".into()));
    assert_eq!(calls.len(), 2);
}

#[test]
fn polls_wait_first_and_the_send_does_not() {
    let client = FlexClient::new(()).with_retry(2, Duration::from_millis(7));
    match client.start_fetch("tok", "Q") {
        FetchStep::Request { wait_first, next, .. } => {
            assert!(!wait_first);
            assert_eq!(next, FetchState::AwaitingReference);
        }
        FetchStep::Done(_) => panic!("fetch should start with a request"),
    }
    match client.on_reply("tok", "Q", FetchState::AwaitingReference, reply(SEND_OK)) {
        FetchStep::Request { wait_first, next, request } => {
            assert!(wait_first);
            assert_eq!(next, FetchState::AwaitingStatement { reference_code: "REF123".into(), attempts: 1 });
            assert_eq!(request.url, GET_URL);
        }
        FetchStep::Done(_) => panic!("a poll should follow the reference code"),
    }
    assert_eq!(client.retry_delay(), Duration::from_millis(7));
}

#[test]
fn custom_urls_are_used() {
    let client = FlexClient::new(()).with_urls("http://s".to_string(), "http://g".to_string()).with_retry(1, Duration::ZERO);
    let (_, calls) = run(&client, &[SEND_OK, STATEMENT]);
    assert_eq!(calls[0].url, "http://s");
    assert_eq!(calls[1].url, "http://g");
}
