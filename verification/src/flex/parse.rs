//! The Flex Web Service control responses: errors, the outcome of a poll, and
//! what a `<FlexStatementResponse>` envelope means.
//!
//! Reading the envelope's fields out of the XML is a serde deserialisation,
//! which happens at the edge (app/); here the fields, or the deserialiser's
//! error text, are decided on.

use vstd::prelude::*;
use vstd::string::StringExecFns;

use super::text::{contains_text, decimal, occurs_in, push_decimal};

verus! {

/// The marker IBKR returns from GetStatement while a statement is still being generated.
pub const IN_PROGRESS_MARKER: &'static str = "Statement generation in progress";

/// Errors surfaced by the Flex client.
#[derive(Debug, PartialEq, Eq)]
pub enum FlexError {
    /// IBKR returned a non-success control response (bad token, expired, query error, ...).
    Api(String),
    /// A response could not be parsed, or a required field was missing.
    Parse(String),
    /// The statement was still being generated after the configured number of poll attempts.
    NotReady(u32),
    /// The underlying HTTP transport failed.
    Transport(String),
}

/// The mathematical value of a [`FlexError`].
pub enum FlexErrorView {
    Api(Seq<char>),
    Parse(Seq<char>),
    NotReady(u32),
    Transport(Seq<char>),
}

impl View for FlexError {
    type V = FlexErrorView;

    open spec fn view(&self) -> FlexErrorView {
        match self {
            FlexError::Api(m) => FlexErrorView::Api(m@),
            FlexError::Parse(m) => FlexErrorView::Parse(m@),
            FlexError::NotReady(n) => FlexErrorView::NotReady(*n),
            FlexError::Transport(m) => FlexErrorView::Transport(m@),
        }
    }
}

/// The text by which an error is shown.
pub open spec fn error_text(e: FlexErrorView) -> Seq<char> {
    match e {
        FlexErrorView::Api(m) => "Flex API error: "@ + m,
        FlexErrorView::Parse(m) => "Flex response malformed: "@ + m,
        FlexErrorView::NotReady(n) => "statement not ready after "@ + decimal(n) + " attempts"@,
        FlexErrorView::Transport(m) => "transport error: "@ + m,
    }
}

impl FlexError {
    /// The text by which this error is shown.
    pub fn message(&self) -> (m: String)
        ensures
            m@ == error_text(self@),
    {
        match self {
            FlexError::Api(s) => {
                let mut m = String::from_str("Flex API error: ");
                m.append(s.as_str());
                m
            },
            FlexError::Parse(s) => {
                let mut m = String::from_str("Flex response malformed: ");
                m.append(s.as_str());
                m
            },
            FlexError::NotReady(n) => {
                let mut m = String::from_str("statement not ready after ");
                push_decimal(&mut m, *n);
                m.append(" attempts");
                m
            },
            FlexError::Transport(s) => {
                let mut m = String::from_str("transport error: ");
                m.append(s.as_str());
                m
            },
        }
    }
}

/// The fields of a Flex Web Service control response (`<FlexStatementResponse>`):
/// the envelope returned by SendRequest, and by GetStatement when the statement
/// is not (yet) available. A field is `None` when its element is absent.
pub struct ControlResponse {
    pub status: Option<String>,
    pub reference_code: Option<String>,
    pub error_code: Option<String>,
    pub error_message: Option<String>,
}

/// The mathematical value of a [`ControlResponse`].
pub struct ControlResponseView {
    pub status: Option<Seq<char>>,
    pub reference_code: Option<Seq<char>>,
    pub error_code: Option<Seq<char>>,
    pub error_message: Option<Seq<char>>,
}

impl View for ControlResponse {
    type V = ControlResponseView;

    open spec fn view(&self) -> ControlResponseView {
        ControlResponseView {
            status: self.status.deep_view(),
            reference_code: self.reference_code.deep_view(),
            error_code: self.error_code.deep_view(),
            error_message: self.error_message.deep_view(),
        }
    }
}

/// Outcome of a single GetStatement poll.
#[derive(Debug, PartialEq, Eq)]
pub enum GetOutcome {
    /// Statement still generating; poll again.
    InProgress,
    /// The statement is ready; the payload is the raw report XML.
    Statement(String),
}

/// The mathematical value of a [`GetOutcome`].
pub enum GetOutcomeView {
    InProgress,
    Statement(Seq<char>),
}

impl View for GetOutcome {
    type V = GetOutcomeView;

    open spec fn view(&self) -> GetOutcomeView {
        match self {
            GetOutcome::InProgress => GetOutcomeView::InProgress,
            GetOutcome::Statement(s) => GetOutcomeView::Statement(s@),
        }
    }
}

/// The value of an optional field, the empty text when it is absent.
pub open spec fn or_empty(o: Option<Seq<char>>) -> Seq<char> {
    match o {
        Some(s) => s,
        None => Seq::empty(),
    }
}

/// What a SendRequest reply means: the reference code to poll with, or the
/// error. `parsed` is the envelope's fields, or the deserialiser's error text.
pub open spec fn send_outcome(parsed: Result<ControlResponseView, Seq<char>>) -> Result<Seq<char>, FlexErrorView> {
    match parsed {
        Err(e) => Err(FlexErrorView::Parse("SendRequest response: "@ + e)),
        Ok(r) => match r.status {
            None => Err(FlexErrorView::Parse("missing Status element"@)),
            Some(s) => if s == "Success"@ {
                match r.reference_code {
                    Some(c) => if c.len() > 0 {
                        Ok(c)
                    } else {
                        Err(FlexErrorView::Parse("no reference code in response"@))
                    },
                    None => Err(FlexErrorView::Parse("no reference code in response"@)),
                }
            } else {
                Err(FlexErrorView::Api(
                    "SendRequest status "@ + s + ": "@ + or_empty(r.error_code) + " - "@ + or_empty(
                        r.error_message,
                    ),
                ))
            },
        },
    }
}

/// What a GetStatement reply means: still generating when the body holds the
/// in-progress marker; an API error when the body is a control envelope whose
/// status is not `Success` and that carries an error code; otherwise the body
/// itself is the statement. `parsed` is the body read as an envelope, or the
/// deserialiser's error text.
pub open spec fn get_outcome(body: Seq<char>, parsed: Result<ControlResponseView, Seq<char>>) -> Result<GetOutcomeView, FlexErrorView> {
    if occurs_in(body, IN_PROGRESS_MARKER@) {
        Ok(GetOutcomeView::InProgress)
    } else {
        match parsed {
            Ok(r) => if r.status != Some("Success"@) && r.error_code is Some {
                Err(FlexErrorView::Api(
                    "GetStatement error "@ + r.error_code->0 + ": "@ + or_empty(r.error_message),
                ))
            } else {
                Ok(GetOutcomeView::Statement(body))
            },
            Err(_) => Ok(GetOutcomeView::Statement(body)),
        }
    }
}

/// How a GetStatement reply is classified. It means "still being generated"
/// exactly when its body contains `Statement generation in progress`. A body
/// without that text whose envelope was read, has a status other than
/// `Success` (or none) and carries an error code is the API error
/// `GetStatement error <code>: <message>` (the message empty when absent),
/// whatever that status is. Any other body is the statement, verbatim.
pub proof fn lemma_get_outcome_classification(body: Seq<char>, parsed: Result<ControlResponseView, Seq<char>>)
    ensures
        (get_outcome(body, parsed) == Ok::<GetOutcomeView, FlexErrorView>(GetOutcomeView::InProgress)) <==> (exists|i: int, j: int|
            0 <= i <= j <= body.len() && #[trigger] body.subrange(i, j) == "Statement generation in progress"@),
        !(exists|i: int, j: int| 0 <= i <= j <= body.len() && #[trigger] body.subrange(i, j) == "Statement generation in progress"@)
            ==> match parsed {
            Ok(r) => if r.status != Some("Success"@) && r.error_code is Some {
                get_outcome(body, parsed) == Err::<GetOutcomeView, FlexErrorView>(FlexErrorView::Api(
                    "GetStatement error "@ + r.error_code->0 + ": "@ + match r.error_message {
                        Some(m) => m,
                        None => Seq::<char>::empty(),
                    },
                ))
            } else {
                get_outcome(body, parsed) == Ok::<GetOutcomeView, FlexErrorView>(GetOutcomeView::Statement(body))
            },
            Err(_) => get_outcome(body, parsed) == Ok::<GetOutcomeView, FlexErrorView>(GetOutcomeView::Statement(body)),
        },
{
    let marker = "Statement generation in progress"@;
    assert(IN_PROGRESS_MARKER@ == marker);
    if occurs_in(body, marker) {
        let i = choose|i: int| super::text::occurs_at(body, marker, i);
        assert(body.subrange(i, i + marker.len()) == marker);
    }
    if exists|i: int, j: int| 0 <= i <= j <= body.len() && #[trigger] body.subrange(i, j) == marker {
        let (i, j) = choose|i: int, j: int| 0 <= i <= j <= body.len() && #[trigger] body.subrange(i, j) == marker;
        assert(super::text::occurs_at(body, marker, i));
    }
}

/// How a SendRequest reply is decided. It names reference code `c` exactly
/// when its envelope was read, the status is `Success` and the reference code
/// is `c`, not empty. An envelope that could not be read is the parse error
/// `SendRequest response: <reader's text>`; a missing status the parse error
/// `missing Status element`; a status other than `Success` the API error
/// `SendRequest status <status>: <code> - <message>` (absent parts empty); and
/// a `Success` without a reference code, or with an empty one, the parse error
/// `no reference code in response`.
pub proof fn lemma_send_outcome_decision(parsed: Result<ControlResponseView, Seq<char>>)
    ensures
        send_outcome(parsed) is Ok <==> match parsed {
            Ok(r) => r.status == Some("Success"@) && r.reference_code is Some && r.reference_code->0.len() > 0,
            Err(_) => false,
        },
        send_outcome(parsed) is Ok ==> send_outcome(parsed)->Ok_0 == parsed->Ok_0.reference_code->0,
        parsed matches Err(e) ==> send_outcome(parsed) == Err::<Seq<char>, FlexErrorView>(FlexErrorView::Parse(
            "SendRequest response: "@ + e,
        )),
        parsed matches Ok(r) && r.status is None ==> send_outcome(parsed) == Err::<Seq<char>, FlexErrorView>(
            FlexErrorView::Parse("missing Status element"@),
        ),
        match parsed {
            Ok(r) => match r.status {
                Some(s) => s != "Success"@ ==> send_outcome(parsed) == Err::<Seq<char>, FlexErrorView>(
                    FlexErrorView::Api(
                        "SendRequest status "@ + s + ": "@ + match r.error_code {
                            Some(x) => x,
                            None => Seq::<char>::empty(),
                        } + " - "@ + match r.error_message {
                            Some(x) => x,
                            None => Seq::<char>::empty(),
                        },
                    ),
                ),
                None => true,
            },
            Err(_) => true,
        },
        parsed matches Ok(r) && r.status == Some("Success"@) && !(r.reference_code matches Some(c) && c.len() > 0)
            ==> send_outcome(parsed) == Err::<Seq<char>, FlexErrorView>(
            FlexErrorView::Parse("no reference code in response"@),
        ),
{
}

pub open spec fn parsed_view(parsed: &Result<ControlResponse, String>) -> Result<ControlResponseView, Seq<char>> {
    match parsed {
        Ok(r) => Ok(r@),
        Err(e) => Err(e@),
    }
}

pub open spec fn result_view<T: View>(r: &Result<T, FlexError>) -> Result<T::V, FlexErrorView> {
    match r {
        Ok(v) => Ok(v@),
        Err(e) => Err(e@),
    }
}

fn or_empty_exec(o: &Option<String>) -> (s: String)
    ensures
        s@ == or_empty(o.deep_view()),
{
    match o {
        Some(v) => v.clone(),
        None => String::new(),
    }
}

fn is_success(o: &Option<String>) -> (b: bool)
    ensures
        b == (o.deep_view() == Some("Success"@)),
{
    match o {
        Some(v) => {
            let success = String::from_str("Success");
            *v == success
        },
        None => false,
    }
}

/// Decide a SendRequest reply, given the envelope's fields or the
/// deserialiser's error text: the reference code used to poll for the statement.
pub fn send_response_outcome(parsed: Result<ControlResponse, String>) -> (r: Result<String, FlexError>)
    ensures
        result_view(&r) == send_outcome(parsed_view(&parsed)),
{
    let resp = match parsed {
        Err(e) => {
            let mut m = String::from_str("SendRequest response: ");
            m.append(e.as_str());
            return Err(FlexError::Parse(m));
        },
        Ok(resp) => resp,
    };
    match &resp.status {
        None => Err(FlexError::Parse(String::from_str("missing Status element"))),
        Some(s) => {
            if is_success(&resp.status) {
                match resp.reference_code {
                    Some(c) => {
                        if c.as_str().is_empty() {
                            Err(FlexError::Parse(String::from_str("no reference code in response")))
                        } else {
                            Ok(c)
                        }
                    },
                    None => Err(FlexError::Parse(String::from_str("no reference code in response"))),
                }
            } else {
                let mut m = String::from_str("SendRequest status ");
                m.append(s.as_str());
                m.append(": ");
                let code = or_empty_exec(&resp.error_code);
                m.append(code.as_str());
                m.append(" - ");
                let message = or_empty_exec(&resp.error_message);
                m.append(message.as_str());
                Err(FlexError::Api(m))
            }
        },
    }
}

/// Classify a GetStatement reply body, given the body read as an envelope (or
/// the deserialiser's error text): still generating, an error, or the statement.
pub fn get_response_outcome(body: &str, parsed: Result<ControlResponse, String>) -> (r: Result<GetOutcome, FlexError>)
    ensures
        result_view(&r) == get_outcome(body@, parsed_view(&parsed)),
{
    if contains_text(body, IN_PROGRESS_MARKER) {
        return Ok(GetOutcome::InProgress);
    }
    if let Ok(resp) = parsed {
        if !is_success(&resp.status) {
            if let Some(code) = &resp.error_code {
                let mut m = String::from_str("GetStatement error ");
                m.append(code.as_str());
                m.append(": ");
                let message = or_empty_exec(&resp.error_message);
                m.append(message.as_str());
                return Err(FlexError::Api(m));
            }
        }
    }
    Ok(GetOutcome::Statement(String::from_str(body)))
}

} // verus!
