//! The functional core: a transport-agnostic Interactive Brokers Flex Web Service v3 client.
//!
//! Protocol (read-only; the Flex Web Service cannot place orders):
//!   1. SendRequest  -> a reference code     (host: ndcdyn.interactivebrokers.com)
//!   2. GetStatement -> poll until ready     (host: gdcdyn.interactivebrokers.com)
//!
//! The protocol's decisions are a state machine ([`FlexClient::start_fetch`],
//! [`FlexClient::on_reply`]): it names each request to make and, from each
//! reply, the next request or the outcome. Performing the requests and the
//! waits between polls is the caller's part.

pub mod cash;
pub mod parse;
pub mod positions;
pub mod rows;
pub mod text;
pub mod trades;
pub mod transport;
pub mod xml;

pub use cash::{parse_cash_summary, AccountInfo, CashBalance, CashSummary};
pub use parse::{get_response_outcome, send_response_outcome, ControlResponse, FlexError, GetOutcome};
pub use positions::{parse_positions, Position};
pub use trades::{parse_trades, select_trades, Trade, TradeFilter, TradeSelection};

use core::time::Duration;
use vstd::prelude::*;
use vstd::string::StringExecFns;

use parse::{get_outcome, parsed_view, send_outcome, ControlResponseView, FlexErrorView, GetOutcomeView};
use transport::TransportError;

verus! {

/// SendRequest endpoint (generates a statement, returns a reference code).
pub const SEND_URL: &'static str = "https://ndcdyn.interactivebrokers.com/AccountManagement/FlexWebService/SendRequest";

/// GetStatement endpoint (retrieves the generated statement by reference code).
pub const GET_URL: &'static str = "https://gdcdyn.interactivebrokers.com/AccountManagement/FlexWebService/GetStatement";

/// Flex Web Service protocol version.
pub const API_VERSION: &'static str = "3";

/// How many times a fetch polls GetStatement before giving up, by default.
pub const DEFAULT_MAX_RETRIES: u32 = 8;

/// The `Duration` of `secs` whole seconds.
pub uninterp spec fn seconds(secs: u64) -> Duration;

/// `Duration::from_secs`: claimed to give the duration that [`seconds`] names for its argument.
pub assume_specification[ core::time::Duration::from_secs ](secs: u64) -> (d: Duration)
    ensures
        d == seconds(secs),
;

/// A fetched Flex statement: the raw report XML plus the identifiers used to retrieve it.
#[derive(Debug, Clone, PartialEq, Eq)]
pub struct FlexStatement {
    pub query_id: String,
    pub reference_code: String,
    pub raw_xml: String,
}

/// The mathematical value of a [`FlexStatement`].
pub struct FlexStatementView {
    pub query_id: Seq<char>,
    pub reference_code: Seq<char>,
    pub raw_xml: Seq<char>,
}

impl View for FlexStatement {
    type V = FlexStatementView;

    open spec fn view(&self) -> FlexStatementView {
        FlexStatementView { query_id: self.query_id@, reference_code: self.reference_code@, raw_xml: self.raw_xml@ }
    }
}

/// Runs the Flex Web Service two-step protocol; `T` is the transport that the
/// caller performs the requests with.
pub struct FlexClient<T> {
    transport: T,
    send_url: String,
    get_url: String,
    version: String,
    max_retries: u32,
    retry_delay: Duration,
}

impl<T> FlexClient<T> {
    pub closed spec fn spec_transport(&self) -> T {
        self.transport
    }

    pub closed spec fn spec_send_url(&self) -> Seq<char> {
        self.send_url@
    }

    pub closed spec fn spec_get_url(&self) -> Seq<char> {
        self.get_url@
    }

    pub closed spec fn spec_version(&self) -> Seq<char> {
        self.version@
    }

    /// Every client speaks version [`API_VERSION`] of the protocol: no
    /// constructor or builder sets another.
    #[verifier::type_invariant]
    closed spec fn speaks_current_version(self) -> bool {
        self.version@ == API_VERSION@
    }

    pub closed spec fn spec_max_retries(&self) -> u32 {
        self.max_retries
    }

    pub closed spec fn spec_retry_delay(&self) -> Duration {
        self.retry_delay
    }

    /// Create a client against the production IBKR endpoints with sensible polling defaults:
    /// eight polls, five seconds apart.
    pub fn new(transport: T) -> (c: Self)
        ensures
            c.spec_transport() == transport,
            c.spec_send_url() == SEND_URL@,
            c.spec_get_url() == GET_URL@,
            c.spec_version() == API_VERSION@,
            c.spec_max_retries() == DEFAULT_MAX_RETRIES,
            c.spec_retry_delay() == seconds(5),
    {
        FlexClient {
            transport,
            send_url: String::from_str(SEND_URL),
            get_url: String::from_str(GET_URL),
            version: String::from_str(API_VERSION),
            max_retries: DEFAULT_MAX_RETRIES,
            retry_delay: Duration::from_secs(5),
        }
    }

    /// Override the endpoints (used by tests to point at a fake transport's expectations).
    pub fn with_urls(self, send_url: String, get_url: String) -> (c: Self)
        ensures
            c.spec_send_url() == send_url@,
            c.spec_get_url() == get_url@,
            c.spec_transport() == self.spec_transport(),
            c.spec_version() == self.spec_version(),
            c.spec_version() == API_VERSION@,
            c.spec_max_retries() == self.spec_max_retries(),
            c.spec_retry_delay() == self.spec_retry_delay(),
    {
        proof {
            use_type_invariant(&self);
        }
        let mut c = self;
        c.send_url = send_url;
        c.get_url = get_url;
        c
    }

    /// Override the polling policy.
    pub fn with_retry(self, max_retries: u32, retry_delay: Duration) -> (c: Self)
        ensures
            c.spec_max_retries() == max_retries,
            c.spec_retry_delay() == retry_delay,
            c.spec_transport() == self.spec_transport(),
            c.spec_send_url() == self.spec_send_url(),
            c.spec_get_url() == self.spec_get_url(),
            c.spec_version() == self.spec_version(),
            c.spec_version() == API_VERSION@,
    {
        proof {
            use_type_invariant(&self);
        }
        let mut c = self;
        c.max_retries = max_retries;
        c.retry_delay = retry_delay;
        c
    }

    /// The transport that requests are to be made with.
    pub fn transport(&self) -> (t: &T)
        ensures
            *t == self.spec_transport(),
    {
        &self.transport
    }

    /// How long to wait before each GetStatement poll.
    pub fn retry_delay(&self) -> (d: Duration)
        ensures
            d == self.spec_retry_delay(),
    {
        self.retry_delay
    }

    /// How many times a fetch polls GetStatement before giving up.
    pub fn max_retries(&self) -> (n: u32)
        ensures
            n == self.spec_max_retries(),
    {
        self.max_retries
    }
}

/// An HTTP GET to make: the URL and its query-string parameters, in order.
#[derive(Debug, Clone, PartialEq, Eq)]
pub struct HttpRequest {
    pub url: String,
    pub params: Vec<(String, String)>,
}

/// The mathematical value of an [`HttpRequest`].
pub struct HttpRequestView {
    pub url: Seq<char>,
    pub params: Seq<(Seq<char>, Seq<char>)>,
}

impl View for HttpRequest {
    type V = HttpRequestView;

    open spec fn view(&self) -> HttpRequestView {
        HttpRequestView {
            url: self.url@,
            params: self.params@.map_values(|p: (String, String)| (p.0@, p.1@)),
        }
    }
}

/// The request the Flex protocol makes: `url` with the token `t`, the query id or
/// reference code `q`, and the protocol version `v`.
pub open spec fn flex_request(url: Seq<char>, token: Seq<char>, q: Seq<char>, version: Seq<char>) -> HttpRequestView {
    HttpRequestView { url, params: seq![("t"@, token), ("q"@, q), ("v"@, version)] }
}

/// Where a fetch stands between two requests.
#[derive(Debug, Clone, PartialEq, Eq)]
pub enum FetchState {
    /// The SendRequest call is out; its reply names the reference code.
    AwaitingReference,
    /// GetStatement poll number `attempts` (counting from one) is out.
    AwaitingStatement { reference_code: String, attempts: u32 },
}

pub enum FetchStateView {
    AwaitingReference,
    AwaitingStatement { reference_code: Seq<char>, attempts: u32 },
}

impl View for FetchState {
    type V = FetchStateView;

    open spec fn view(&self) -> FetchStateView {
        match self {
            FetchState::AwaitingReference => FetchStateView::AwaitingReference,
            FetchState::AwaitingStatement { reference_code, attempts } => FetchStateView::AwaitingStatement {
                reference_code: reference_code@,
                attempts: *attempts,
            },
        }
    }
}

/// The reply to the request last named.
pub enum FetchReply {
    /// The transport failed.
    TransportFailed(TransportError),
    /// The body of the reply, and the body read as a control envelope (or the
    /// reader's error text).
    Body { body: String, envelope: Result<ControlResponse, String> },
}

pub enum FetchReplyView {
    TransportFailed(Seq<char>),
    Body { body: Seq<char>, envelope: Result<ControlResponseView, Seq<char>> },
}

impl View for FetchReply {
    type V = FetchReplyView;

    open spec fn view(&self) -> FetchReplyView {
        match self {
            FetchReply::TransportFailed(e) => FetchReplyView::TransportFailed(e.0@),
            FetchReply::Body { body, envelope } => FetchReplyView::Body {
                body: body@,
                envelope: parsed_view(envelope),
            },
        }
    }
}

/// What the caller is to do next.
pub enum FetchStep {
    /// Make `request` (after waiting the client's retry delay when `wait_first`),
    /// then hand its reply to [`FlexClient::on_reply`] with state `next`.
    Request { wait_first: bool, request: HttpRequest, next: FetchState },
    /// The fetch is over.
    Done(Result<FlexStatement, FlexError>),
}

pub enum FetchStepView {
    Request { wait_first: bool, request: HttpRequestView, next: FetchStateView },
    Done(Result<FlexStatementView, FlexErrorView>),
}

impl View for FetchStep {
    type V = FetchStepView;

    open spec fn view(&self) -> FetchStepView {
        match self {
            FetchStep::Request { wait_first, request, next } => FetchStepView::Request {
                wait_first: *wait_first,
                request: request@,
                next: next@,
            },
            FetchStep::Done(r) => FetchStepView::Done(
                match r {
                    Ok(s) => Ok(s@),
                    Err(e) => Err(e@),
                },
            ),
        }
    }
}

/// The configuration a fetch runs under.
pub struct FetchConfig {
    pub send_url: Seq<char>,
    pub get_url: Seq<char>,
    pub version: Seq<char>,
    pub max_retries: u32,
}

impl<T> FlexClient<T> {
    pub open spec fn config(&self) -> FetchConfig {
        FetchConfig {
            send_url: self.spec_send_url(),
            get_url: self.spec_get_url(),
            version: self.spec_version(),
            max_retries: self.spec_max_retries(),
        }
    }
}

/// The poll to make for reference code `code`, as poll number `attempts`: after
/// the retry delay, GetStatement with the token and the reference code.
pub open spec fn poll_step(cfg: FetchConfig, token: Seq<char>, code: Seq<char>, attempts: u32) -> FetchStepView {
    FetchStepView::Request {
        wait_first: true,
        request: flex_request(cfg.get_url, token, code, cfg.version),
        next: FetchStateView::AwaitingStatement { reference_code: code, attempts },
    }
}

/// The first step of a fetch: SendRequest with the token and the query id.
pub open spec fn first_step(cfg: FetchConfig, token: Seq<char>, query_id: Seq<char>) -> FetchStepView {
    FetchStepView::Request {
        wait_first: false,
        request: flex_request(cfg.send_url, token, query_id, cfg.version),
        next: FetchStateView::AwaitingReference,
    }
}

/// The step after `reply` arrives in `state`. The SendRequest reply names the
/// reference code, and the first poll follows (or, with no polls allowed, the
/// fetch gives up at once); each poll reply either holds the statement, or
/// asks for another poll while fewer than `max_retries` were made, or ends the
/// fetch with `NotReady(max_retries)`. A transport failure or an error reply
/// ends the fetch with that error.
pub open spec fn next_step(
    cfg: FetchConfig,
    token: Seq<char>,
    query_id: Seq<char>,
    state: FetchStateView,
    reply: FetchReplyView,
) -> FetchStepView {
    match reply {
        FetchReplyView::TransportFailed(e) => FetchStepView::Done(Err(FlexErrorView::Transport(e))),
        FetchReplyView::Body { body, envelope } => match state {
            FetchStateView::AwaitingReference => match send_outcome(envelope) {
                Err(e) => FetchStepView::Done(Err(e)),
                Ok(code) => if cfg.max_retries == 0 {
                    FetchStepView::Done(Err(FlexErrorView::NotReady(0)))
                } else {
                    poll_step(cfg, token, code, 1)
                },
            },
            FetchStateView::AwaitingStatement { reference_code, attempts } => match get_outcome(body, envelope) {
                Err(e) => FetchStepView::Done(Err(e)),
                Ok(GetOutcomeView::Statement(xml)) => FetchStepView::Done(
                    Ok(FlexStatementView { query_id, reference_code, raw_xml: xml }),
                ),
                Ok(GetOutcomeView::InProgress) => if attempts < cfg.max_retries {
                    poll_step(cfg, token, reference_code, (attempts + 1) as u32)
                } else {
                    FetchStepView::Done(Err(FlexErrorView::NotReady(cfg.max_retries)))
                },
            },
        },
    }
}

/// The step that a fetch reaches once `replies` have come in, one reply to each
/// request it named, starting from [`first_step`]. Replies after the fetch is
/// over change nothing.
pub open spec fn run_fetch(
    cfg: FetchConfig,
    token: Seq<char>,
    query_id: Seq<char>,
    replies: Seq<FetchReplyView>,
) -> FetchStepView
    decreases replies.len(),
{
    if replies.len() == 0 {
        first_step(cfg, token, query_id)
    } else {
        match run_fetch(cfg, token, query_id, replies.drop_last()) {
            FetchStepView::Request { wait_first, request, next } => next_step(cfg, token, query_id, next, replies.last()),
            done => done,
        }
    }
}

/// Where a fetch stands after `n` replies: still waiting for the reference
/// code only before any reply, then polling with poll number `n` (never more
/// than `max_retries`); each request goes to the SendRequest or the
/// GetStatement endpoint with the token and the protocol version; and a
/// fetched statement echoes the query id.
pub open spec fn fetch_invariant(cfg: FetchConfig, token: Seq<char>, query_id: Seq<char>, n: int, step: FetchStepView) -> bool {
    match step {
        FetchStepView::Request { wait_first, request, next } => {
            &&& request.params.len() == 3
            &&& request.params[0] == ("t"@, token)
            &&& request.params[2] == ("v"@, cfg.version)
            &&& match next {
                FetchStateView::AwaitingReference => n == 0 && !wait_first && request == flex_request(
                    cfg.send_url,
                    token,
                    query_id,
                    cfg.version,
                ),
                FetchStateView::AwaitingStatement { reference_code, attempts } => {
                    &&& attempts == n
                    &&& 1 <= n <= cfg.max_retries
                    &&& wait_first
                    &&& request == flex_request(cfg.get_url, token, reference_code, cfg.version)
                },
            }
        },
        FetchStepView::Done(Ok(st)) => st.query_id == query_id,
        FetchStepView::Done(Err(_)) => true,
    }
}

/// A fetch keeps [`fetch_invariant`] whatever the replies.
pub proof fn lemma_fetch_invariant(cfg: FetchConfig, token: Seq<char>, query_id: Seq<char>, replies: Seq<FetchReplyView>)
    ensures
        fetch_invariant(cfg, token, query_id, replies.len() as int, run_fetch(cfg, token, query_id, replies)),
    decreases replies.len(),
{
    if replies.len() > 0 {
        lemma_fetch_invariant(cfg, token, query_id, replies.drop_last());
    }
}

/// A fetch gives up: once more than `max_retries` replies have come in (one
/// SendRequest reply and `max_retries` polls), it is over.
pub proof fn lemma_fetch_gives_up(cfg: FetchConfig, token: Seq<char>, query_id: Seq<char>, replies: Seq<FetchReplyView>)
    requires
        replies.len() > cfg.max_retries,
    ensures
        run_fetch(cfg, token, query_id, replies) is Done,
{
    lemma_fetch_invariant(cfg, token, query_id, replies);
}

/// A poll reply that still says "in progress" after `max_retries` polls ends the
/// fetch with `NotReady(max_retries)`.
pub proof fn lemma_not_ready_after_max_polls(
    cfg: FetchConfig,
    token: Seq<char>,
    query_id: Seq<char>,
    code: Seq<char>,
    body: Seq<char>,
    envelope: Result<ControlResponseView, Seq<char>>,
)
    requires
        get_outcome(body, envelope) == Ok::<GetOutcomeView, FlexErrorView>(GetOutcomeView::InProgress),
    ensures
        next_step(
            cfg,
            token,
            query_id,
            FetchStateView::AwaitingStatement { reference_code: code, attempts: cfg.max_retries },
            FetchReplyView::Body { body, envelope },
        ) == FetchStepView::Done(Err(FlexErrorView::NotReady(cfg.max_retries))),
{
}

/// `reply` answers SendRequest with reference code `code`.
pub open spec fn names_reference(reply: FetchReplyView, code: Seq<char>) -> bool {
    match reply {
        FetchReplyView::Body { envelope, .. } => send_outcome(envelope) == Ok::<Seq<char>, FlexErrorView>(code),
        FetchReplyView::TransportFailed(_) => false,
    }
}

/// `reply` answers a GetStatement poll with "statement still being generated".
pub open spec fn still_generating(reply: FetchReplyView) -> bool {
    match reply {
        FetchReplyView::Body { body, envelope } => get_outcome(body, envelope) == Ok::<GetOutcomeView, FlexErrorView>(
            GetOutcomeView::InProgress,
        ),
        FetchReplyView::TransportFailed(_) => false,
    }
}

/// `reply` answers a GetStatement poll with the statement, whose XML is `xml`,
/// the body of the reply.
pub open spec fn holds_statement(reply: FetchReplyView, xml: Seq<char>) -> bool {
    match reply {
        FetchReplyView::Body { body, envelope } => body == xml && get_outcome(body, envelope)
            == Ok::<GetOutcomeView, FlexErrorView>(GetOutcomeView::Statement(xml)),
        FetchReplyView::TransportFailed(_) => false,
    }
}

/// The replies of a fetch that is still polling: SendRequest named `code`, and
/// every poll so far said "still being generated".
pub open spec fn polling_replies(replies: Seq<FetchReplyView>, code: Seq<char>) -> bool {
    &&& replies.len() >= 1
    &&& names_reference(replies[0], code)
    &&& forall|i: int| 1 <= i < replies.len() ==> still_generating(#[trigger] replies[i])
}

/// While the polls allow it, a fetch whose replies are [`polling_replies`] for
/// `code` makes its next poll, with that code, as poll number `replies.len()`.
proof fn lemma_polling(cfg: FetchConfig, token: Seq<char>, query_id: Seq<char>, replies: Seq<FetchReplyView>, code: Seq<char>)
    requires
        polling_replies(replies, code),
        replies.len() <= cfg.max_retries,
    ensures
        run_fetch(cfg, token, query_id, replies) == poll_step(cfg, token, code, replies.len() as u32),
    decreases replies.len(),
{
    let prefix = replies.drop_last();
    if replies.len() == 1 {
        assert(prefix.len() == 0);
        assert(run_fetch(cfg, token, query_id, prefix) == first_step(cfg, token, query_id));
    } else {
        assert(prefix[0] == replies[0]);
        assert forall|i: int| 1 <= i < prefix.len() implies still_generating(#[trigger] prefix[i]) by {
            assert(prefix[i] == replies[i]);
        }
        lemma_polling(cfg, token, query_id, prefix, code);
        assert(still_generating(replies[replies.len() - 1]));
        assert(((prefix.len() as u32) + 1) as u32 == replies.len() as u32);
    }
}

/// A fetch that, after `replies`, still has a request to make has been polling:
/// the replies are [`polling_replies`] for some reference code, at most
/// `max_retries` of them, and the request is the next poll with that code.
proof fn lemma_still_running(cfg: FetchConfig, token: Seq<char>, query_id: Seq<char>, replies: Seq<FetchReplyView>)
    requires
        replies.len() >= 1,
        run_fetch(cfg, token, query_id, replies) is Request,
    ensures
        replies.len() <= cfg.max_retries,
        exists|code: Seq<char>|
            polling_replies(replies, code) && run_fetch(cfg, token, query_id, replies) == poll_step(
                cfg,
                token,
                code,
                replies.len() as u32,
            ),
    decreases replies.len(),
{
    let prefix = replies.drop_last();
    if replies.len() == 1 {
        if let FetchReplyView::Body { body, envelope } = replies[0] {
            let code = send_outcome(envelope)->Ok_0;
            assert(polling_replies(replies, code));
        }
    } else {
        lemma_still_running(cfg, token, query_id, prefix);
        let code = choose|code: Seq<char>|
            polling_replies(prefix, code) && run_fetch(cfg, token, query_id, prefix) == poll_step(
                cfg,
                token,
                code,
                prefix.len() as u32,
            );
        assert(prefix[0] == replies[0]);
        assert forall|i: int| 1 <= i < replies.len() implies still_generating(#[trigger] replies[i]) by {
            if i < prefix.len() {
                assert(prefix[i] == replies[i]);
                assert(still_generating(prefix[i]));
            }
        }
        assert(polling_replies(replies, code));
    }
}

/// The requests of a fetch that has been polling with `code` up to `n` replies:
/// first SendRequest with the query id, then, after the j-th reply, GetStatement
/// poll number j with `code`.
pub open spec fn requests_made(cfg: FetchConfig, token: Seq<char>, query_id: Seq<char>, replies: Seq<FetchReplyView>, code: Seq<char>, n: int) -> bool {
    &&& run_fetch(cfg, token, query_id, replies.take(0)) == first_step(cfg, token, query_id)
    &&& forall|j: int| 1 <= j < n ==> #[trigger] run_fetch(cfg, token, query_id, replies.take(j)) == poll_step(
        cfg,
        token,
        code,
        j as u32,
    )
}

proof fn lemma_requests_made(cfg: FetchConfig, token: Seq<char>, query_id: Seq<char>, replies: Seq<FetchReplyView>, code: Seq<char>, n: int)
    requires
        1 <= n <= replies.len(),
        n <= cfg.max_retries + 1,
        names_reference(replies[0], code),
        forall|i: int| 1 <= i < n - 1 ==> still_generating(#[trigger] replies[i]),
    ensures
        requests_made(cfg, token, query_id, replies, code, n),
{
    assert(replies.take(0).len() == 0);
    assert forall|j: int| 1 <= j < n implies #[trigger] run_fetch(cfg, token, query_id, replies.take(j)) == poll_step(
        cfg,
        token,
        code,
        j as u32,
    ) by {
        let p = replies.take(j);
        assert(p[0] == replies[0]);
        assert forall|i: int| 1 <= i < p.len() implies still_generating(#[trigger] p[i]) by {
            assert(p[i] == replies[i]);
        }
        lemma_polling(cfg, token, query_id, p, code);
    }
}

/// A successful fetch: if the fetch ends with statement `st` on the last of
/// `replies` (the replies before it left a request to make), then it made one
/// SendRequest call with the query id, whose reply named `st.reference_code`,
/// and then k GetStatement polls with that code, 1 <= k <= `max_retries`, each
/// after the retry delay; every poll but the last said "still being generated",
/// and the last returned the statement's XML. The statement carries the query id.
pub proof fn lemma_fetch_succeeds(
    cfg: FetchConfig,
    token: Seq<char>,
    query_id: Seq<char>,
    replies: Seq<FetchReplyView>,
    st: FlexStatementView,
)
    requires
        replies.len() >= 1,
        run_fetch(cfg, token, query_id, replies.drop_last()) is Request,
        run_fetch(cfg, token, query_id, replies) == FetchStepView::Done(Ok::<FlexStatementView, FlexErrorView>(st)),
    ensures
        2 <= replies.len() <= cfg.max_retries + 1,
        st.query_id == query_id,
        names_reference(replies[0], st.reference_code),
        forall|i: int| 1 <= i < replies.len() - 1 ==> still_generating(#[trigger] replies[i]),
        holds_statement(replies.last(), st.raw_xml),
        requests_made(cfg, token, query_id, replies, st.reference_code, replies.len() as int),
{
    let prefix = replies.drop_last();
    if replies.len() == 1 {
        assert(prefix.len() == 0);
    } else {
        lemma_still_running(cfg, token, query_id, prefix);
        let code = choose|code: Seq<char>|
            polling_replies(prefix, code) && run_fetch(cfg, token, query_id, prefix) == poll_step(
                cfg,
                token,
                code,
                prefix.len() as u32,
            );
        assert(prefix[0] == replies[0]);
        assert forall|i: int| 1 <= i < replies.len() - 1 implies still_generating(#[trigger] replies[i]) by {
            assert(prefix[i] == replies[i]);
            assert(still_generating(prefix[i]));
        }
        lemma_requests_made(cfg, token, query_id, replies, code, replies.len() as int);
    }
}

/// A fetch delivers: if SendRequest named `code`, then polls said "still being
/// generated", and poll k (1 <= k <= `max_retries`) returned statement `xml`,
/// the fetch ends on that reply with the statement of the query id, `code` and
/// `xml`, and not before.
pub proof fn lemma_fetch_delivers(
    cfg: FetchConfig,
    token: Seq<char>,
    query_id: Seq<char>,
    replies: Seq<FetchReplyView>,
    code: Seq<char>,
    xml: Seq<char>,
)
    requires
        2 <= replies.len() <= cfg.max_retries + 1,
        names_reference(replies[0], code),
        forall|i: int| 1 <= i < replies.len() - 1 ==> still_generating(#[trigger] replies[i]),
        holds_statement(replies.last(), xml),
    ensures
        run_fetch(cfg, token, query_id, replies.drop_last()) is Request,
        run_fetch(cfg, token, query_id, replies) == FetchStepView::Done(
            Ok::<FlexStatementView, FlexErrorView>(FlexStatementView { query_id, reference_code: code, raw_xml: xml }),
        ),
{
    let prefix = replies.drop_last();
    assert(prefix[0] == replies[0]);
    assert forall|i: int| 1 <= i < prefix.len() implies still_generating(#[trigger] prefix[i]) by {
        assert(prefix[i] == replies[i]);
    }
    lemma_polling(cfg, token, query_id, prefix, code);
}

/// A fetch that is never ready gives up: if SendRequest named `code` and all
/// `max_retries` polls said "still being generated", the fetch ends with
/// `NotReady(max_retries)` on the last of those 1 + `max_retries` replies, having
/// made exactly those calls: SendRequest with the query id, then the polls with
/// `code`, each after the retry delay. With no polls allowed it ends on the
/// SendRequest reply.
pub proof fn lemma_fetch_not_ready(
    cfg: FetchConfig,
    token: Seq<char>,
    query_id: Seq<char>,
    replies: Seq<FetchReplyView>,
    code: Seq<char>,
)
    requires
        replies.len() == cfg.max_retries + 1,
        names_reference(replies[0], code),
        forall|i: int| 1 <= i < replies.len() ==> still_generating(#[trigger] replies[i]),
    ensures
        requests_made(cfg, token, query_id, replies, code, replies.len() as int),
        run_fetch(cfg, token, query_id, replies.drop_last()) is Request,
        run_fetch(cfg, token, query_id, replies) == FetchStepView::Done(
            Err::<FlexStatementView, FlexErrorView>(FlexErrorView::NotReady(cfg.max_retries)),
        ),
{
    let prefix = replies.drop_last();
    lemma_requests_made(cfg, token, query_id, replies, code, replies.len() as int);
    if cfg.max_retries == 0 {
        assert(prefix.len() == 0);
    } else {
        assert(prefix[0] == replies[0]);
        assert forall|i: int| 1 <= i < prefix.len() implies still_generating(#[trigger] prefix[i]) by {
            assert(prefix[i] == replies[i]);
        }
        lemma_polling(cfg, token, query_id, prefix, code);
        assert(still_generating(replies[replies.len() - 1]));
    }
}

fn protocol_request(url: &String, token: &str, q: &str, version: &String) -> (r: HttpRequest)
    ensures
        r@ == flex_request(url@, token@, q@, version@),
{
    let mut params: Vec<(String, String)> = Vec::new();
    params.push((String::from_str("t"), String::from_str(token)));
    params.push((String::from_str("q"), String::from_str(q)));
    params.push((String::from_str("v"), version.clone()));
    let r = HttpRequest { url: url.clone(), params };
    assert(r@.params =~= seq![("t"@, token@), ("q"@, q@), ("v"@, version@)]);
    r
}

impl<T> FlexClient<T> {
    /// Begin fetching a statement: the SendRequest call to make.
    pub fn start_fetch(&self, token: &str, query_id: &str) -> (step: FetchStep)
        ensures
            step@ == first_step(self.config(), token@, query_id@),
            self.config().version == API_VERSION@,
    {
        proof {
            use_type_invariant(self);
        }
        let request = protocol_request(&self.send_url, token, query_id, &self.version);
        FetchStep::Request { wait_first: false, request, next: FetchState::AwaitingReference }
    }

    /// Decide what follows `reply`, the reply to the request made in `state`.
    pub fn on_reply(&self, token: &str, query_id: &str, state: FetchState, reply: FetchReply) -> (step: FetchStep)
        ensures
            step@ == next_step(self.config(), token@, query_id@, state@, reply@),
            self.config().version == API_VERSION@,
    {
        proof {
            use_type_invariant(self);
        }
        let (body, envelope) = match reply {
            FetchReply::TransportFailed(e) => {
                return FetchStep::Done(Err(FlexError::Transport(e.0)));
            },
            FetchReply::Body { body, envelope } => (body, envelope),
        };
        match state {
            FetchState::AwaitingReference => match send_response_outcome(envelope) {
                Err(e) => FetchStep::Done(Err(e)),
                Ok(code) => {
                    if self.max_retries == 0 {
                        FetchStep::Done(Err(FlexError::NotReady(0)))
                    } else {
                        let request = protocol_request(&self.get_url, token, code.as_str(), &self.version);
                        FetchStep::Request {
                            wait_first: true,
                            request,
                            next: FetchState::AwaitingStatement { reference_code: code, attempts: 1 },
                        }
                    }
                },
            },
            FetchState::AwaitingStatement { reference_code, attempts } => match get_response_outcome(
                body.as_str(),
                envelope,
            ) {
                Err(e) => FetchStep::Done(Err(e)),
                Ok(GetOutcome::Statement(raw_xml)) => FetchStep::Done(
                    Ok(FlexStatement { query_id: String::from_str(query_id), reference_code, raw_xml }),
                ),
                Ok(GetOutcome::InProgress) => {
                    if attempts < self.max_retries {
                        let request = protocol_request(&self.get_url, token, reference_code.as_str(), &self.version);
                        FetchStep::Request {
                            wait_first: true,
                            request,
                            next: FetchState::AwaitingStatement { reference_code, attempts: attempts + 1 },
                        }
                    } else {
                        FetchStep::Done(Err(FlexError::NotReady(self.max_retries)))
                    }
                },
            },
        }
    }
}

} // verus!
