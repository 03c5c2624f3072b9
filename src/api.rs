use vstd::prelude::*;

use crate::text::{decimal, push_decimal};

verus! {

/// What a search asks of the service.
#[derive(Debug, Clone)]
pub struct SearchRequest {
    pub query: String,
    /// The record types to search among.
    pub fact_type: Vec<String>,
    pub agent_id: String,
    pub thinking_budget: i32,
    pub max_tokens: i32,
    /// Whether the service reports timing and activation figures.
    pub trace: bool,
}

/// One memory record returned by the service.
#[derive(Debug, Clone)]
pub struct Fact {
    pub id: Option<String>,
    pub text: String,
    /// `world`, `agent`, `opinion`, or another tag.
    pub fact_type: Option<String>,
    /// The activation score, written with two decimals.
    pub activation: Option<String>,
    pub context: Option<String>,
    pub event_date: Option<String>,
}

/// Timing and activation figures of a search.
#[derive(Debug, Clone)]
pub struct TraceInfo {
    /// The total time in milliseconds, written with two decimals.
    pub total_time: Option<String>,
    pub activation_count: Option<i32>,
}

/// The records found by a search, most relevant first.
#[derive(Debug, Clone)]
pub struct SearchResponse {
    pub results: Vec<Fact>,
    pub trace: Option<TraceInfo>,
}

/// What a think call asks of the service.
#[derive(Debug, Clone)]
pub struct ThinkRequest {
    pub query: String,
    pub agent_id: String,
    pub thinking_budget: i32,
}

/// The answer of a think call.
#[derive(Debug, Clone)]
pub struct ThinkResponse {
    pub text: String,
    /// The records the answer was conditioned on.
    pub based_on: Vec<Fact>,
    /// Opinions the agent formed while answering.
    pub new_opinions: Vec<String>,
}

/// One unit of memory to store.
#[derive(Debug, Clone)]
pub struct MemoryItem {
    pub content: String,
    pub context: Option<String>,
}

/// Memories stored in one call, grouped under an optional document id.
#[derive(Debug, Clone)]
pub struct BatchMemoryRequest {
    pub agent_id: String,
    pub items: Vec<MemoryItem>,
    pub document_id: Option<String>,
}

/// The outcome of a store call; `job_id` is set when the work was queued.
#[derive(Debug, Clone)]
pub struct BatchMemoryResponse {
    pub success: bool,
    pub stored_count: Option<i32>,
    pub error: Option<String>,
    pub job_id: Option<String>,
}

/// The service's answer to an agent listing: the agents, or an error.
#[derive(Debug, Clone)]
pub enum AgentsResponse {
    Success { agents: Vec<String> },
    Error { error: String },
}

/// A named identity on whose behalf memories are kept.
#[derive(Debug, Clone)]
pub struct Agent {
    pub agent_id: String,
}

/// Why a call to the service failed.
#[derive(Debug, Clone, Copy, PartialEq, Eq, Structural)]
pub enum ApiErrorKind {
    /// No response came: the connection failed or timed out.
    Transport,
    /// The service answered with a status outside 200..=299.
    Status,
    /// A successful answer did not have the expected shape.
    Parse,
    /// The service reported a failure in a well-formed answer.
    Service,
}

/// A failed call to the service, with what was sent and what came back.
#[derive(Debug, Clone)]
pub struct ApiError {
    pub url: String,
    pub request_body: String,
    pub response_status: Option<u16>,
    pub response_body: Option<String>,
    pub kind: ApiErrorKind,
    /// A human-readable cause.
    pub message: String,
}

/// How a call reaches the service.
#[derive(Debug, Clone, Copy, PartialEq, Eq, Structural)]
pub enum HttpMethod {
    Get,
    Post,
}

/// The calls the service offers.
#[derive(Debug, Clone, Copy, PartialEq, Eq, Structural)]
pub enum Operation {
    Search,
    Think,
    /// Store a batch; with `background` the service queues the work.
    Store { background: bool },
    ListAgents,
}

/// The timeout of the HTTP client, for calls that set none of their own.
pub const CLIENT_TIMEOUT_SECS: u64 = 60;

pub open spec fn op_path(op: Operation) -> Seq<char> {
    match op {
        Operation::Search => "/api/search"@,
        Operation::Think => "/api/think"@,
        Operation::Store { background } => if background {
            "/api/memories/batch_async"@
        } else {
            "/api/memories/batch"@
        },
        Operation::ListAgents => "/api/agents"@,
    }
}

pub open spec fn op_timeout_secs(op: Operation) -> u64 {
    match op {
        Operation::ListAgents => 30,
        _ => 120,
    }
}

impl Operation {
    /// The path of the call under the service's base URL.
    pub fn path(&self) -> (r: &'static str)
        ensures
            r@ == op_path(*self),
    {
        match self {
            Operation::Search => "/api/search",
            Operation::Think => "/api/think",
            Operation::Store { background } => if *background {
                "/api/memories/batch_async"
            } else {
                "/api/memories/batch"
            },
            Operation::ListAgents => "/api/agents",
        }
    }

    /// The full URL of the call.
    pub fn url(&self, base_url: &str) -> (r: String)
        ensures
            r@ == base_url@ + op_path(*self),
    {
        let mut s = String::from_str(base_url);
        s.append(self.path());
        s
    }

    /// The HTTP method of the call: only the agent listing reads.
    pub fn method(&self) -> (r: HttpMethod)
        ensures
            r == (if *self == Operation::ListAgents {
                HttpMethod::Get
            } else {
                HttpMethod::Post
            }),
    {
        match self {
            Operation::ListAgents => HttpMethod::Get,
            _ => HttpMethod::Post,
        }
    }

    /// How long the call may take before it fails: longer for the calls that
    /// make the service reason or store.
    pub fn timeout_secs(&self) -> (r: u64)
        ensures
            r == op_timeout_secs(*self),
            0 < r <= 120,
    {
        match self {
            Operation::ListAgents => 30,
            _ => 120,
        }
    }
}

pub open spec fn is_success_status(status: u16) -> bool {
    200 <= status <= 299
}

pub open spec fn status_message(status: u16, body: Seq<char>) -> Seq<char> {
    "API returned error status "@ + decimal(status as nat) + ": "@ + body
}

pub open spec fn parse_message(text: Seq<char>, cause: Seq<char>) -> Seq<char> {
    "Failed to parse API response. Response was: "@ + text + " ("@ + cause + ")"@
}

pub open spec fn agents_error_message(error: Seq<char>) -> Seq<char> {
    "Failed to list agents: "@ + error
}

pub open spec fn store_error_message(error: Option<String>) -> Seq<char> {
    "Failed to store memories: "@ + match error {
        Some(e) => e@,
        None => "the service reported a failure"@,
    }
}

/// The error carries the call it belongs to.
pub open spec fn error_of_call(e: ApiError, url: Seq<char>, request_body: Seq<char>) -> bool {
    e.url@ == url && e.request_body@ == request_body
}

/// Whether an answer with this status is a success.
pub fn status_is_success(status: u16) -> (r: bool)
    ensures
        r == is_success_status(status),
{
    200 <= status && status <= 299
}

/// The body of an answer with status `status`, or the error that such a status
/// means, which keeps the body exactly as the service sent it.
pub fn check_status(url: String, request_body: String, status: u16, body: String) -> (r: Result<
    String,
    ApiError,
>)
    ensures
        r is Ok <==> is_success_status(status),
        match r {
            Ok(b) => b@ == body@,
            Err(e) => {
                &&& error_of_call(e, url@, request_body@)
                &&& e.kind == ApiErrorKind::Status
                &&& e.response_status == Some(status)
                &&& e.response_body is Some
                &&& e.response_body->0@ == body@
                &&& e.message@ == status_message(status, body@)
            },
        },
{
    if status_is_success(status) {
        Ok(body)
    } else {
        let mut message = String::from_str("API returned error status ");
        push_decimal(&mut message, status as u64);
        message.append(": ");
        message.append(body.as_str());
        Err(
            ApiError {
                url,
                request_body,
                response_status: Some(status),
                response_body: Some(body),
                kind: ApiErrorKind::Status,
                message,
            },
        )
    }
}

/// The error of a call that got no answer, with the transport's `cause`.
pub fn transport_failure(url: String, request_body: String, cause: String) -> (e: ApiError)
    ensures
        error_of_call(e, url@, request_body@),
        e.kind == ApiErrorKind::Transport,
        e.response_status is None,
        e.response_body is None,
        e.message@ == cause@,
{
    ApiError {
        url,
        request_body,
        response_status: None,
        response_body: None,
        kind: ApiErrorKind::Transport,
        message: cause,
    }
}

/// The error of a successful answer `text` that did not parse, for `cause`.
pub fn parse_failure(url: String, request_body: String, status: u16, text: String, cause: String) -> (e:
    ApiError)
    ensures
        error_of_call(e, url@, request_body@),
        e.kind == ApiErrorKind::Parse,
        e.response_status == Some(status),
        e.response_body is Some,
        e.response_body->0@ == text@,
        e.message@ == parse_message(text@, cause@),
{
    let mut message = String::from_str("Failed to parse API response. Response was: ");
    message.append(text.as_str());
    message.append(" (");
    message.append(cause.as_str());
    message.append(")");
    ApiError {
        url,
        request_body,
        response_status: Some(status),
        response_body: Some(text),
        kind: ApiErrorKind::Parse,
        message,
    }
}

/// `agents` holds the ids `ids`, in order.
pub open spec fn agents_match(agents: Seq<Agent>, ids: Seq<String>) -> bool {
    &&& agents.len() == ids.len()
    &&& forall|i: int| 0 <= i < ids.len() ==> #[trigger] agents[i].agent_id@ == ids[i]@
}

/// An agent record for each id, in order.
pub fn agents_of(ids: &Vec<String>) -> (r: Vec<Agent>)
    ensures
        agents_match(r@, ids@),
{
    let mut out: Vec<Agent> = Vec::new();
    let mut i: usize = 0;
    while i < ids.len()
        invariant
            i <= ids@.len(),
            out@.len() == i,
            forall|j: int| 0 <= j < i ==> #[trigger] out@[j].agent_id@ == ids@[j]@,
        decreases ids@.len() - i,
    {
        let id = ids[i].clone();
        out.push(Agent { agent_id: id });
        i = i + 1;
    }
    out
}

/// The agents of a listing, in the order the service gave them, or the error
/// the service reported.
pub fn agents_from_response(url: String, response: AgentsResponse) -> (r: Result<Vec<Agent>, ApiError>)
    ensures
        match response {
            AgentsResponse::Success { agents } => match r {
                Ok(v) => agents_match(v@, agents@),
                Err(_) => false,
            },
            AgentsResponse::Error { error } => match r {
                Ok(_) => false,
                Err(e) => {
                    &&& error_of_call(e, url@, Seq::empty())
                    &&& e.kind == ApiErrorKind::Service
                    &&& e.response_status is None
                    &&& e.response_body is None
                    &&& e.message@ == agents_error_message(error@)
                },
            },
        },
{
    match response {
        AgentsResponse::Success { agents } => Ok(agents_of(&agents)),
        AgentsResponse::Error { error } => {
            let mut message = String::from_str("Failed to list agents: ");
            message.append(error.as_str());
            Err(
                ApiError {
                    url,
                    request_body: String::new(),
                    response_status: None,
                    response_body: None,
                    kind: ApiErrorKind::Service,
                    message,
                },
            )
        },
    }
}

/// The answer of a store call, or the failure it reports.
pub fn check_store_response(url: String, request_body: String, response: BatchMemoryResponse) -> (r:
    Result<BatchMemoryResponse, ApiError>)
    ensures
        r is Ok <==> response.success,
        match r {
            Ok(v) => v == response,
            Err(e) => {
                &&& error_of_call(e, url@, request_body@)
                &&& e.kind == ApiErrorKind::Service
                &&& e.response_status is None
                &&& e.response_body is None
                &&& e.message@ == store_error_message(response.error)
            },
        },
{
    if response.success {
        Ok(response)
    } else {
        let mut message = String::from_str("Failed to store memories: ");
        match &response.error {
            Some(e) => message.append(e.as_str()),
            None => message.append("the service reported a failure"),
        }
        Err(
            ApiError {
                url,
                request_body,
                response_status: None,
                response_body: None,
                kind: ApiErrorKind::Service,
                message,
            },
        )
    }
}

} // verus!
