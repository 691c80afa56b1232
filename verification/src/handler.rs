//! The request contract: `POST /<address>` wakes the machine with that
//! address, anything else is a bad request.
//!
//! A request is handled in two steps with the sending in between. `receive`
//! decides from method and path whether and whom to wake; `completed` writes
//! the answer once the dispatch is over. `handle` does both, and the dispatch
//! too, for a caller who can send and wait in a function call.

use crate::dispatch::{dispatch, RetryPolicy};
use crate::mac::{canonical_text, is_mac_text, text_octets, MacAddr};
use crate::transport::{wol_datagram, Datagram};
use vstd::prelude::*;
use vstd::string::*;

verus! {

/// Status of the answer to a request that was acted on.
pub const STATUS_OK: u16 = 200;

/// Status of the answer to a request that was turned down.
pub const STATUS_BAD_REQUEST: u16 = 400;

/// Attempts that a wake request is given at most.
pub const WAKE_MAX_ATTEMPTS: usize = 1000;

/// Successful sends after which a wake request stops early.
pub const WAKE_MIN_SUCCESSES: usize = 100;

/// Pause before each attempt of a wake request, in milliseconds.
pub const WAKE_DELAY_MILLIS: u64 = 5;

/// An answer: status, content type if one is declared, and a body of plain
/// text.
#[derive(Debug, Clone, PartialEq, Eq)]
pub struct Response {
    pub status: u16,
    pub content_type: Option<String>,
    pub body: String,
}

/// An answer as the contracts see it.
pub struct ResponseView {
    pub status: u16,
    pub content_type: Option<Seq<char>>,
    pub body: Seq<char>,
}

impl View for Response {
    type V = ResponseView;

    open spec fn view(&self) -> ResponseView {
        ResponseView {
            status: self.status,
            content_type: match self.content_type {
                Some(text) => Some(text@),
                None => None,
            },
            body: self.body@,
        }
    }
}

/// What to do about a request.
#[derive(Debug, Clone, PartialEq, Eq)]
pub enum Decision {
    /// Send magic packets for `target` under `policy`, then answer with
    /// `completed`.
    Wake { target: MacAddr, policy: RetryPolicy },
    /// Send nothing and answer with `response`.
    Reject { response: Response },
}

/// The policy under which every wake request is dispatched.
pub open spec fn wake_policy_value() -> RetryPolicy {
    RetryPolicy { max_attempts: 1000, min_successes: 100, delay_millis: Some(5u64) }
}

/// The text in which a request names its target: the path without its first
/// character, the leading slash.
pub open spec fn candidate(path: Seq<char>) -> Seq<char> {
    if path.len() > 0 {
        path.skip(1)
    } else {
        path
    }
}

/// Whether a request with this method and path is acted on.
pub open spec fn is_wake_request(method: Seq<char>, path: Seq<char>) -> bool {
    method == "POST"@ && is_mac_text(candidate(path))
}

/// The answer to a request that is not acted on.
pub open spec fn bad_request_view() -> ResponseView {
    ResponseView { status: 400, content_type: None, body: "Bad Request"@ }
}

/// The answer to a wake request for the address with these octets.
pub open spec fn completed_view(octets: Seq<u8>) -> ResponseView {
    ResponseView {
        status: 200,
        content_type: Some("text/plain"@),
        body: "Send magic packet to "@ + canonical_text(octets),
    }
}

/// The answer that a request with this method and path gets.
pub open spec fn response_to(method: Seq<char>, path: Seq<char>) -> ResponseView {
    if is_wake_request(method, path) {
        completed_view(text_octets(candidate(path)))
    } else {
        bad_request_view()
    }
}

/// The policy under which every wake request is dispatched.
pub fn wake_policy() -> (policy: RetryPolicy)
    ensures
        policy == wake_policy_value(),
{
    RetryPolicy {
        max_attempts: WAKE_MAX_ATTEMPTS,
        min_successes: WAKE_MIN_SUCCESSES,
        delay_millis: Some(WAKE_DELAY_MILLIS),
    }
}

/// Whether `method` is the method that triggers a wake.
pub fn is_trigger_method(method: &str) -> (yes: bool)
    ensures
        yes == (method@ == "POST"@),
{
    proof {
        reveal_strlit("POST");
    }
    let yes = method.unicode_len() == 4 && method.get_char(0) == 'P' && method.get_char(1) == 'O'
        && method.get_char(2) == 'S' && method.get_char(3) == 'T';
    assert(yes ==> method@ =~= "POST"@);
    yes
}

/// The answer to a request that is not acted on.
pub fn bad_request() -> (response: Response)
    ensures
        response@ == bad_request_view(),
{
    Response {
        status: STATUS_BAD_REQUEST,
        content_type: None,
        body: String::from_str("Bad Request"),
    }
}

/// Decides what to do about a request with this method and path.
///
/// The request is acted on exactly when the method is `POST` and the path,
/// without its first character, is the text of an address. Any other request
/// is turned down, and nothing is to be sent for it.
pub fn receive(method: &str, path: &str) -> (decision: Decision)
    ensures
        decision is Wake <==> is_wake_request(method@, path@),
        decision matches Decision::Wake { target, policy } ==> target@ == text_octets(
            candidate(path@),
        ) && policy == wake_policy_value(),
        decision matches Decision::Reject { response } ==> response@ == bad_request_view(),
{
    let len = path.unicode_len();
    let text = if len > 0 {
        path.substring_char(1, len)
    } else {
        path
    };
    let parsed = MacAddr::parse(text);
    match parsed {
        Ok(target) => {
            if is_trigger_method(method) {
                Decision::Wake { target, policy: wake_policy() }
            } else {
                Decision::Reject { response: bad_request() }
            }
        },
        Err(_) => Decision::Reject { response: bad_request() },
    }
}

/// The answer to a wake request once its dispatch is over.
///
/// A broadcast is not acknowledged, so the answer is the same however many
/// sends went through, none included: it reports that packets were sent for
/// `target`, which it names in canonical form.
pub fn completed(target: MacAddr, _successes: usize) -> (response: Response)
    ensures
        response@ == completed_view(target@),
{
    let mut body = String::from_str("Send magic packet to ");
    let name = target.render();
    body.append(name.as_str());
    Response {
        status: STATUS_OK,
        content_type: Some(String::from_str("text/plain")),
        body,
    }
}

/// Handles one request from beginning to end: decides with `receive`, and
/// for a wake request dispatches the datagram for its target, from any local
/// address to every host on the local network, through `send` and `pause`,
/// then answers with `completed`.
///
/// The answer depends on method and path alone. What `send` returns, and so
/// how many sends go through, has no part in it.
pub fn handle<T, E, S, P>(method: &str, path: &str, send: S, pause: P) -> (response: Response) where
    S: Fn(&Datagram) -> Result<T, E>,
    P: Fn(u64),

    requires
        forall|datagram: &Datagram|
            is_wake_request(method@, path@) && datagram.wakes(
                text_octets(candidate(path@)),
                None,
                None,
            ) ==> call_requires(send, (datagram,)),
        is_wake_request(method@, path@) ==> call_requires(pause, (WAKE_DELAY_MILLIS,)),
    ensures
        response@ == response_to(method@, path@),
{
    match receive(method, path) {
        Decision::Wake { target, policy } => {
            let datagram = wol_datagram(target, None, None);
            let successes = dispatch(&datagram, policy, send, pause);
            completed(target, successes)
        },
        Decision::Reject { response } => response,
    }
}

} // verus!
