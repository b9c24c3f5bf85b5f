//! The per-request authorization state machine.
//!
//! The host adapter creates one `AuthEngine` per request and routes the
//! host's events to it: the request headers, the outcome of dispatching the
//! authorization call, the call's completion and the response headers. Each
//! method returns what the host must do next.

use crate::headers::{
    build_protobuf_headers_map, mapping_of, pairs_view, renamed, HeaderMapping,
};
use crate::wire::{decode_reply, encode_request, parse_reply, request_bytes};
use vstd::utf8::encode_utf8;
use vstd::prelude::*;
use vstd::string::*;

verus! {

/// Where a request stands.
#[derive(Debug, PartialEq, Eq, Structural, Clone, Copy)]
pub enum Phase {
    /// No request headers seen yet.
    Idle,
    /// The authorization call was handed to the host to dispatch.
    Dispatching,
    /// The call is in flight and the request is paused.
    AwaitingAuthorization,
    /// The request was allowed, annotated and resumed.
    Resumed,
    /// The call could not be made; the request went on unannotated.
    PassedThrough,
    /// The request was answered with an error status.
    Rejected,
}

/// What the reply of the authorization service decides.
pub enum Verdict {
    Allow(Seq<char>, Seq<char>),
    Deny(Seq<char>),
    Fail,
}

/// The gRPC status of a call that succeeded.
pub open spec fn status_ok() -> u32 {
    0
}

/// The verdict of a completion with `status` that carried `body` (`None`:
/// nothing could be retrieved). A failed call, like a missing, empty or
/// malformed reply, decides nothing and fails the request.
pub open spec fn verdict(status: u32, body: Option<Seq<u8>>) -> Verdict {
    if status != status_ok() {
        Verdict::Fail
    } else {
        match body {
        None => Verdict::Fail,
        Some(b) => if b.len() == 0 {
            Verdict::Fail
        } else {
            match parse_reply(b) {
                None => Verdict::Fail,
                Some(f) => if f.0 {
                    Verdict::Allow(f.1, f.2)
                } else {
                    Verdict::Deny(f.2)
                },
            }
        },
        }
    }
}

/// An event that the host delivers to a request's state machine.
pub enum Event {
    RequestHeaders,
    DispatchResult(bool),
    Reply(Verdict),
    ResponseHeaders,
}

/// What a step makes the host do, as far as the request's fate goes.
#[derive(Debug, PartialEq, Eq, Structural, Clone, Copy)]
pub enum Effect {
    /// Dispatch the authorization call.
    Dispatch,
    /// Hold the request until the call completes.
    Pause,
    /// Let the request go on, annotated with the authorized user.
    Resume,
    /// Let the request go on unannotated (the call could not be made).
    PassThrough,
    /// Answer the request with an error status.
    Reject,
    Nothing,
}

/// One transition of the state machine.
pub open spec fn step(p: Phase, e: Event) -> (Phase, Effect) {
    match e {
        Event::RequestHeaders => if p == Phase::Idle {
            (Phase::Dispatching, Effect::Dispatch)
        } else {
            (p, Effect::Nothing)
        },
        Event::DispatchResult(ok) => if p == Phase::Dispatching {
            if ok {
                (Phase::AwaitingAuthorization, Effect::Pause)
            } else {
                (Phase::PassedThrough, Effect::PassThrough)
            }
        } else {
            (p, Effect::Nothing)
        },
        Event::Reply(v) => if p == Phase::AwaitingAuthorization {
            match v {
                Verdict::Allow(_, _) => (Phase::Resumed, Effect::Resume),
                _ => (Phase::Rejected, Effect::Reject),
            }
        } else {
            (p, Effect::Nothing)
        },
        Event::ResponseHeaders => (p, Effect::Nothing),
    }
}

pub open spec fn is_terminal(e: Effect) -> bool {
    e == Effect::Resume || e == Effect::PassThrough || e == Effect::Reject
}

/// Runs `evs` from `p`: the final phase, the number of dispatches and the
/// number of terminal effects.
pub open spec fn run(p: Phase, evs: Seq<Event>) -> (Phase, nat, nat)
    decreases evs.len(),
{
    if evs.len() == 0 {
        (p, 0, 0)
    } else {
        let (q, e) = step(p, evs[0]);
        let rest = run(q, evs.drop_first());
        (
            rest.0,
            rest.1 + if e == Effect::Dispatch {
                1nat
            } else {
                0nat
            },
            rest.2 + if is_terminal(e) {
                1nat
            } else {
                0nat
            },
        )
    }
}

pub open spec fn dispatch_budget(p: Phase) -> nat {
    if p == Phase::Idle {
        1
    } else {
        0
    }
}

pub open spec fn terminal_budget(p: Phase) -> nat {
    if p == Phase::Idle || p == Phase::Dispatching || p == Phase::AwaitingAuthorization {
        1
    } else {
        0
    }
}

proof fn lemma_run_within_budget(p: Phase, evs: Seq<Event>)
    ensures
        run(p, evs).1 <= dispatch_budget(p),
        run(p, evs).2 <= terminal_budget(p),
    decreases evs.len(),
{
    if evs.len() > 0 {
        let (q, e) = step(p, evs[0]);
        lemma_run_within_budget(q, evs.drop_first());
    }
}

/// Whatever events the host delivers, a request sees at most one dispatch of
/// the authorization call and at most one terminal effect (resumed with
/// annotation, passed through, or rejected).
pub proof fn lemma_at_most_once(evs: Seq<Event>)
    ensures
        run(Phase::Idle, evs).1 <= 1,
        run(Phase::Idle, evs).2 <= 1,
{
    lemma_run_within_budget(Phase::Idle, evs);
}

/// Unicode's White_Space property, which `char::is_whitespace` tests.
pub open spec fn is_white_space(c: char) -> bool {
    ||| '\u{9}' <= c <= '\u{d}'
    ||| c == ' '
    ||| c == '\u{85}'
    ||| c == '\u{a0}'
    ||| c == '\u{1680}'
    ||| '\u{2000}' <= c <= '\u{200a}'
    ||| c == '\u{2028}'
    ||| c == '\u{2029}'
    ||| c == '\u{202f}'
    ||| c == '\u{205f}'
    ||| c == '\u{3000}'
}

/// Empty, or white space only.
pub open spec fn is_blank(s: Seq<char>) -> bool {
    forall|i: int| 0 <= i < s.len() ==> is_white_space(#[trigger] s[i])
}

/// The value given to the user header: a single space in place of a blank one.
pub open spec fn value_or_space(s: Seq<char>) -> Seq<char> {
    if is_blank(s) {
        " "@
    } else {
        s
    }
}

pub fn is_white_space_char(c: char) -> (r: bool)
    ensures
        r == is_white_space(c),
{
    ('\u{9}' <= c && c <= '\u{d}') || c == ' ' || c == '\u{85}' || c == '\u{a0}' || c
        == '\u{1680}' || ('\u{2000}' <= c && c <= '\u{200a}') || c == '\u{2028}' || c
        == '\u{2029}' || c == '\u{202f}' || c == '\u{205f}' || c == '\u{3000}'
}

/// The target endpoint of the authorization service for a service instance.
pub open spec fn cluster_name_of(instance: Seq<char>) -> Seq<char> {
    "outbound|50051||"@ + instance + ".localhost.for.grpc.call"@
}

pub open spec fn instance_or_default(instance: Option<Seq<char>>) -> Seq<char> {
    match instance {
        Some(i) => i,
        None => "localhost"@,
    }
}

/// The value of the pseudo-header `p` in an outbound mapping, empty if absent.
pub open spec fn pseudo_value(m: Map<Seq<char>, Seq<char>>, p: Seq<char>) -> Seq<char> {
    if m.contains_key(renamed(p)) {
        m[renamed(p)]
    } else {
        Seq::empty()
    }
}

/// Bytes held by a list of entries, with a fixed overhead per entry.
pub open spec fn entries_size(es: Seq<(Seq<char>, Seq<char>)>) -> nat
    decreases es.len(),
{
    if es.len() == 0 {
        0
    } else {
        entries_size(es.drop_last()) + encode_utf8(es.last().0).len() + encode_utf8(es.last().1).len()
            + 48
    }
}

/// The estimate of the bytes held for a request, capped at `usize::MAX`.
pub open spec fn memory_estimate(cluster: Seq<char>, es: Seq<(Seq<char>, Seq<char>)>) -> nat {
    let total = encode_utf8(cluster).len() + entries_size(es);
    if total > usize::MAX {
        usize::MAX as nat
    } else {
        total
    }
}

pub open spec fn body_view(body: Option<Vec<u8>>) -> Option<Seq<u8>> {
    match body {
        Some(b) => Some(b@),
        None => None,
    }
}

/// Builds the target endpoint for `instance`, `localhost` when none is given.
pub fn build_cluster_name(instance: Option<&str>) -> (r: String)
    ensures
        r@ == cluster_name_of(
            instance_or_default(
                match instance {
                    Some(i) => Some(i@),
                    None => None,
                },
            ),
        ),
{
    let mut r = String::from_str("outbound|50051||");
    match instance {
        Some(i) => r.append(i),
        None => r.append("localhost"),
    }
    r.append(".localhost.for.grpc.call");
    r
}

/// The value for the user header: `value`, or a single space when `value` is
/// empty or white space only.
pub fn get_value_or_space(value: &str) -> (r: &str)
    ensures
        r@ == value_or_space(value@),
{
    let n = value.unicode_len();
    let mut i: usize = 0;
    while i < n
        invariant
            n == value@.len(),
            i <= n,
            forall|j: int| 0 <= j < i ==> is_white_space(#[trigger] value@[j]),
        decreases n - i,
    {
        if !is_white_space_char(value.get_char(i)) {
            return value;
        }
        i = i + 1;
    }
    " "
}

/// The authorization call that the host is to dispatch.
pub struct RpcCall {
    pub target: String,
    pub service: String,
    pub method: String,
    pub payload: Vec<u8>,
    pub timeout_secs: u64,
}

/// What the host does with the request once the dispatch was tried.
#[derive(Debug, PartialEq, Eq, Structural, Clone, Copy)]
pub enum HeadersAction {
    Continue,
    Pause,
}

/// What the host does once the authorization call completed.
pub enum ReplyAction {
    /// Add the request header `name: value` and resume the request.
    Resume { name: String, value: String },
    /// Answer the request with this status, these headers and this body.
    Respond { status: u32, headers: Vec<(String, String)>, body: String },
    /// Nothing: no call of this request was awaited.
    Ignore,
}

impl ReplyAction {
    pub open spec fn effect(&self) -> Effect {
        match self {
            ReplyAction::Resume { .. } => Effect::Resume,
            ReplyAction::Respond { .. } => Effect::Reject,
            ReplyAction::Ignore => Effect::Nothing,
        }
    }

    /// This action answers with `status`, no header and `body`.
    pub open spec fn is_error_response(&self, status: u32, body: Seq<char>) -> bool {
        match self {
            ReplyAction::Respond { status: s, headers, body: b } => s == status && headers@.len()
                == 0 && b@ == body,
            _ => false,
        }
    }
}

/// The name of the request header that carries the authorized user.
pub open spec fn user_header() -> Seq<char> {
    "x-uip-user"@
}

/// The name of the response header that carries the retained message.
pub open spec fn message_header() -> Seq<char> {
    "x-filter-response-pdk-response"@
}

/// The authorization filter of one request.
pub struct AuthEngine {
    headers_buffer: HeaderMapping,
    cluster_name: String,
    request_memory_bytes: usize,
    phase: Phase,
    retained_message: Option<String>,
}

impl AuthEngine {
    pub closed spec fn phase(&self) -> Phase {
        self.phase
    }

    pub closed spec fn cluster(&self) -> Seq<char> {
        self.cluster_name@
    }

    /// The outbound mapping built from the request headers.
    pub closed spec fn mapping(&self) -> Map<Seq<char>, Seq<char>> {
        self.headers_buffer@
    }

    pub closed spec fn mapping_entries(&self) -> Seq<(Seq<char>, Seq<char>)> {
        self.headers_buffer.entries_view()
    }

    /// The reply's message kept for the response.
    pub closed spec fn retained(&self) -> Option<Seq<char>> {
        match self.retained_message {
            Some(m) => Some(m@),
            None => None,
        }
    }

    pub closed spec fn memory_bytes(&self) -> nat {
        self.request_memory_bytes as nat
    }

    pub closed spec fn wf(&self) -> bool {
        self.headers_buffer.wf()
    }

    /// A filter for a new request, calling the service at `cluster_name`.
    pub fn new(cluster_name: &str) -> (e: AuthEngine)
        ensures
            e.wf(),
            e.phase() == Phase::Idle,
            e.cluster() == cluster_name@,
            e.mapping() == Map::<Seq<char>, Seq<char>>::empty(),
            e.retained() is None,
            e.memory_bytes() == 0,
    {
        AuthEngine {
            headers_buffer: HeaderMapping::new(),
            cluster_name: cluster_name.to_owned(),
            request_memory_bytes: 0,
            phase: Phase::Idle,
            retained_message: None,
        }
    }

    /// The estimated bytes held for the request: the endpoint's name and the
    /// outbound mapping, 48 bytes per entry on top of its key and value.
    pub fn estimate_memory_usage(&self) -> (r: usize)
        ensures
            r == memory_estimate(self.cluster(), self.mapping_entries()),
    {
        let es = self.headers_buffer.entries();
        let ghost ev = pairs_view(es@);
        let mut total: usize = self.cluster_name.as_str().as_bytes().len();
        let mut i: usize = 0;
        assert(ev.subrange(0, 0) =~= Seq::<(Seq<char>, Seq<char>)>::empty());
        while i < es.len()
            invariant
                i <= es@.len(),
                ev == pairs_view(es@),
                ev == self.mapping_entries(),
                total == memory_estimate(self.cluster(), ev.subrange(0, i as int)),
            decreases es@.len() - i,
        {
            assert(ev.subrange(0, i + 1).drop_last() =~= ev.subrange(0, i as int));
            let kl = es[i].0.as_str().as_bytes().len();
            let vl = es[i].1.as_str().as_bytes().len();
            assert(ev[i as int] == (es@[i as int].0@, es@[i as int].1@));
            total = total.saturating_add(kl);
            total = total.saturating_add(vl);
            total = total.saturating_add(48);
            i = i + 1;
        }
        assert(ev.subrange(0, es@.len() as int) =~= ev);
        total
    }

    /// The request headers are in: builds the outbound mapping and the
    /// authorization call for the host to dispatch. Only the first time.
    pub fn on_http_request_headers(&mut self, inbound: &Vec<(String, String)>) -> (r: Option<
        RpcCall,
    >)
        requires
            old(self).wf(),
        ensures
            final(self).wf(),
            (final(self).phase(), if r is Some {
                Effect::Dispatch
            } else {
                Effect::Nothing
            }) == step(old(self).phase(), Event::RequestHeaders),
            final(self).cluster() == old(self).cluster(),
            final(self).retained() == old(self).retained(),
            old(self).phase() != Phase::Idle ==> final(self).mapping() == old(self).mapping(),
            old(self).phase() == Phase::Idle ==> final(self).mapping() == mapping_of(
                pairs_view(inbound@),
            ) && final(self).memory_bytes() == memory_estimate(
                final(self).cluster(),
                final(self).mapping_entries(),
            ),
            match r {
                Some(c) => {
                    &&& c.target@ == old(self).cluster()
                    &&& c.service@ == "authengine.UIPBDIAuthZProcessor"@
                    &&& c.method@ == "processReq"@
                    &&& c.timeout_secs == 5
                    &&& c.payload@ == request_bytes(
                        pseudo_value(final(self).mapping(), "method"@),
                        pseudo_value(final(self).mapping(), "path"@),
                        pseudo_value(final(self).mapping(), "scheme"@),
                        final(self).mapping_entries(),
                    )
                },
                None => true,
            },
    {
        if self.phase != Phase::Idle {
            return None;
        }
        self.request_memory_bytes = 0;
        self.headers_buffer = build_protobuf_headers_map(inbound);
        self.request_memory_bytes = self.estimate_memory_usage();
        proof {
            reveal_strlit("x-original-req-");
            reveal_strlit("method");
            reveal_strlit("path");
            reveal_strlit("scheme");
            reveal_strlit("x-original-req-method");
            reveal_strlit("x-original-req-path");
            reveal_strlit("x-original-req-scheme");
            assert(renamed("method"@) =~= "x-original-req-method"@);
            assert(renamed("path"@) =~= "x-original-req-path"@);
            assert(renamed("scheme"@) =~= "x-original-req-scheme"@);
        }
        let method = match self.headers_buffer.get("x-original-req-method") {
            Some(v) => v.as_str(),
            None => "",
        };
        let path = match self.headers_buffer.get("x-original-req-path") {
            Some(v) => v.as_str(),
            None => "",
        };
        let scheme = match self.headers_buffer.get("x-original-req-scheme") {
            Some(v) => v.as_str(),
            None => "",
        };
        proof {
            reveal_strlit("");
        }
        let payload = encode_request(method, path, scheme, &self.headers_buffer);
        self.phase = Phase::Dispatching;
        Some(
            RpcCall {
                target: self.cluster_name.clone(),
                service: String::from_str("authengine.UIPBDIAuthZProcessor"),
                method: String::from_str("processReq"),
                payload,
                timeout_secs: 5,
            },
        )
    }

    /// The host tried to dispatch the call: pause the request if it went out,
    /// let it go on unauthorized if it did not.
    pub fn on_dispatch_result(&mut self, dispatched: bool) -> (r: HeadersAction)
        ensures
            final(self).phase() == step(old(self).phase(), Event::DispatchResult(dispatched)).0,
            r == (if step(old(self).phase(), Event::DispatchResult(dispatched)).1
                == Effect::Pause {
                HeadersAction::Pause
            } else {
                HeadersAction::Continue
            }),
            final(self).wf() == old(self).wf(),
            final(self).cluster() == old(self).cluster(),
            final(self).mapping() == old(self).mapping(),
            final(self).mapping_entries() == old(self).mapping_entries(),
            final(self).retained() == old(self).retained(),
    {
        if self.phase != Phase::Dispatching {
            return HeadersAction::Continue;
        }
        if dispatched {
            self.phase = Phase::AwaitingAuthorization;
            HeadersAction::Pause
        } else {
            self.phase = Phase::PassedThrough;
            HeadersAction::Continue
        }
    }

    /// The authorization call completed with the gRPC status `status_code`
    /// and `body` (`None` when no body could be retrieved): decides the
    /// request's fate.
    pub fn on_grpc_call_response(&mut self, status_code: u32, body: Option<Vec<u8>>) -> (r:
        ReplyAction)
        ensures
            (final(self).phase(), r.effect()) == step(
                old(self).phase(),
                Event::Reply(verdict(status_code, body_view(body))),
            ),
            final(self).wf() == old(self).wf(),
            final(self).cluster() == old(self).cluster(),
            final(self).mapping() == old(self).mapping(),
            final(self).mapping_entries() == old(self).mapping_entries(),
            old(self).phase() != Phase::AwaitingAuthorization ==> r is Ignore && final(self).retained() == old(self).retained(),
            old(self).phase() == Phase::AwaitingAuthorization ==> match verdict(status_code, body_view(body)) {
                Verdict::Fail => r.is_error_response(500, "Internal Server Error"@) && final(self).retained() == old(self).retained(),
                Verdict::Deny(m) => final(self).retained() == old(self).retained() && match r {
                    ReplyAction::Respond { status, headers, body } => status == 401 && pairs_view(
                        headers@,
                    ) == seq![("WWW-Authenticate"@, m)] && body@ == "Unauthorized"@,
                    _ => false,
                },
                Verdict::Allow(u, m) => final(self).retained() == Some(m) && match r {
                    ReplyAction::Resume { name, value } => name@ == user_header()
                        && value@ == value_or_space(u),
                    _ => false,
                },
            },
    {
        if self.phase != Phase::AwaitingAuthorization {
            return ReplyAction::Ignore;
        }
        let data = match body {
            Some(b) if status_code == 0 => b,
            _ => {
                self.phase = Phase::Rejected;
                return ReplyAction::Respond {
                    status: 500,
                    headers: Vec::new(),
                    body: String::from_str("Internal Server Error"),
                };
            },
        };
        if data.len() == 0 {
            self.phase = Phase::Rejected;
            return ReplyAction::Respond {
                status: 500,
                headers: Vec::new(),
                body: String::from_str("Internal Server Error"),
            };
        }
        let reply = match decode_reply(&data) {
            Ok(reply) => reply,
            Err(_) => {
                self.phase = Phase::Rejected;
                return ReplyAction::Respond {
                    status: 500,
                    headers: Vec::new(),
                    body: String::from_str("Internal Server Error"),
                };
            },
        };
        if !reply.allow {
            self.phase = Phase::Rejected;
            let mut headers: Vec<(String, String)> = Vec::new();
            headers.push((String::from_str("WWW-Authenticate"), reply.message));
            assert(pairs_view(headers@) =~= seq![("WWW-Authenticate"@, reply.message@)]);
            return ReplyAction::Respond {
                status: 401,
                headers,
                body: String::from_str("Unauthorized"),
            };
        }
        let value = get_value_or_space(reply.user.as_str()).to_owned();
        self.retained_message = Some(reply.message);
        self.phase = Phase::Resumed;
        ReplyAction::Resume { name: String::from_str("x-uip-user"), value }
    }

    /// The response headers are in: the header that carries the retained
    /// message, once, for a resumed request that has one.
    pub fn on_http_response_headers(&mut self) -> (r: Option<(String, String)>)
        ensures
            final(self).phase() == step(old(self).phase(), Event::ResponseHeaders).0,
            final(self).wf() == old(self).wf(),
            final(self).cluster() == old(self).cluster(),
            final(self).mapping() == old(self).mapping(),
            final(self).mapping_entries() == old(self).mapping_entries(),
            match r {
                Some(h) => old(self).phase() == Phase::Resumed && old(self).retained() == Some(
                    h.1@,
                ) && h.0@ == message_header() && final(self).retained() is None,
                None => !(old(self).phase() == Phase::Resumed && old(self).retained() is Some)
                    && final(self).retained() == old(self).retained(),
            },
    {
        if self.phase != Phase::Resumed {
            return None;
        }
        match self.retained_message.take() {
            Some(m) => Some((String::from_str("x-filter-response-pdk-response"), m)),
            None => None,
        }
    }

    /// Where the request stands.
    pub fn current_phase(&self) -> (p: Phase)
        ensures
            p == self.phase(),
    {
        self.phase
    }

    /// The estimated bytes held for the request when its headers were processed.
    pub fn request_memory_bytes(&self) -> (n: usize)
        ensures
            n == self.memory_bytes(),
    {
        self.request_memory_bytes
    }

    /// The endpoint of the authorization service.
    pub fn cluster_name(&self) -> (r: &str)
        ensures
            r@ == self.cluster(),
    {
        self.cluster_name.as_str()
    }
}

} // verus!
