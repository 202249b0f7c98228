//! Sidecar transport: the request/response framing and the link state
//! machine for the out-of-process sender.
//!
//! Requests carry strictly increasing identifiers and are framed as one
//! object per line; responses are matched back by identifier. The link
//! remembers whether initialization ever succeeded: after a failed
//! initialization every request is refused with a transport error while the
//! rest of the pipeline keeps operating.

use vstd::prelude::*;
use vstd::string::StrSliceExecFns;
use vstd::string::StringExecFns;
use crate::codec::{enc_str, sp_lit, sp_u64, sp_str, dec_digits};
use crate::wire::{cat, quote, enc_pairs};

verus! {

/// Fixed retry budget when polling for the sidecar channel.
pub const POLL_ATTEMPT_LIMIT: u64 = 50;

/// Delay between channel polls, in milliseconds.
pub const POLL_RETRY_MILLIS: u64 = 100;

/// Delay before reopening the stream after an open failure, in milliseconds.
pub const STREAM_OPEN_RETRY_MILLIS: u64 = 1000;

/// Delay before reopening the stream after end-of-stream, in milliseconds.
pub const STREAM_EOF_RETRY_MILLIS: u64 = 100;

/// Interval of the periodic drain cycle, in seconds.
pub const DRAIN_INTERVAL_SECS: u64 = 5;

/// Why a transport operation failed. Failures are reported per operation and
/// never crash the pipeline.
#[derive(Debug)]
pub enum TransportError {
    /// The link is not ready: never initialized, failed, or closed.
    Unavailable,
    /// The request identifier space is exhausted.
    IdsExhausted,
    /// The response line did not parse.
    BadResponse,
    /// The response identifier does not match the request.
    IdMismatch { expected: u64, got: u64 },
    /// The sidecar reported an error.
    Sidecar { code: i64, message: String },
}

// ---------------------------------------------------------------------------
// Request framing
// ---------------------------------------------------------------------------

/// The framed request line: identifier, method, raw params object, and the
/// optional fire-and-forget marker.
pub open spec fn enc_request(id: u64, method: Seq<char>, params: Seq<char>, no_reply: bool) -> Seq<
    char,
> {
    "{\"id\":"@ + (dec_digits(id as nat) + (",\"method\":"@ + (enc_str(method) + (",\"params\":"@
        + (params + (if no_reply {
        ",\"no_reply\":true}"@
    } else {
        "}"@
    }))))))
}

/// Build the framed request line.
pub fn encode_request(id: u64, method: &str, params: &str, no_reply: bool) -> (r: String)
    ensures
        r@ == enc_request(id, method@, params@, no_reply),
{
    let tail = if no_reply {
        String::from_str(",\"no_reply\":true}")
    } else {
        String::from_str("}")
    };
    let t2 = params.to_owned().concat(tail.as_str());
    let t1 = quote(method).concat(cat(",\"params\":", t2).as_str());
    let t0 = crate::codec::u64_to_dec(id).concat(cat(",\"method\":", t1).as_str());
    cat("{\"id\":", t0)
}

// ---------------------------------------------------------------------------
// Response parsing
// ---------------------------------------------------------------------------

/// A parsed response: the echoed identifier and either a raw result text or
/// a reported error.
pub struct SidecarResponse {
    pub id: u64,
    pub error: Option<(i64, String)>,
    pub result_raw: Option<String>,
}

pub struct ResponseView {
    pub id: u64,
    pub error: Option<(i64, Seq<char>)>,
    pub result_raw: Option<Seq<char>>,
}

impl View for SidecarResponse {
    type V = ResponseView;

    open spec fn view(&self) -> ResponseView {
        ResponseView {
            id: self.id,
            error: match &self.error {
                Some((c, m)) => Some((*c, m@)),
                None => None,
            },
            result_raw: match &self.result_raw {
                Some(t) => Some(t@),
                None => None,
            },
        }
    }
}

/// Parse an optionally signed decimal integer.
pub open spec fn sp_i64(s: Seq<char>) -> Option<(i64, Seq<char>)> {
    if s.len() > 0 && s[0] == '-' {
        match sp_u64(s.skip(1)) {
            None => None,
            Some((n, r)) => if n <= i64::MAX as u64 {
                Some(((-(n as int)) as i64, r))
            } else {
                None
            },
        }
    } else {
        match sp_u64(s) {
            None => None,
            Some((n, r)) => if n <= i64::MAX as u64 {
                Some((n as i64, r))
            } else {
                None
            },
        }
    }
}

/// Parse one whole response line:
/// `{"id":N}`, `{"id":N,"result":RAW}`, or
/// `{"id":N,"error":{"code":C,"message":"M"}}`.
pub open spec fn sp_response(s: Seq<char>) -> Option<ResponseView> {
    match sp_lit(s, "{\"id\":"@) {
        None => None,
        Some(r0) => match sp_u64(r0) {
            None => None,
            Some((id, r1)) => if r1.len() == 1 && r1[0] == '}' {
                Some(ResponseView { id, error: None, result_raw: None })
            } else {
                match sp_lit(r1, ",\"error\":{\"code\":"@) {
                    Some(r2) => match sp_i64(r2) {
                        None => None,
                        Some((code, r3)) => match sp_lit(r3, ",\"message\":"@) {
                            None => None,
                            Some(r4) => match sp_str(r4) {
                                None => None,
                                Some((msg, r5)) => if r5.len() == 2 && r5[0] == '}' && r5[1]
                                    == '}' {
                                    Some(
                                        ResponseView {
                                            id,
                                            error: Some((code, msg)),
                                            result_raw: None,
                                        },
                                    )
                                } else {
                                    None
                                },
                            },
                        },
                    },
                    None => match sp_lit(r1, ",\"result\":"@) {
                        None => None,
                        Some(r2) => if r2.len() >= 2 && r2.last() == '}' {
                            Some(
                                ResponseView {
                                    id,
                                    error: None,
                                    result_raw: Some(r2.drop_last()),
                                },
                            )
                        } else {
                            None
                        },
                    },
                }
            },
        },
    }
}

fn p_i64(s: &str, i: usize) -> (r: Option<(i64, usize)>)
    requires
        i <= s@.len(),
    ensures
        match r {
            Some((n, j)) => i <= j <= s@.len() && sp_i64(s@.skip(i as int)) == Some((
                n,
                s@.skip(j as int),
            )),
            None => sp_i64(s@.skip(i as int)) is None,
        },
{
    let len = s.unicode_len();
    let ghost suff = s@.skip(i as int);
    if i < len && s.get_char(i) == '-' {
        proof {
            assert(suff[0] == s@[i as int]);
            assert(suff.skip(1) =~= s@.skip(i + 1 as int));
        }
        match crate::codec::p_u64(s, i + 1) {
            None => None,
            Some((n, j)) => {
                if n <= i64::MAX as u64 {
                    Some((-(n as i64), j))
                } else {
                    None
                }
            },
        }
    } else {
        proof {
            if i < len {
                assert(suff[0] == s@[i as int]);
            } else {
                assert(suff.len() == 0);
            }
        }
        match crate::codec::p_u64(s, i) {
            None => None,
            Some((n, j)) => {
                if n <= i64::MAX as u64 {
                    Some((n as i64, j))
                } else {
                    None
                }
            },
        }
    }
}

/// Parse one response line, exactly as `sp_response` reads it.
pub fn decode_response(s: &str) -> (r: Option<SidecarResponse>)
    ensures
        match r {
            Some(resp) => sp_response(s@) == Some(resp@),
            None => sp_response(s@) is None,
        },
{
    let len = s.unicode_len();
    proof {
        assert(s@.skip(0) =~= s@);
    }
    match crate::codec::p_lit(s, 0, "{\"id\":") {
        None => None,
        Some(i0) => match crate::codec::p_u64(s, i0) {
            None => None,
            Some((id, i1)) => {
                let ghost r1 = s@.skip(i1 as int);
                if i1 < len && i1 + 1 == len && s.get_char(i1) == '}' {
                    proof {
                        assert(r1.len() == 1 && r1[0] == s@[i1 as int]);
                    }
                    Some(SidecarResponse { id, error: None, result_raw: None })
                } else {
                    proof {
                        if i1 < len {
                            assert(r1[0] == s@[i1 as int]);
                        }
                        assert(!(r1.len() == 1 && r1[0] == '}'));
                    }
                    match crate::codec::p_lit(s, i1, ",\"error\":{\"code\":") {
                        Some(i2) => match p_i64(s, i2) {
                            None => None,
                            Some((code, i3)) => match crate::codec::p_lit(s, i3, ",\"message\":") {
                                None => None,
                                Some(i4) => match crate::codec::p_str(s, i4) {
                                    None => None,
                                    Some((msg, i5)) => {
                                        let ghost r5 = s@.skip(i5 as int);
                                        if i5 < len && i5 + 1 < len && i5 + 2 == len
                                            && s.get_char(i5) == '}' && s.get_char(i5 + 1)
                                            == '}' {
                                            proof {
                                                assert(r5.len() == 2 && r5[0] == s@[i5 as int]
                                                    && r5[1] == s@[i5 + 1 as int]);
                                            }
                                            Some(
                                                SidecarResponse {
                                                    id,
                                                    error: Some((code, msg)),
                                                    result_raw: None,
                                                },
                                            )
                                        } else {
                                            proof {
                                                if i5 < len {
                                                    assert(r5[0] == s@[i5 as int]);
                                                }
                                                if i5 + 1 < len {
                                                    assert(r5[1] == s@[i5 + 1 as int]);
                                                }
                                                assert(!(r5.len() == 2 && r5[0] == '}' && r5[1]
                                                    == '}'));
                                            }
                                            None
                                        }
                                    },
                                },
                            },
                        },
                        None => match crate::codec::p_lit(s, i1, ",\"result\":") {
                            None => None,
                            Some(i2) => {
                                let ghost r2 = s@.skip(i2 as int);
                                if i2 < len && i2 + 1 < len && s.get_char(len - 1) == '}' {
                                    let raw = String::from_str(s.substring_char(i2, len - 1));
                                    proof {
                                        assert(r2.len() >= 2);
                                        assert(r2.last() == s@[len - 1]);
                                        assert(r2.drop_last() =~= s@.subrange(
                                            i2 as int,
                                            len - 1 as int,
                                        ));
                                    }
                                    Some(SidecarResponse { id, error: None, result_raw: Some(raw) })
                                } else {
                                    proof {
                                        if i2 + 2 <= len {
                                            assert(r2.last() == s@[len - 1]);
                                        } else {
                                            assert(r2.len() < 2);
                                        }
                                    }
                                    None
                                }
                            },
                        },
                    }
                }
            },
        },
    }
}

// ---------------------------------------------------------------------------
// Link state machine
// ---------------------------------------------------------------------------

/// Lifecycle of the sidecar link.
pub enum LinkState {
    /// Not yet initialized.
    Unready,
    /// Initialized and usable.
    Ready,
    /// Initialization failed; delivery is disabled for the rest of the run.
    Failed,
    /// Shut down.
    Closed,
}

/// The sidecar link: its lifecycle state and the next request identifier.
pub struct SidecarLink {
    state: LinkState,
    next_id: u64,
}

/// A framed request handed to the caller to write to the channel.
pub struct OutRequest {
    pub id: u64,
    pub line: String,
    pub await_reply: bool,
}

impl SidecarLink {
    pub closed spec fn state(self) -> LinkState {
        self.state
    }

    pub closed spec fn next_request_id(self) -> u64 {
        self.next_id
    }

    /// A fresh link; identifiers start at 1.
    pub fn new() -> (r: Self)
        ensures
            r.state() is Unready,
            r.next_request_id() == 1,
    {
        SidecarLink { state: LinkState::Unready, next_id: 1 }
    }

    /// Record that initialization succeeded.
    pub fn mark_ready(&mut self)
        requires
            old(self).state() is Unready,
        ensures
            final(self).state() is Ready,
            final(self).next_request_id() == old(self).next_request_id(),
    {
        self.state = LinkState::Ready;
    }

    /// Record that initialization failed: delivery stays disabled, but the
    /// rest of the pipeline keeps operating.
    pub fn mark_failed(&mut self)
        ensures
            final(self).state() is Failed,
            final(self).next_request_id() == old(self).next_request_id(),
    {
        self.state = LinkState::Failed;
    }

    /// Record that the link was shut down.
    pub fn mark_closed(&mut self)
        ensures
            final(self).state() is Closed,
            final(self).next_request_id() == old(self).next_request_id(),
    {
        self.state = LinkState::Closed;
    }

    /// Frame a request. Only a ready link hands one out; its identifier is
    /// the next in the strictly increasing sequence.
    pub fn begin_request(&mut self, method: &str, params: &str, no_reply: bool) -> (r: Result<
        OutRequest,
        TransportError,
    >)
        ensures
            !(old(self).state() is Ready) ==> r is Err && (r->Err_0 is Unavailable) && *final(self)
                == *old(self),
            old(self).state() is Ready && old(self).next_request_id() == u64::MAX ==> r is Err && (
            r->Err_0 is IdsExhausted) && *final(self) == *old(self),
            old(self).state() is Ready && old(self).next_request_id() < u64::MAX ==> r is Ok && {
                &&& r->Ok_0.id == old(self).next_request_id()
                &&& r->Ok_0.line@ == enc_request(
                    old(self).next_request_id(),
                    method@,
                    params@,
                    no_reply,
                )
                &&& r->Ok_0.await_reply == !no_reply
                &&& final(self).state() is Ready
                &&& final(self).next_request_id() == old(self).next_request_id() + 1
            },
    {
        match self.state {
            LinkState::Ready => {
                if self.next_id == u64::MAX {
                    Err(TransportError::IdsExhausted)
                } else {
                    let id = self.next_id;
                    self.next_id = self.next_id + 1;
                    let line = encode_request(id, method, params, no_reply);
                    Ok(OutRequest { id, line, await_reply: !no_reply })
                }
            },
            _ => Err(TransportError::Unavailable),
        }
    }

    /// Frame a `flush` request: deliver everything already enqueued.
    pub fn flush_request(&mut self) -> (r: Result<OutRequest, TransportError>)
        ensures
            begin_simple(*old(self), *final(self), r, "flush"@),
    {
        self.begin_request("flush", "{}", false)
    }

    /// Frame a `wait_queue_empty` request: block until the sender's queue
    /// has drained.
    pub fn wait_queue_empty_request(&mut self) -> (r: Result<OutRequest, TransportError>)
        ensures
            begin_simple(*old(self), *final(self), r, "wait_queue_empty"@),
    {
        self.begin_request("wait_queue_empty", "{}", false)
    }

    /// Frame a `wait_idle` request: block until nothing is in flight.
    pub fn wait_idle_request(&mut self) -> (r: Result<OutRequest, TransportError>)
        ensures
            begin_simple(*old(self), *final(self), r, "wait_idle"@),
    {
        self.begin_request("wait_idle", "{}", false)
    }

    /// Frame a `stats` request: ask the sender for its delivery statistics.
    pub fn stats_request(&mut self) -> (r: Result<OutRequest, TransportError>)
        ensures
            begin_simple(*old(self), *final(self), r, "stats"@),
    {
        self.begin_request("stats", "{}", false)
    }

    /// Frame a best-effort `shutdown` request.
    pub fn shutdown_request(&mut self) -> (r: Result<OutRequest, TransportError>)
        ensures
            begin_simple(*old(self), *final(self), r, "shutdown"@),
    {
        self.begin_request("shutdown", "{}", false)
    }

    /// What shutdown must still do, given whether the sender process has
    /// already exited: a live, ready link gets a best-effort shutdown
    /// request; the channel artifact is removed either way, and a live
    /// process is awaited.
    pub fn plan_shutdown(&self, process_already_exited: bool) -> (r: ShutdownPlan)
        ensures
            r.send_shutdown == (!process_already_exited && self.state() is Ready),
            r.wait_for_exit == !process_already_exited,
            r.remove_artifact,
    {
        let ready = match self.state {
            LinkState::Ready => true,
            _ => false,
        };
        ShutdownPlan {
            send_shutdown: !process_already_exited && ready,
            wait_for_exit: !process_already_exited,
            remove_artifact: true,
        }
    }
}

/// What framing one awaited request with empty params does: exactly what
/// `begin_request` promises for that method.
pub open spec fn begin_simple(
    pre: SidecarLink,
    post: SidecarLink,
    r: Result<OutRequest, TransportError>,
    method: Seq<char>,
) -> bool {
    &&& (!(pre.state() is Ready) ==> r is Err && (r->Err_0 is Unavailable) && post == pre)
    &&& (pre.state() is Ready && pre.next_request_id() == u64::MAX ==> r is Err && (r->Err_0
        is IdsExhausted) && post == pre)
    &&& (pre.state() is Ready && pre.next_request_id() < u64::MAX ==> r is Ok && {
        &&& r->Ok_0.id == pre.next_request_id()
        &&& r->Ok_0.line@ == enc_request(pre.next_request_id(), method, "{}"@, false)
        &&& r->Ok_0.await_reply
        &&& post.state() is Ready
        &&& post.next_request_id() == pre.next_request_id() + 1
    })
}

/// The steps a shutdown still has to perform.
pub struct ShutdownPlan {
    pub send_shutdown: bool,
    pub wait_for_exit: bool,
    pub remove_artifact: bool,
}

/// What to do after one availability poll of the sidecar channel.
pub enum PollStep {
    /// The channel is there: connect.
    Connect,
    /// Not yet: wait `POLL_RETRY_MILLIS` and poll again.
    RetryAfterDelay,
    /// The retry budget is exhausted: initialization failed.
    GiveUp,
}

/// Decide the next step after poll number `attempt` (counted from zero)
/// found the channel available or not.
pub fn poll_decision(attempt: u64, available: bool) -> (r: PollStep)
    ensures
        available ==> r is Connect,
        !available && attempt + 1 < POLL_ATTEMPT_LIMIT ==> r is RetryAfterDelay,
        !available && attempt + 1 >= POLL_ATTEMPT_LIMIT ==> r is GiveUp,
{
    if available {
        PollStep::Connect
    } else if attempt < POLL_ATTEMPT_LIMIT - 1 {
        PollStep::RetryAfterDelay
    } else {
        PollStep::GiveUp
    }
}

// ---------------------------------------------------------------------------
// Payload building
// ---------------------------------------------------------------------------

/// The `init` request params: backend URL and credentials. The sender uses
/// the API key as the password with an empty username.
pub open spec fn enc_init_params(base_url: Seq<char>, api_key: Seq<char>) -> Seq<char> {
    "{\"server_url\":"@ + (enc_str(base_url) + (",\"auth\":{\"username\":\"\",\"password\":"@ + (
    enc_str(api_key) + "}}"@)))
}

pub fn encode_init_params(base_url: &str, api_key: &str) -> (r: String)
    ensures
        r@ == enc_init_params(base_url@, api_key@),
{
    let t1 = quote(api_key).concat("}}");
    let t0 = quote(base_url).concat(cat(",\"auth\":{\"username\":\"\",\"password\":", t1).as_str());
    cat("{\"server_url\":", t0)
}

/// The `enqueue` params carrying one start-of-span record. The span keeps
/// its session in `thread_id` and its own identifier in `turn_id`; the
/// `inputs` values are raw, already-encoded texts.
pub open spec fn enc_start_payload(
    project_id: Seq<char>,
    call_id: Seq<char>,
    trace_id: Seq<char>,
    session_id: Seq<char>,
    op_name: Seq<char>,
    started_at: Seq<char>,
    tick: u64,
    inputs: Seq<(Seq<char>, Seq<char>)>,
) -> Seq<char> {
    "{\"items\":[{\"type\":\"start\",\"payload\":{\"start\":{\"project_id\":"@
        + enc_str(project_id) + ",\"id\":"@ + enc_str(call_id) + ",\"op_name\":"@ + enc_str(
        op_name,
    ) + ",\"trace_id\":"@ + enc_str(trace_id) + ",\"thread_id\":"@ + enc_str(session_id)
        + ",\"turn_id\":"@ + enc_str(call_id) + ",\"started_at\":"@ + enc_str(started_at)
        + ",\"attributes\":{\"tick\":"@ + dec_digits(tick as nat) + "},\"inputs\":"@
        + enc_pairs(inputs) + "}}}]}"@
}

pub fn encode_start_payload(
    project_id: &str,
    call_id: &str,
    trace_id: &str,
    session_id: &str,
    op_name: &str,
    started_at: &str,
    tick: u64,
    inputs: &Vec<(String, String)>,
) -> (r: String)
    ensures
        r@ == enc_start_payload(
            project_id@,
            call_id@,
            trace_id@,
            session_id@,
            op_name@,
            started_at@,
            tick,
            crate::event::pairs_view(inputs@),
        ),
{
    String::from_str("{\"items\":[{\"type\":\"start\",\"payload\":{\"start\":{\"project_id\":")
        .concat(quote(project_id).as_str())
        .concat(",\"id\":")
        .concat(quote(call_id).as_str())
        .concat(",\"op_name\":")
        .concat(quote(op_name).as_str())
        .concat(",\"trace_id\":")
        .concat(quote(trace_id).as_str())
        .concat(",\"thread_id\":")
        .concat(quote(session_id).as_str())
        .concat(",\"turn_id\":")
        .concat(quote(call_id).as_str())
        .concat(",\"started_at\":")
        .concat(quote(started_at).as_str())
        .concat(",\"attributes\":{\"tick\":")
        .concat(crate::codec::u64_to_dec(tick).as_str())
        .concat("},\"inputs\":")
        .concat(crate::wire::encode_pairs(inputs).as_str())
        .concat("}}}]}")
}

/// The `enqueue` params carrying one end-of-span record: a failed span
/// carries a fixed exception marker; the summary carries the tick duration.
/// The `outputs` values are raw, already-encoded texts.
pub open spec fn enc_end_payload(
    project_id: Seq<char>,
    call_id: Seq<char>,
    ended_at: Seq<char>,
    success: bool,
    outputs: Seq<(Seq<char>, Seq<char>)>,
    duration_ticks: u64,
) -> Seq<char> {
    "{\"items\":[{\"type\":\"end\",\"payload\":{\"end\":{\"project_id\":"@ + enc_str(
        project_id,
    ) + ",\"id\":"@ + enc_str(call_id) + ",\"ended_at\":"@ + enc_str(ended_at) + (if success {
        ",\"output\":"@
    } else {
        ",\"exception\":\"Call failed\",\"output\":"@
    }) + enc_pairs(outputs) + ",\"summary\":{\"duration_ticks\":"@ + dec_digits(
        duration_ticks as nat,
    ) + "}}}}]}"@
}

pub fn encode_end_payload(
    project_id: &str,
    call_id: &str,
    ended_at: &str,
    success: bool,
    outputs: &Vec<(String, String)>,
    duration_ticks: u64,
) -> (r: String)
    ensures
        r@ == enc_end_payload(
            project_id@,
            call_id@,
            ended_at@,
            success,
            crate::event::pairs_view(outputs@),
            duration_ticks,
        ),
{
    let marker: &str = if success {
        ",\"output\":"
    } else {
        ",\"exception\":\"Call failed\",\"output\":"
    };
    String::from_str("{\"items\":[{\"type\":\"end\",\"payload\":{\"end\":{\"project_id\":")
        .concat(quote(project_id).as_str())
        .concat(",\"id\":")
        .concat(quote(call_id).as_str())
        .concat(",\"ended_at\":")
        .concat(quote(ended_at).as_str())
        .concat(marker)
        .concat(crate::wire::encode_pairs(outputs).as_str())
        .concat(",\"summary\":{\"duration_ticks\":")
        .concat(crate::codec::u64_to_dec(duration_ticks).as_str())
        .concat("}}}}]}")
}

/// Match a response line against the identifier of an awaited request.
pub fn accept_response(expected_id: u64, line: &str) -> (r: Result<Option<String>, TransportError>)
    ensures
        match r {
            Ok(result_raw) => sp_response(line@) is Some && {
                let resp = sp_response(line@)->Some_0;
                &&& resp.id == expected_id
                &&& resp.error is None
                &&& (match result_raw {
                    Some(t) => resp.result_raw == Some(t@),
                    None => resp.result_raw is None,
                })
            },
            Err(e) => match e {
                TransportError::BadResponse => sp_response(line@) is None,
                TransportError::IdMismatch { expected, got } => expected == expected_id
                    && sp_response(line@) is Some && sp_response(line@)->Some_0.id == got && got
                    != expected_id,
                TransportError::Sidecar { code, message } => sp_response(line@) is Some
                    && sp_response(line@)->Some_0.id == expected_id && sp_response(
                    line@,
                )->Some_0.error == Some((code, message@)),
                _ => false,
            },
        },
{
    match decode_response(line) {
        None => Err(TransportError::BadResponse),
        Some(resp) => {
            if resp.id != expected_id {
                Err(TransportError::IdMismatch { expected: expected_id, got: resp.id })
            } else {
                match resp.error {
                    Some((code, message)) => Err(TransportError::Sidecar { code, message }),
                    None => Ok(resp.result_raw),
                }
            }
        },
    }
}

} // verus!
