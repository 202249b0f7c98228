//! The event router: decodes raw lines, correlates sessions, tracks spans,
//! merges metrics, and frames sidecar requests.
//!
//! Every outward effect is returned as an [`Action`]; the caller performs
//! the I/O (writes the framed line, reads the screenshot, drives the
//! dashboard sink) and the state machines here stay fully verified. Events
//! of one batch are handled strictly in order, one at a time. The contracts
//! pin not only the state but the returned actions: which delivery attempts
//! stand where, and the exact framed line of every request that goes out.

use vstd::prelude::*;
use vstd::string::StringExecFns;
use crate::codec::{dec_digits, enc_str, json_safe};
use crate::config::{project_view, WeaveConfig};
use crate::correlator::{Correlator, SessionView};
use crate::event::{EventView, ParsedEvent, PlayerSnapshot, PlayerView, pairs_view};
use crate::metrics::{MetricsTracker, extend_seen, merged, names_of};
use crate::snapshot::base64_of;
use crate::tracker::{CallContext, CallContextView, CallTracker, EndedSpan};
use crate::transport::{
    enc_end_payload, enc_request, enc_start_payload, OutRequest, SidecarLink, TransportError,
};
use crate::wire::{dec_line, quote};

verus! {

/// One outward effect of handling an event. The caller performs it; the
/// affected state has already been updated.
pub enum Action {
    /// Write this framed request line to the sidecar channel; when
    /// `request.await_reply` is set, read one response line back and hand it
    /// to `transport::accept_response`.
    SendRequest { request: OutRequest },
    /// A span or metric could not be framed; report it and carry on.
    ReportTransportError { error: TransportError },
    /// A line that did not decode; report it and continue the batch.
    ReportDecodeError { line: String },
    /// A game event whose name is outside the handler set.
    ReportUnknownEvent { event_name: String },
    /// An end of span for a logical identifier with no open span.
    ReportCallNotFound { logical_id: String },
    /// Start a dashboard run for a newly created session.
    BeginMetricsRun { run_id: String, tick: u64, level_name: String },
    /// Finish the dashboard run of a finalized session.
    FinishMetricsRun { run_id: String },
    /// Log these merged metrics at the given step.
    LogMetrics { step: u64, metrics: Vec<(String, String)> },
    /// Read the screenshot file and hand its bytes to `on_snapshot`.
    FetchSnapshot { tick: u64, player: PlayerSnapshot, path: String },
    /// An operation that needs a current session found none.
    ReportNoSession { operation: String },
}

/// The router and the state it guards.
pub struct EventMediator {
    pub correlator: Correlator,
    pub tracker: CallTracker,
    pub metrics: MetricsTracker,
    pub link: SidecarLink,
    pub config: WeaveConfig,
}

// ---------------------------------------------------------------------------
// Session transitions
// ---------------------------------------------------------------------------

/// The event's session identifier does not continue the current session.
pub open spec fn session_changed(old_c: Option<SessionView>, sid: Seq<char>) -> bool {
    !(old_c is Some && old_c->Some_0.external_id == sid)
}

/// How one observed session identifier advances the current-session slot:
/// a match keeps it untouched, anything else replaces it with a session for
/// this identifier created at this tick.
pub open spec fn session_advanced(
    old_c: Option<SessionView>,
    new_c: Option<SessionView>,
    sid: Seq<char>,
    tick: u64,
) -> bool {
    if session_changed(old_c, sid) {
        new_c is Some && new_c->Some_0.external_id == sid && new_c->Some_0.created_tick == tick
    } else {
        new_c == old_c
    }
}

/// The spans still open once a session transition has been applied.
pub open spec fn base_calls(pre: EventMediator, chg: bool) -> Map<Seq<char>, CallContextView> {
    if chg {
        Map::empty()
    } else {
        pre.tracker.calls()
    }
}

// ---------------------------------------------------------------------------
// Delivery attempts: what the actions carry outward
// ---------------------------------------------------------------------------

/// Action `a` frames `payload` as fire-and-forget enqueue request `id`.
pub open spec fn enqueue_sent(a: Action, id: u64, payload: Seq<char>) -> bool {
    a matches Action::SendRequest { request } && (request.id == id && request.line@ == enc_request(
        id,
        "enqueue"@,
        payload,
        true,
    ) && !request.await_reply)
}

/// Action `a` is the outward delivery attempt of one fire-and-forget
/// `enqueue` carrying exactly `payload`: a framed request, or a
/// transport-error report — the latter never on a link that was ready,
/// except when its identifiers have run out.
pub open spec fn enqueue_attempted(a: Action, ready: bool, payload: Seq<char>) -> bool {
    &&& (a is SendRequest || a is ReportTransportError)
    &&& (!ready ==> a is ReportTransportError)
    &&& (a is SendRequest ==> exists|id: u64| enqueue_sent(a, id, payload))
}

/// The values of a name/value object, each wrapped as a JSON string.
pub open spec fn quoted_view(ps: Seq<(Seq<char>, Seq<char>)>) -> Seq<(Seq<char>, Seq<char>)> {
    Seq::new(ps.len(), |i: int| (ps[i].0, enc_str(ps[i].1)))
}

/// The session identity prepended to a span's input object.
pub open spec fn with_session(run_id: Seq<char>, ps: Seq<(Seq<char>, Seq<char>)>) -> Seq<
    (Seq<char>, Seq<char>),
> {
    seq![("session_id"@, enc_str(run_id))] + ps
}

/// The output object of an end-of-span record: session identity, the
/// caller's outputs, the success flag, and the end tick.
pub open spec fn end_object(
    run_id: Seq<char>,
    outputs: Seq<(Seq<char>, Seq<char>)>,
    success: bool,
    tick: u64,
) -> Seq<(Seq<char>, Seq<char>)> {
    seq![("session_id"@, enc_str(run_id))] + outputs + seq![
        ("success"@, if success { "true"@ } else { "false"@ }),
    ] + seq![("tick"@, dec_digits(tick as nat))]
}

/// Action `a` delivers the start of a span: the framed line carries exactly
/// the start payload of this call, at some wall-clock timestamp.
pub open spec fn start_span_attempted(
    ready: bool,
    project: Seq<char>,
    call_id: Seq<char>,
    trace_id: Seq<char>,
    run_id: Seq<char>,
    op_name: Seq<char>,
    tick: u64,
    inputs: Seq<(Seq<char>, Seq<char>)>,
    a: Action,
) -> bool {
    exists|ts: Seq<char>|
        #![trigger enc_start_payload(
            project,
            call_id,
            trace_id,
            run_id,
            op_name,
            ts,
            tick,
            with_session(run_id, inputs),
        )]
        {
            &&& json_safe(ts) && ts.len() > 0
            &&& enqueue_attempted(
                a,
                ready,
                enc_start_payload(
                    project,
                    call_id,
                    trace_id,
                    run_id,
                    op_name,
                    ts,
                    tick,
                    with_session(run_id, inputs),
                ),
            )
        }
}

/// Action `a` delivers the end of a span: the framed line carries exactly
/// the end payload of this record, at some wall-clock timestamp.
pub open spec fn end_span_attempted(
    ready: bool,
    project: Seq<char>,
    call_id: Seq<char>,
    session_id: Seq<char>,
    success: bool,
    outputs: Seq<(Seq<char>, Seq<char>)>,
    end_tick: u64,
    duration_ticks: u64,
    a: Action,
) -> bool {
    exists|ts: Seq<char>|
        #![trigger enc_end_payload(
            project,
            call_id,
            ts,
            success,
            end_object(session_id, outputs, success, end_tick),
            duration_ticks,
        )]
        {
            &&& json_safe(ts) && ts.len() > 0
            &&& enqueue_attempted(
                a,
                ready,
                enc_end_payload(
                    project,
                    call_id,
                    ts,
                    success,
                    end_object(session_id, outputs, success, end_tick),
                    duration_ticks,
                ),
            )
        }
}

/// Actions `a_start`, `a_end` deliver one instantaneous span: a start and an
/// end sharing a fresh time-ordered call identifier, success, zero duration.
pub open spec fn atomic_span_attempted(
    ready: bool,
    project: Seq<char>,
    run_id: Seq<char>,
    op_name: Seq<char>,
    tick: u64,
    inputs: Seq<(Seq<char>, Seq<char>)>,
    outputs: Seq<(Seq<char>, Seq<char>)>,
    a_start: Action,
    a_end: Action,
) -> bool {
    exists|cid: Seq<char>, tid: Seq<char>|
        #![trigger start_span_attempted(
            ready,
            project,
            cid,
            tid,
            run_id,
            op_name,
            tick,
            inputs,
            a_start,
        )]
        {
            &&& json_safe(cid) && cid.len() == 36
            &&& json_safe(tid) && tid.len() == 36
            &&& start_span_attempted(ready, project, cid, tid, run_id, op_name, tick, inputs, a_start)
            &&& end_span_attempted(ready, project, cid, run_id, true, outputs, tick, 0, a_end)
        }
}

/// Action `a` delivers the forced closure of span context `c`: an end with
/// `success = false`, no outputs and zero duration, ended at its start tick.
pub open spec fn span_force_closed(
    ready: bool,
    project: Seq<char>,
    c: CallContextView,
    a: Action,
) -> bool {
    end_span_attempted(
        ready,
        project,
        c.call_id,
        c.session_id,
        false,
        Seq::empty(),
        c.start_tick,
        0,
        a,
    )
}

/// The link can still frame `k` requests: it is ready and its identifier
/// space has that much room. Under this condition no delivery degrades to a
/// transport-error report.
pub open spec fn frames_left(pre: EventMediator, k: int) -> bool {
    pre.link.state() is Ready && pre.link.next_request_id() as int + k <= u64::MAX as int
}

// ---------------------------------------------------------------------------
// Per-event payload objects
// ---------------------------------------------------------------------------

pub open spec fn init_inputs_obj(tick: u64, level: Seq<char>) -> Seq<(Seq<char>, Seq<char>)> {
    seq![("tick"@, dec_digits(tick as nat)), ("level_name"@, enc_str(level))]
}

pub open spec fn init_outputs_obj(level: Seq<char>) -> Seq<(Seq<char>, Seq<char>)> {
    seq![("level_name"@, enc_str(level))]
}

/// The plain inputs a research span stores in its context.
pub open spec fn research_plain_inputs(tn: Seq<char>, lvl: u32) -> Seq<(Seq<char>, Seq<char>)> {
    seq![("tech_name"@, tn), ("tech_level"@, dec_digits(lvl as nat))]
}

pub open spec fn research_inputs_obj(tn: Seq<char>, lvl: u32) -> Seq<(Seq<char>, Seq<char>)> {
    seq![("tech_name"@, enc_str(tn)), ("tech_level"@, enc_str(dec_digits(lvl as nat)))]
}

pub open spec fn research_outputs_obj(tn: Seq<char>, lvl: u32) -> Seq<(Seq<char>, Seq<char>)> {
    seq![
        ("tech_name"@, enc_str(tn)),
        ("tech_level"@, enc_str(dec_digits(lvl as nat))),
        ("completed"@, enc_str("true"@)),
    ]
}

pub open spec fn entity_inputs_obj(
    player_index: u32,
    entity: Seq<char>,
    x: Seq<char>,
    y: Seq<char>,
    surface: Seq<char>,
) -> Seq<(Seq<char>, Seq<char>)> {
    seq![
        ("player_index"@, dec_digits(player_index as nat)),
        ("entity"@, enc_str(entity)),
        ("position_x"@, x),
        ("position_y"@, y),
        ("surface"@, enc_str(surface)),
    ]
}

pub open spec fn entity_outputs_obj(entity: Seq<char>, surface: Seq<char>) -> Seq<
    (Seq<char>, Seq<char>),
> {
    seq![("entity"@, enc_str(entity)), ("surface"@, enc_str(surface))]
}

pub open spec fn crafted_inputs_obj(player_index: u32, item: Seq<char>, count: u32) -> Seq<
    (Seq<char>, Seq<char>),
> {
    seq![
        ("player_index"@, dec_digits(player_index as nat)),
        ("item"@, enc_str(item)),
        ("count"@, dec_digits(count as nat)),
    ]
}

pub open spec fn crafted_outputs_obj(item: Seq<char>, count: u32) -> Seq<(Seq<char>, Seq<char>)> {
    seq![("item"@, enc_str(item)), ("count"@, dec_digits(count as nat))]
}

/// The inline image value carrying the screenshot bytes.
pub open spec fn image_value(bytes: Seq<u8>) -> Seq<char> {
    "{\"_type\":\"Image\",\"data\":"@ + enc_str("data:image/png;base64,"@ + base64_of(bytes))
        + "}"@
}

pub open spec fn snapshot_inputs_obj(p: PlayerView, bytes: Seq<u8>) -> Seq<(Seq<char>, Seq<char>)> {
    seq![
        ("position_x"@, p.x),
        ("position_y"@, p.y),
        ("surface"@, enc_str(p.surface)),
        ("health"@, p.health),
        ("screenshot"@, image_value(bytes)),
    ]
}

pub open spec fn snapshot_outputs_obj(path: Seq<char>) -> Seq<(Seq<char>, Seq<char>)> {
    seq![("screenshot_path"@, enc_str(path))]
}

// ---------------------------------------------------------------------------
// The contract of one routed event
// ---------------------------------------------------------------------------

/// The actions a session transition prepends, at the head of the list: one
/// closing delivery attempt per open span in insertion order, then the
/// finish of the old dashboard run, then the begin of the new one — all
/// before anything the event itself contributes.
pub open spec fn transition_prefix(
    pre: EventMediator,
    post_run: Seq<char>,
    tick: u64,
    level: Seq<char>,
    actions: Seq<Action>,
    chg: bool,
) -> bool {
    chg ==> {
        let n = pre.tracker.keys().len() as int;
        let f: int = if pre.correlator.current_session() is Some {
            1
        } else {
            0
        };
        &&& (forall|j: int|
            0 <= j < n ==> span_force_closed(
                pre.link.state() is Ready,
                project_view(pre.config),
                pre.tracker.calls()[pre.tracker.keys()[j]],
                #[trigger] actions[j],
            ))
        &&& (pre.correlator.current_session() is Some ==> (actions[n]
            matches Action::FinishMetricsRun { run_id } && run_id@
            == pre.correlator.current_session()->Some_0.internal_run_id))
        &&& (actions[n + f] matches Action::BeginMetricsRun { run_id, tick: t, level_name }
            && (run_id@ == post_run && t == tick && level_name@ == level))
        &&& (frames_left(pre, n) ==> forall|j: int|
            0 <= j < n ==> (#[trigger] actions[j]) is SendRequest)
    }
}

/// How many actions a session transition prepends.
pub open spec fn prefix_len(pre: EventMediator, chg: bool) -> int {
    if chg {
        pre.tracker.keys().len() + (if pre.correlator.current_session() is Some {
            1int
        } else {
            0int
        }) + 1
    } else {
        0
    }
}

/// Effects shared by the instantaneous spans (session init and the three
/// instantaneous game events): the session advances, a possible transition
/// prefix, and then exactly the start/end pair of the span.
pub open spec fn atomic_event_effects(
    pre: EventMediator,
    post: EventMediator,
    sid: Seq<char>,
    tick: u64,
    level: Seq<char>,
    op_name: Seq<char>,
    inputs: Seq<(Seq<char>, Seq<char>)>,
    outputs: Seq<(Seq<char>, Seq<char>)>,
    actions: Seq<Action>,
) -> bool {
    let chg = session_changed(pre.correlator.current_session(), sid);
    let run = post.correlator.current_session()->Some_0.internal_run_id;
    let p = prefix_len(pre, chg);
    &&& session_advanced(
        pre.correlator.current_session(),
        post.correlator.current_session(),
        sid,
        tick,
    )
    &&& transition_prefix(pre, run, tick, level, actions, chg)
    &&& post.tracker.calls() =~= base_calls(pre, chg)
    &&& (chg ==> post.metrics.seen_production().len() == 0 && post.metrics.seen_consumption().len()
        == 0)
    &&& (!chg ==> post.metrics == pre.metrics)
    &&& actions.len() == p + 2
    &&& atomic_span_attempted(
        pre.link.state() is Ready,
        project_view(pre.config),
        run,
        op_name,
        tick,
        inputs,
        outputs,
        actions[p],
        actions[p + 1],
    )
    &&& (frames_left(pre, pre.tracker.keys().len() as int + 2) ==> actions[p] is SendRequest && actions[p
        + 1] is SendRequest)
}

/// What handling one decoded event does to the mediator's state, and which
/// actions — with their exact framed content — it returns.
pub open spec fn event_effects(
    pre: EventMediator,
    post: EventMediator,
    e: EventView,
    actions: Seq<Action>,
) -> bool {
    &&& post.tracker.wf()
    &&& post.link.state() == pre.link.state()
    &&& post.config == pre.config
    &&& (forall|j: int| 0 <= j < actions.len() ==> !((#[trigger] actions[j]) is ReportDecodeError))
    &&& match e {
        EventView::SessionInit { session_id, tick, level_name } => {
            let chg = session_changed(pre.correlator.current_session(), session_id);
            &&& atomic_event_effects(
                pre,
                post,
                session_id,
                tick,
                level_name,
                "session_init"@,
                init_inputs_obj(tick, level_name),
                init_outputs_obj(level_name),
                actions,
            )
            &&& (chg ==> post.tracker.calls().len() == 0)
            &&& (!chg ==> post.tracker.calls() == pre.tracker.calls())
        },
        EventView::Stats { session_id, cycle, tick, player, screenshot_path, production, consumption } => {
            let chg = session_changed(pre.correlator.current_session(), session_id);
            let run = post.correlator.current_session()->Some_0.internal_run_id;
            let p = prefix_len(pre, chg);
            let seen_p0 = if chg {
                Seq::<Seq<char>>::empty()
            } else {
                pre.metrics.seen_production()
            };
            let seen_c0 = if chg {
                Seq::<Seq<char>>::empty()
            } else {
                pre.metrics.seen_consumption()
            };
            let snaps: int = if player is Some && screenshot_path is Some {
                1
            } else {
                0
            };
            &&& session_advanced(
                pre.correlator.current_session(),
                post.correlator.current_session(),
                session_id,
                tick,
            )
            &&& transition_prefix(pre, run, tick, "unknown"@, actions, chg)
            &&& post.tracker.calls() =~= base_calls(pre, chg)
            &&& post.metrics.seen_production() == extend_seen(seen_p0, names_of(production))
            &&& post.metrics.seen_consumption() == extend_seen(seen_c0, names_of(consumption))
            &&& actions.len() == p + 1 + snaps
            &&& (actions[p] matches Action::LogMetrics { step, metrics } && (step == cycle
                && pairs_view(metrics@) == merged(
                post.metrics.seen_production(),
                production,
                "production/"@,
            ) + merged(post.metrics.seen_consumption(), consumption, "consumption/"@)))
            &&& (snaps == 1 ==> (actions[p + 1] matches Action::FetchSnapshot {
                tick: t,
                player: pl,
                path,
            } && (t == tick && pl@ == player->Some_0 && path@ == screenshot_path->Some_0)))
        },
        EventView::ResearchStarted { session_id, tick, tech_name, tech_level } => {
            let chg = session_changed(pre.correlator.current_session(), session_id);
            let run = post.correlator.current_session()->Some_0.internal_run_id;
            let p = prefix_len(pre, chg);
            let key = tech_name + seq![':'] + dec_digits(tech_level as nat);
            let c = post.tracker.calls()[key];
            &&& session_advanced(
                pre.correlator.current_session(),
                post.correlator.current_session(),
                session_id,
                tick,
            )
            &&& transition_prefix(pre, run, tick, "unknown"@, actions, chg)
            &&& post.tracker.calls().contains_key(key)
            &&& c.start_tick == tick
            &&& c.session_id == run
            &&& json_safe(c.call_id) && c.call_id.len() == 36
            &&& json_safe(c.trace_id) && c.trace_id.len() == 36
            &&& c.inputs == research_plain_inputs(tech_name, tech_level)
            &&& post.tracker.calls() =~= base_calls(pre, chg).insert(key, c)
            &&& actions.len() == p + 1
            &&& start_span_attempted(
                pre.link.state() is Ready,
                project_view(pre.config),
                c.call_id,
                c.trace_id,
                run,
                "research"@,
                tick,
                research_inputs_obj(tech_name, tech_level),
                actions[p],
            )
            &&& (frames_left(pre, pre.tracker.keys().len() as int + 2) ==> actions[p] is SendRequest)
        },
        EventView::ResearchFinished { session_id, tick, tech_name, tech_level } => {
            let chg = session_changed(pre.correlator.current_session(), session_id);
            let run = post.correlator.current_session()->Some_0.internal_run_id;
            let p = prefix_len(pre, chg);
            let key = tech_name + seq![':'] + dec_digits(tech_level as nat);
            let base = base_calls(pre, chg);
            &&& session_advanced(
                pre.correlator.current_session(),
                post.correlator.current_session(),
                session_id,
                tick,
            )
            &&& transition_prefix(pre, run, tick, "unknown"@, actions, chg)
            &&& actions.len() == p + 1
            &&& (base.contains_key(key) ==> {
                let c = base[key];
                &&& post.tracker.calls() =~= base.remove(key)
                &&& end_span_attempted(
                    pre.link.state() is Ready,
                    project_view(pre.config),
                    c.call_id,
                    c.session_id,
                    true,
                    research_outputs_obj(tech_name, tech_level),
                    tick,
                    if tick >= c.start_tick {
                        (tick - c.start_tick) as u64
                    } else {
                        0
                    },
                    actions[p],
                )
                &&& (frames_left(pre, pre.tracker.keys().len() as int + 2) ==> actions[p] is SendRequest)
            })
            &&& (!base.contains_key(key) ==> post.tracker.calls() =~= base && (actions[p]
                matches Action::ReportCallNotFound { logical_id } && logical_id@ == key))
        },
        EventView::EntityBuilt { session_id, tick, player_index, entity, x, y, surface } =>
            atomic_event_effects(
                pre,
                post,
                session_id,
                tick,
                "unknown"@,
                "on_built_entity"@,
                entity_inputs_obj(player_index, entity, x, y, surface),
                entity_outputs_obj(entity, surface),
                actions,
            ),
        EventView::EntityMined { session_id, tick, player_index, entity, x, y, surface } =>
            atomic_event_effects(
                pre,
                post,
                session_id,
                tick,
                "unknown"@,
                "on_player_mined_entity"@,
                entity_inputs_obj(player_index, entity, x, y, surface),
                entity_outputs_obj(entity, surface),
                actions,
            ),
        EventView::ItemCrafted { session_id, tick, player_index, item, count } =>
            atomic_event_effects(
                pre,
                post,
                session_id,
                tick,
                "unknown"@,
                "on_player_crafted_item"@,
                crafted_inputs_obj(player_index, item, count),
                crafted_outputs_obj(item, count),
                actions,
            ),
        EventView::OtherGame { event_name, session_id, tick } => {
            let chg = session_changed(pre.correlator.current_session(), session_id);
            let run = post.correlator.current_session()->Some_0.internal_run_id;
            let p = prefix_len(pre, chg);
            &&& session_advanced(
                pre.correlator.current_session(),
                post.correlator.current_session(),
                session_id,
                tick,
            )
            &&& transition_prefix(pre, run, tick, "unknown"@, actions, chg)
            &&& post.tracker.calls() =~= base_calls(pre, chg)
            &&& actions.len() == p + 1
            &&& (actions[p] matches Action::ReportUnknownEvent { event_name: en } && en@
                == event_name)
        },
    }
}

/// What handling one raw line does: a malformed line is reported and
/// changes nothing; a decoded event has its event effects.
pub open spec fn line_effects(
    pre: EventMediator,
    post: EventMediator,
    line: Seq<char>,
    actions: Seq<Action>,
) -> bool {
    match dec_line(line) {
        None => post == pre && actions.len() == 1 && actions[0] is ReportDecodeError,
        Some(v) => event_effects(pre, post, v, actions),
    }
}

/// What handling a whole batch does: the lines are handled strictly in
/// order, each one relating its pre- and post-state as `line_effects` says,
/// and the actions are their actions concatenated in the same order.
pub open spec fn batch_effects(
    pre: EventMediator,
    post: EventMediator,
    lines: Seq<Seq<char>>,
    actions: Seq<Action>,
) -> bool
    decreases lines.len(),
{
    if lines.len() == 0 {
        post == pre && actions.len() == 0
    } else {
        exists|mid: EventMediator, front: Seq<Action>, last: Seq<Action>|
            #![trigger line_effects(mid, post, lines.last(), last), front.add(last)]
            {
                &&& batch_effects(pre, mid, lines.drop_last(), front)
                &&& line_effects(mid, post, lines.last(), last)
                &&& actions == front + last
            }
    }
}

/// One more handled line extends a batch.
proof fn lemma_batch_step(
    pre: EventMediator,
    mid: EventMediator,
    post: EventMediator,
    lines: Seq<Seq<char>>,
    front: Seq<Action>,
    last: Seq<Action>,
    actions: Seq<Action>,
)
    requires
        lines.len() > 0,
        batch_effects(pre, mid, lines.drop_last(), front),
        line_effects(mid, post, lines.last(), last),
        actions == front + last,
    ensures
        batch_effects(pre, post, lines, actions),
{
}

} // verus!

verus! {

// ---------------------------------------------------------------------------
// Emission helpers
// ---------------------------------------------------------------------------

/// Frame one fire-and-forget `enqueue` request and append the outcome: the
/// framed request, or a transport-error report if the link could not frame
/// one. The appended action carries exactly `params`.
fn emit_enqueue(link: &mut SidecarLink, params: String, actions: &mut Vec<Action>)
    ensures
        final(link).state() == old(link).state(),
        final(link).next_request_id() <= old(link).next_request_id() + 1,
        final(actions)@.len() == old(actions)@.len() + 1,
        forall|j: int| 0 <= j < old(actions)@.len() ==> final(actions)@[j] == old(actions)@[j],
        enqueue_attempted(final(actions)@.last(), old(link).state() is Ready, params@),
        final(actions)@.last() is SendRequest || final(actions)@.last() is ReportTransportError,
        old(link).state() is Ready && old(link).next_request_id() < u64::MAX ==> final(actions)@.last() is SendRequest && final(link).next_request_id() == old(link).next_request_id()
            + 1,
{
    match link.begin_request("enqueue", params.as_str(), true) {
        Ok(request) => {
            let ghost req_id = request.id;
            actions.push(Action::SendRequest { request });
            proof {
                assert(enqueue_sent(actions@.last(), req_id, params@));
            }
        },
        Err(error) => {
            actions.push(Action::ReportTransportError { error });
        },
    }
}

/// Each value wrapped in quotes, turning plain strings into encoded JSON
/// string values.
fn quote_values(ps: &Vec<(String, String)>) -> (r: Vec<(String, String)>)
    ensures
        pairs_view(r@) =~= quoted_view(pairs_view(ps@)),
{
    let ghost target = quoted_view(pairs_view(ps@));
    let mut r: Vec<(String, String)> = Vec::new();
    let mut i: usize = 0;
    while i < ps.len()
        invariant
            target == quoted_view(pairs_view(ps@)),
            i <= ps@.len(),
            pairs_view(r@) =~= target.take(i as int),
        decreases ps@.len() - i,
    {
        let key = ps[i].0.clone();
        let value = quote(ps[i].1.as_str());
        let ghost kv = (key@, value@);
        let ghost before = pairs_view(r@);
        r.push((key, value));
        proof {
            assert(pairs_view(r@) =~= before.push(kv));
            assert(target[i as int] == kv);
            assert(target.take(i + 1 as int) =~= target.take(i as int).push(target[i as int]));
        }
        i = i + 1;
    }
    proof {
        assert(target.take(ps@.len() as int) =~= target);
    }
    r
}

impl EventMediator {
    pub open spec fn wf(self) -> bool {
        self.tracker.wf()
    }

    /// A fresh mediator around the given configuration; the link starts
    /// uninitialized.
    pub fn new(config: WeaveConfig) -> (r: Self)
        ensures
            r.wf(),
            r.correlator.current_session() is None,
            r.tracker.calls() =~= Map::empty(),
            r.link.state() is Unready,
    {
        EventMediator {
            correlator: Correlator::new(),
            tracker: CallTracker::new(),
            metrics: MetricsTracker::new(),
            link: SidecarLink::new(),
            config,
        }
    }

    /// The input object of a start-of-span record: the session first, then
    /// the caller's already-encoded inputs.
    fn start_inputs(&self, session_id: &String, inputs_raw: &Vec<(String, String)>) -> (r: Vec<
        (String, String),
    >)
        ensures
            pairs_view(r@) =~= with_session(session_id@, pairs_view(inputs_raw@)),
    {
        let mut r: Vec<(String, String)> = Vec::new();
        r.push((String::from_str("session_id"), quote(session_id.as_str())));
        let ghost after_session = pairs_view(r@);
        let mut i: usize = 0;
        while i < inputs_raw.len()
            invariant
                i <= inputs_raw@.len(),
                pairs_view(r@) =~= after_session + pairs_view(inputs_raw@).take(i as int),
            decreases inputs_raw@.len() - i,
        {
            let ghost before = pairs_view(r@);
            let entry = (inputs_raw[i].0.clone(), inputs_raw[i].1.clone());
            let ghost kv = (entry.0@, entry.1@);
            r.push(entry);
            proof {
                assert(pairs_view(r@) =~= before.push(kv));
                assert(pairs_view(inputs_raw@)[i as int] == kv);
                assert(pairs_view(inputs_raw@).take(i + 1 as int) =~= pairs_view(
                    inputs_raw@,
                ).take(i as int).push(pairs_view(inputs_raw@)[i as int]));
            }
            i = i + 1;
        }
        proof {
            reveal_strlit("session_id");
            assert(after_session =~= seq![("session_id"@, enc_str(session_id@))]);
            assert(pairs_view(inputs_raw@).take(inputs_raw@.len() as int) =~= pairs_view(
                inputs_raw@,
            ));
        }
        r
    }

    /// The output object of an end-of-span record: the session, the caller's
    /// already-encoded outputs, the success flag, and the end tick.
    fn end_outputs(
        &self,
        session_id: &String,
        outputs_raw: &Vec<(String, String)>,
        success: bool,
        tick: u64,
    ) -> (r: Vec<(String, String)>)
        ensures
            pairs_view(r@) =~= end_object(session_id@, pairs_view(outputs_raw@), success, tick),
    {
        let mut r: Vec<(String, String)> = Vec::new();
        r.push((String::from_str("session_id"), quote(session_id.as_str())));
        let ghost after_session = pairs_view(r@);
        let mut i: usize = 0;
        while i < outputs_raw.len()
            invariant
                i <= outputs_raw@.len(),
                pairs_view(r@) =~= after_session + pairs_view(outputs_raw@).take(i as int),
            decreases outputs_raw@.len() - i,
        {
            let ghost before = pairs_view(r@);
            let entry = (outputs_raw[i].0.clone(), outputs_raw[i].1.clone());
            let ghost kv = (entry.0@, entry.1@);
            r.push(entry);
            proof {
                assert(pairs_view(r@) =~= before.push(kv));
                assert(pairs_view(outputs_raw@)[i as int] == kv);
                assert(pairs_view(outputs_raw@).take(i + 1 as int) =~= pairs_view(
                    outputs_raw@,
                ).take(i as int).push(pairs_view(outputs_raw@)[i as int]));
            }
            i = i + 1;
        }
        proof {
            assert(pairs_view(outputs_raw@).take(outputs_raw@.len() as int) =~= pairs_view(
                outputs_raw@,
            ));
        }
        let flag = if success {
            String::from_str("true")
        } else {
            String::from_str("false")
        };
        let ghost flag_v = flag@;
        let ghost before_flag = pairs_view(r@);
        r.push((String::from_str("success"), flag));
        let ghost before_tick = pairs_view(r@);
        r.push((String::from_str("tick"), crate::codec::u64_to_dec(tick)));
        proof {
            assert(before_tick =~= before_flag.push(("success"@, flag_v)));
            assert(pairs_view(r@) =~= before_tick.push(("tick"@, dec_digits(tick as nat))));
            reveal_strlit("session_id");
            reveal_strlit("success");
            reveal_strlit("tick");
            reveal_strlit("true");
            reveal_strlit("false");
            assert(after_session =~= seq![("session_id"@, enc_str(session_id@))]);
            assert(flag_v == (if success { "true"@ } else { "false"@ }));
            assert(pairs_view(r@) =~= end_object(
                session_id@,
                pairs_view(outputs_raw@),
                success,
                tick,
            ));
        }
        r
    }

    /// Frame the start request of a span; the appended action carries the
    /// exact start payload of this call.
    fn emit_start(
        &mut self,
        call_id: &String,
        trace_id: &String,
        session_id: &String,
        op_name: &str,
        tick: u64,
        inputs_obj: &Vec<(String, String)>,
        actions: &mut Vec<Action>,
    )
        ensures
            final(self).link.state() == old(self).link.state(),
            final(self).link.next_request_id() <= old(self).link.next_request_id() + 1,
            final(self).correlator == old(self).correlator,
            final(self).tracker == old(self).tracker,
            final(self).metrics == old(self).metrics,
            final(self).config == old(self).config,
            final(actions)@.len() == old(actions)@.len() + 1,
            forall|j: int| 0 <= j < old(actions)@.len() ==> final(actions)@[j] == old(actions)@[j],
            start_span_attempted(
                old(self).link.state() is Ready,
                project_view(old(self).config),
                call_id@,
                trace_id@,
                session_id@,
                op_name@,
                tick,
                pairs_view(inputs_obj@),
                final(actions)@.last(),
            ),
            final(actions)@.last() is SendRequest || final(actions)@.last()
                is ReportTransportError,
            old(self).link.state() is Ready && old(self).link.next_request_id() < u64::MAX ==>
                final(actions)@.last() is SendRequest && final(self).link.next_request_id() == old(self).link.next_request_id() + 1,
    {
        let started_at = crate::ids::now_timestamp();
        let composed = self.start_inputs(session_id, inputs_obj);
        let payload = crate::transport::encode_start_payload(
            self.config.project_id().as_str(),
            call_id.as_str(),
            trace_id.as_str(),
            session_id.as_str(),
            op_name,
            started_at.as_str(),
            tick,
            &composed,
        );
        proof {
            assert(pairs_view(composed@) == with_session(session_id@, pairs_view(inputs_obj@)));
            assert(payload@ == enc_start_payload(
                project_view(old(self).config),
                call_id@,
                trace_id@,
                session_id@,
                op_name@,
                started_at@,
                tick,
                with_session(session_id@, pairs_view(inputs_obj@)),
            ));
        }
        emit_enqueue(&mut self.link, payload, actions);
    }

    /// Frame the end request of a span; the appended action carries the
    /// exact end payload of this record.
    fn emit_end(
        &mut self,
        call_id: &String,
        session_id: &String,
        success: bool,
        outputs_obj: &Vec<(String, String)>,
        end_tick: u64,
        duration_ticks: u64,
        actions: &mut Vec<Action>,
    )
        ensures
            final(self).link.state() == old(self).link.state(),
            final(self).link.next_request_id() <= old(self).link.next_request_id() + 1,
            final(self).correlator == old(self).correlator,
            final(self).tracker == old(self).tracker,
            final(self).metrics == old(self).metrics,
            final(self).config == old(self).config,
            final(actions)@.len() == old(actions)@.len() + 1,
            forall|j: int| 0 <= j < old(actions)@.len() ==> final(actions)@[j] == old(actions)@[j],
            end_span_attempted(
                old(self).link.state() is Ready,
                project_view(old(self).config),
                call_id@,
                session_id@,
                success,
                pairs_view(outputs_obj@),
                end_tick,
                duration_ticks,
                final(actions)@.last(),
            ),
            final(actions)@.last() is SendRequest || final(actions)@.last()
                is ReportTransportError,
            old(self).link.state() is Ready && old(self).link.next_request_id() < u64::MAX ==>
                final(actions)@.last() is SendRequest && final(self).link.next_request_id() == old(self).link.next_request_id() + 1,
    {
        let ended_at = crate::ids::now_timestamp();
        let composed = self.end_outputs(session_id, outputs_obj, success, end_tick);
        let payload = crate::transport::encode_end_payload(
            self.config.project_id().as_str(),
            call_id.as_str(),
            ended_at.as_str(),
            success,
            &composed,
            duration_ticks,
        );
        proof {
            assert(pairs_view(composed@) == end_object(
                session_id@,
                pairs_view(outputs_obj@),
                success,
                end_tick,
            ));
            assert(payload@ == enc_end_payload(
                project_view(old(self).config),
                call_id@,
                ended_at@,
                success,
                end_object(session_id@, pairs_view(outputs_obj@), success, end_tick),
                duration_ticks,
            ));
        }
        emit_enqueue(&mut self.link, payload, actions);
    }

    /// Log an instantaneous span: a start immediately followed by an end
    /// with zero duration and success, under one fresh call identifier.
    fn emit_atomic(
        &mut self,
        run_id: &String,
        op_name: &str,
        tick: u64,
        inputs_obj: &Vec<(String, String)>,
        outputs_obj: &Vec<(String, String)>,
        actions: &mut Vec<Action>,
    )
        ensures
            final(self).link.state() == old(self).link.state(),
            final(self).link.next_request_id() <= old(self).link.next_request_id() + 2,
            final(self).correlator == old(self).correlator,
            final(self).tracker == old(self).tracker,
            final(self).metrics == old(self).metrics,
            final(self).config == old(self).config,
            final(actions)@.len() == old(actions)@.len() + 2,
            forall|j: int| 0 <= j < old(actions)@.len() ==> final(actions)@[j] == old(actions)@[j],
            atomic_span_attempted(
                old(self).link.state() is Ready,
                project_view(old(self).config),
                run_id@,
                op_name@,
                tick,
                pairs_view(inputs_obj@),
                pairs_view(outputs_obj@),
                final(actions)@[old(actions)@.len() as int],
                final(actions)@[old(actions)@.len() as int + 1],
            ),
            (final(actions)@[old(actions)@.len() as int] is SendRequest || final(actions)@[old(actions)@.len() as int] is ReportTransportError) && (final(actions)@[old(actions)@.len()
                as int + 1] is SendRequest || final(actions)@[old(actions)@.len() as int + 1]
                is ReportTransportError),
            old(self).link.state() is Ready && old(self).link.next_request_id() as int + 2
                <= u64::MAX as int ==> final(actions)@[old(actions)@.len() as int] is SendRequest
                && final(actions)@[old(actions)@.len() as int + 1] is SendRequest,
    {
        let call_id = crate::ids::time_ordered_id();
        let trace_id = crate::ids::time_ordered_id();
        let ghost base = actions@.len() as int;
        self.emit_start(&call_id, &trace_id, run_id, op_name, tick, inputs_obj, actions);
        let ghost a1 = actions@.last();
        self.emit_end(&call_id, run_id, true, outputs_obj, tick, 0, actions);
        proof {
            assert(actions@[base] == a1);
            assert(start_span_attempted(
                old(self).link.state() is Ready,
                project_view(old(self).config),
                call_id@,
                trace_id@,
                run_id@,
                op_name@,
                tick,
                pairs_view(inputs_obj@),
                actions@[base],
            ));
            assert(end_span_attempted(
                old(self).link.state() is Ready,
                project_view(old(self).config),
                call_id@,
                run_id@,
                true,
                pairs_view(outputs_obj@),
                tick,
                0,
                actions@[base + 1],
            ));
        }
    }

    /// Frame one end-of-span delivery attempt per handed-back record, in
    /// order; the records' deliveries are the whole action list.
    fn close_spans(&mut self, spans: &Vec<EndedSpan>, actions: &mut Vec<Action>)
        requires
            old(actions)@.len() == 0,
        ensures
            final(self).link.state() == old(self).link.state(),
            final(self).link.next_request_id() as int <= old(self).link.next_request_id() as int
                + spans@.len(),
            final(self).correlator == old(self).correlator,
            final(self).tracker == old(self).tracker,
            final(self).metrics == old(self).metrics,
            final(self).config == old(self).config,
            final(actions)@.len() == spans@.len(),
            forall|j: int|
                0 <= j < spans@.len() ==> end_span_attempted(
                    old(self).link.state() is Ready,
                    project_view(old(self).config),
                    spans@[j].call_id@,
                    spans@[j].session_id@,
                    spans@[j].success,
                    quoted_view(pairs_view(spans@[j].outputs@)),
                    spans@[j].end_tick,
                    spans@[j].duration_ticks,
                    #[trigger] final(actions)@[j],
                ),
            forall|j: int|
                0 <= j < spans@.len() ==> ((#[trigger] final(actions)@[j]) is SendRequest || final(actions)@[j] is ReportTransportError),
            old(self).link.state() is Ready && old(self).link.next_request_id() as int
                + spans@.len() <= u64::MAX as int ==> (forall|j: int|
                0 <= j < spans@.len() ==> (#[trigger] final(actions)@[j]) is SendRequest) && final(self).link.next_request_id() as int == old(self).link.next_request_id() as int
                + spans@.len(),
    {
        let ghost ready0 = old(self).link.state() is Ready;
        let ghost id0 = old(self).link.next_request_id() as int;
        let mut i: usize = 0;
        while i < spans.len()
            invariant
                i <= spans@.len(),
                self.link.state() == old(self).link.state(),
                ready0 == (old(self).link.state() is Ready),
                id0 == old(self).link.next_request_id() as int,
                self.link.next_request_id() as int <= id0 + i,
                self.correlator == old(self).correlator,
                self.tracker == old(self).tracker,
                self.metrics == old(self).metrics,
                self.config == old(self).config,
                actions@.len() == i,
                forall|j: int|
                    0 <= j < i ==> end_span_attempted(
                        ready0,
                        project_view(old(self).config),
                        spans@[j].call_id@,
                        spans@[j].session_id@,
                        spans@[j].success,
                        quoted_view(pairs_view(spans@[j].outputs@)),
                        spans@[j].end_tick,
                        spans@[j].duration_ticks,
                        #[trigger] actions@[j],
                    ),
                forall|j: int|
                    0 <= j < i ==> ((#[trigger] actions@[j]) is SendRequest || actions@[j]
                        is ReportTransportError),
                ready0 && id0 + spans@.len() <= u64::MAX as int ==> (forall|j: int|
                    0 <= j < i ==> (#[trigger] actions@[j]) is SendRequest)
                    && self.link.next_request_id() as int == id0 + i,
            decreases spans@.len() - i,
        {
            let span = &spans[i];
            let quoted = quote_values(&span.outputs);
            proof {
                assert(pairs_view(quoted@) == quoted_view(pairs_view(span.outputs@)));
            }
            let ghost prev = actions@;
            let ghost prev_id = self.link.next_request_id() as int;
            self.emit_end(
                &span.call_id,
                &span.session_id,
                span.success,
                &quoted,
                span.end_tick,
                span.duration_ticks,
                actions,
            );
            proof {
                let k = i as int;
                assert(forall|j: int| 0 <= j < prev.len() ==> actions@[j] == prev[j]);
                assert(actions@.last() == actions@[k]);
                if ready0 && id0 + spans@.len() <= u64::MAX as int {
                    assert(prev_id == id0 + k);
                    assert(prev_id < u64::MAX as int);
                    assert(actions@[k] is SendRequest);
                }
            }
            i = i + 1;
        }
    }
}

} // verus!

verus! {

/// A transition prefix survives appending more actions.
proof fn lemma_prefix_transfer(
    pre: EventMediator,
    run: Seq<char>,
    tick: u64,
    level: Seq<char>,
    chg: bool,
    a1: Seq<Action>,
    a2: Seq<Action>,
)
    requires
        transition_prefix(pre, run, tick, level, a1, chg),
        a1.len() >= prefix_len(pre, chg),
        a2.len() >= a1.len(),
        forall|j: int| 0 <= j < a1.len() ==> a2[j] == a1[j],
    ensures
        transition_prefix(pre, run, tick, level, a2, chg),
{
    if chg {
        let n = pre.tracker.keys().len() as int;
        let f: int = if pre.correlator.current_session() is Some {
            1
        } else {
            0
        };
        assert forall|j: int| 0 <= j < n implies span_force_closed(
            pre.link.state() is Ready,
            project_view(pre.config),
            pre.tracker.calls()[pre.tracker.keys()[j]],
            #[trigger] a2[j],
        ) by {
            assert(a2[j] == a1[j]);
        }
        assert(a2[n] == a1[n]);
        assert(a2[n + f] == a1[n + f]);
        if frames_left(pre, n) {
            assert forall|j: int| 0 <= j < n implies (#[trigger] a2[j]) is SendRequest by {
                assert(a2[j] == a1[j]);
            }
        }
    }
}

impl EventMediator {
    /// Observe the event's session identifier; on an identity change,
    /// force-close every open span, finish the old dashboard run, clear the
    /// per-session metric names, and begin a new run. The appended actions
    /// are exactly the transition prefix.
    fn advance_session(
        &mut self,
        sid: &str,
        tick: u64,
        level_name: &str,
        actions: &mut Vec<Action>,
    ) -> (run_id: String)
        requires
            old(self).wf(),
            old(actions)@.len() == 0,
        ensures
            final(self).wf(),
            final(self).link.state() == old(self).link.state(),
            final(self).config == old(self).config,
            session_advanced(
                old(self).correlator.current_session(),
                final(self).correlator.current_session(),
                sid@,
                tick,
            ),
            final(self).correlator.current_session() is Some,
            run_id@ == final(self).correlator.current_session()->Some_0.internal_run_id,
            transition_prefix(
                *old(self),
                run_id@,
                tick,
                level_name@,
                final(actions)@,
                session_changed(old(self).correlator.current_session(), sid@),
            ),
            final(actions)@.len() == prefix_len(
                *old(self),
                session_changed(old(self).correlator.current_session(), sid@),
            ),
            session_changed(old(self).correlator.current_session(), sid@) ==> final(self).tracker.calls() =~= Map::<Seq<char>, CallContextView>::empty() && final(self).metrics.seen_production() =~= Seq::<Seq<char>>::empty() && final(self).metrics.seen_consumption() =~= Seq::<Seq<char>>::empty(),
            !session_changed(old(self).correlator.current_session(), sid@) ==> final(self).tracker
                == old(self).tracker && final(self).metrics == old(self).metrics && final(self).link == old(self).link,
            final(self).link.next_request_id() as int <= old(self).link.next_request_id() as int
                + old(self).tracker.keys().len(),
            session_changed(old(self).correlator.current_session(), sid@) && frames_left(
                *old(self),
                old(self).tracker.keys().len() as int,
            ) ==> final(self).link.next_request_id() as int == old(self).link.next_request_id() as int + old(self).tracker.keys().len(),
            forall|j: int|
                0 <= j < final(actions)@.len() ==> !((#[trigger] final(actions)@[j])
                    is ReportDecodeError) && !(final(actions)@[j] is ReportCallNotFound) && !(
                final(actions)@[j] is ReportUnknownEvent) && !(final(actions)@[j] is LogMetrics)
                    && !(final(actions)@[j] is FetchSnapshot),
    {
        let ghost pre = *old(self);
        let ghost chg = session_changed(old(self).correlator.current_session(), sid@);
        let suffix = crate::ids::random_suffix();
        let change = self.correlator.observe(sid, tick, suffix);
        proof {
            assert(change.created == chg);
        }
        if change.created {
            let ghost n = pre.tracker.keys().len() as int;
            let spans = self.tracker.force_close_all();
            self.close_spans(&spans, actions);
            proof {
                assert(spans@.len() == n);
                assert forall|j: int| 0 <= j < n implies span_force_closed(
                    pre.link.state() is Ready,
                    project_view(pre.config),
                    pre.tracker.calls()[pre.tracker.keys()[j]],
                    #[trigger] actions@[j],
                ) by {
                    let c = pre.tracker.calls()[pre.tracker.keys()[j]];
                    assert(quoted_view(pairs_view(spans@[j].outputs@)) =~= Seq::<
                        (Seq<char>, Seq<char>),
                    >::empty());
                    assert(spans@[j].call_id@ == c.call_id);
                    assert(spans@[j].session_id@ == c.session_id);
                    assert(spans@[j].end_tick == c.start_tick);
                    assert(end_span_attempted(
                        pre.link.state() is Ready,
                        project_view(pre.config),
                        c.call_id,
                        c.session_id,
                        false,
                        Seq::empty(),
                        c.start_tick,
                        0,
                        actions@[j],
                    ));
                }
            }
            let ghost f: int = if pre.correlator.current_session() is Some {
                1
            } else {
                0
            };
            match change.finalized {
                Some(old_run) => {
                    actions.push(Action::FinishMetricsRun { run_id: old_run });
                },
                None => {},
            }
            proof {
                assert(actions@.len() == n + f);
            }
            self.metrics.clear();
            actions.push(
                Action::BeginMetricsRun {
                    run_id: change.run_id.clone(),
                    tick,
                    level_name: level_name.to_owned(),
                },
            );
            proof {
                assert(actions@[n + f] matches Action::BeginMetricsRun { run_id, tick: t, level_name: l }
                    && (run_id@ == change.run_id@ && t == tick && l@ == level_name@));
            }
        }
        change.run_id
    }
}

} // verus!

verus! {

impl EventMediator {
    /// Route one decoded event: correlate its session, update the span and
    /// metric state, and return the actions — every framed request line
    /// pinned — that carry the effects outward.
    #[verifier::rlimit(100)]
    #[verifier::spinoff_prover]
    pub fn handle_event(&mut self, e: ParsedEvent) -> (r: Vec<Action>)
        requires
            old(self).wf(),
        ensures
            final(self).wf(),
            event_effects(*old(self), *final(self), e@, r@),
    {
        match e {
            ParsedEvent::SessionInit { session_id, tick, level_name } => {
                let ghost pre = *old(self);
                let ghost chg = session_changed(pre.correlator.current_session(), session_id@);
                let mut actions: Vec<Action> = Vec::new();
                let run_id = self.advance_session(
                    session_id.as_str(),
                    tick,
                    level_name.as_str(),
                    &mut actions,
                );
                let ghost p = actions@.len() as int;
                let ghost mid = *self;
                let ghost mid_actions = actions@;
                let mut inputs: Vec<(String, String)> = Vec::new();
                inputs.push((String::from_str("tick"), crate::codec::u64_to_dec(tick)));
                inputs.push((String::from_str("level_name"), quote(level_name.as_str())));
                let mut outputs: Vec<(String, String)> = Vec::new();
                outputs.push((String::from_str("level_name"), quote(level_name.as_str())));
                proof {
                    reveal_strlit("tick");
                    reveal_strlit("level_name");
                    assert(pairs_view(inputs@) =~= init_inputs_obj(tick, level_name@));
                    assert(pairs_view(outputs@) =~= init_outputs_obj(level_name@));
                }
                self.emit_atomic(&run_id, "session_init", tick, &inputs, &outputs, &mut actions);
                proof {
                    lemma_prefix_transfer(pre, run_id@, tick, level_name@, chg, mid_actions, actions@);
                    assert(atomic_span_attempted(
                        pre.link.state() is Ready,
                        project_view(pre.config),
                        run_id@,
                        "session_init"@,
                        tick,
                        init_inputs_obj(tick, level_name@),
                        init_outputs_obj(level_name@),
                        actions@[p],
                        actions@[p + 1],
                    ));
                    if frames_left(pre, pre.tracker.keys().len() as int + 2) {
                        assert(mid.link.next_request_id() as int + 2 <= u64::MAX as int);
                    }
                    assert forall|j: int| 0 <= j < actions@.len() implies !((#[trigger] actions@[
                    j]) is ReportDecodeError) by {
                        if j < p {
                            assert(actions@[j] == mid_actions[j]);
                        }
                    }
                }
                actions
            },
            ParsedEvent::Stats {
                session_id,
                cycle,
                tick,
                player,
                screenshot_path,
                production,
                consumption,
            } => {
                let ghost pre = *old(self);
                let ghost chg = session_changed(pre.correlator.current_session(), session_id@);
                let mut actions: Vec<Action> = Vec::new();
                let run_id = self.advance_session(
                    session_id.as_str(),
                    tick,
                    "unknown",
                    &mut actions,
                );
                let ghost p = actions@.len() as int;
                let ghost mid = *self;
                let ghost mid_actions = actions@;
                proof {
                    if chg {
                        assert(self.metrics.seen_production() =~= Seq::<Seq<char>>::empty());
                        assert(self.metrics.seen_consumption() =~= Seq::<Seq<char>>::empty());
                    }
                }
                let merged_now = self.metrics.record_and_merge(&production, &consumption);
                let ghost merged_view = pairs_view(merged_now@);
                actions.push(Action::LogMetrics { step: cycle, metrics: merged_now });
                let ghost after_log = actions@;
                match (player, screenshot_path) {
                    (Some(pl), Some(path)) => {
                        actions.push(Action::FetchSnapshot { tick, player: pl, path });
                    },
                    _ => {},
                }
                proof {
                    assert(forall|j: int| 0 <= j < after_log.len() ==> actions@[j] == after_log[
                    j]);
                    assert(forall|j: int| 0 <= j < p ==> actions@[j] == mid_actions[j]);
                    lemma_prefix_transfer(pre, run_id@, tick, "unknown"@, chg, mid_actions, actions@);
                    assert(actions@[p] == after_log[p]);
                    assert(actions@[p] matches Action::LogMetrics { step, metrics }
                        && (step == cycle && pairs_view(metrics@) == merged_view));
                    assert forall|j: int| 0 <= j < actions@.len() implies !((#[trigger] actions@[
                    j]) is ReportDecodeError) by {
                        if j < p {
                            assert(actions@[j] == mid_actions[j]);
                        }
                    }
                }
                actions
            },
            ParsedEvent::ResearchStarted { session_id, tick, tech_name, tech_level } => {
                let ghost pre = *old(self);
                let ghost chg = session_changed(pre.correlator.current_session(), session_id@);
                let mut actions: Vec<Action> = Vec::new();
                let run_id = self.advance_session(
                    session_id.as_str(),
                    tick,
                    "unknown",
                    &mut actions,
                );
                let ghost p = actions@.len() as int;
                let ghost mid = *self;
                let ghost mid_actions = actions@;
                let key = crate::tracker::research_key(tech_name.as_str(), tech_level);
                let ghost keyv = key@;
                let call_id = crate::ids::time_ordered_id();
                let trace_id = crate::ids::time_ordered_id();
                let level_text = crate::codec::u64_to_dec(tech_level as u64);
                let mut plain: Vec<(String, String)> = Vec::new();
                plain.push((String::from_str("tech_name"), tech_name.clone()));
                plain.push((String::from_str("tech_level"), level_text.clone()));
                proof {
                    reveal_strlit("tech_name");
                    reveal_strlit("tech_level");
                    assert(pairs_view(plain@) =~= research_plain_inputs(tech_name@, tech_level));
                }
                let context = CallContext {
                    call_id: call_id.clone(),
                    trace_id: trace_id.clone(),
                    session_id: run_id.clone(),
                    start_tick: tick,
                    inputs: plain,
                };
                let ghost ctxv = context@;
                self.tracker.start_call(key, context);
                let ghost mid2 = *self;
                let mut raw: Vec<(String, String)> = Vec::new();
                raw.push((String::from_str("tech_name"), quote(tech_name.as_str())));
                raw.push((String::from_str("tech_level"), quote(level_text.as_str())));
                proof {
                    assert(pairs_view(raw@) =~= research_inputs_obj(tech_name@, tech_level));
                }
                self.emit_start(
                    &call_id,
                    &trace_id,
                    &run_id,
                    "research",
                    tick,
                    &raw,
                    &mut actions,
                );
                proof {
                    assert(forall|j: int| 0 <= j < p ==> actions@[j] == mid_actions[j]);
                    lemma_prefix_transfer(pre, run_id@, tick, "unknown"@, chg, mid_actions, actions@);
                    assert(self.tracker.calls() =~= base_calls(pre, chg).insert(keyv, ctxv));
                    assert(self.tracker.calls()[keyv] == ctxv);
                    assert(start_span_attempted(
                        pre.link.state() is Ready,
                        project_view(pre.config),
                        ctxv.call_id,
                        ctxv.trace_id,
                        run_id@,
                        "research"@,
                        tick,
                        research_inputs_obj(tech_name@, tech_level),
                        actions@[p],
                    ));
                    if frames_left(pre, pre.tracker.keys().len() as int + 2) {
                        assert(mid2.link.next_request_id() < u64::MAX);
                    }
                    assert forall|j: int| 0 <= j < actions@.len() implies !((#[trigger] actions@[
                    j]) is ReportDecodeError) by {
                        if j < p {
                            assert(actions@[j] == mid_actions[j]);
                        }
                    }
                }
                actions
            },
            ParsedEvent::ResearchFinished { session_id, tick, tech_name, tech_level } => {
                let ghost pre = *old(self);
                let ghost chg = session_changed(pre.correlator.current_session(), session_id@);
                let mut actions: Vec<Action> = Vec::new();
                let run_id = self.advance_session(
                    session_id.as_str(),
                    tick,
                    "unknown",
                    &mut actions,
                );
                let ghost p = actions@.len() as int;
                let ghost mid = *self;
                let ghost mid_actions = actions@;
                let key = crate::tracker::research_key(tech_name.as_str(), tech_level);
                let ghost keyv = key@;
                let level_text = crate::codec::u64_to_dec(tech_level as u64);
                let mut outputs_plain: Vec<(String, String)> = Vec::new();
                outputs_plain.push((String::from_str("tech_name"), tech_name.clone()));
                outputs_plain.push((String::from_str("tech_level"), level_text));
                outputs_plain.push((String::from_str("completed"), String::from_str("true")));
                let ghost plain_view = pairs_view(outputs_plain@);
                proof {
                    reveal_strlit("tech_name");
                    reveal_strlit("tech_level");
                    reveal_strlit("completed");
                    reveal_strlit("true");
                    assert(quoted_view(plain_view) =~= research_outputs_obj(
                        tech_name@,
                        tech_level,
                    ));
                }
                match self.tracker.end_call(key.as_str(), tick, outputs_plain, true) {
                    None => {
                        actions.push(Action::ReportCallNotFound { logical_id: key });
                        proof {
                            assert(forall|j: int| 0 <= j < p ==> actions@[j] == mid_actions[j]);
                            lemma_prefix_transfer(
                                pre,
                                run_id@,
                                tick,
                                "unknown"@,
                                chg,
                                mid_actions,
                                actions@,
                            );
                            assert(actions@[p] matches Action::ReportCallNotFound { logical_id }
                                && logical_id@ == keyv);
                            assert forall|j: int| 0 <= j < actions@.len() implies !((
                            #[trigger] actions@[j]) is ReportDecodeError) by {
                                if j < p {
                                    assert(actions@[j] == mid_actions[j]);
                                }
                            }
                        }
                        actions
                    },
                    Some(span) => {
                        let ghost mid2 = *self;
                        let quoted = quote_values(&span.outputs);
                        proof {
                            assert(pairs_view(quoted@) == quoted_view(plain_view));
                        }
                        self.emit_end(
                            &span.call_id,
                            &span.session_id,
                            span.success,
                            &quoted,
                            span.end_tick,
                            span.duration_ticks,
                            &mut actions,
                        );
                        proof {
                            assert(forall|j: int| 0 <= j < p ==> actions@[j] == mid_actions[j]);
                            lemma_prefix_transfer(
                                pre,
                                run_id@,
                                tick,
                                "unknown"@,
                                chg,
                                mid_actions,
                                actions@,
                            );
                            let c = base_calls(pre, chg)[keyv];
                            assert(c == mid.tracker.calls()[keyv]);
                            assert(end_span_attempted(
                                pre.link.state() is Ready,
                                project_view(pre.config),
                                c.call_id,
                                c.session_id,
                                true,
                                research_outputs_obj(tech_name@, tech_level),
                                tick,
                                if tick >= c.start_tick {
                                    (tick - c.start_tick) as u64
                                } else {
                                    0
                                },
                                actions@[p],
                            ));
                            if frames_left(pre, pre.tracker.keys().len() as int + 2) {
                                assert(mid2.link.next_request_id() < u64::MAX);
                            }
                            assert forall|j: int| 0 <= j < actions@.len() implies !((
                            #[trigger] actions@[j]) is ReportDecodeError) by {
                                if j < p {
                                    assert(actions@[j] == mid_actions[j]);
                                }
                            }
                        }
                        actions
                    },
                }
            },
            ParsedEvent::EntityBuilt { session_id, tick, player_index, entity, x, y, surface } => {
                let ghost pre = *old(self);
                let ghost chg = session_changed(pre.correlator.current_session(), session_id@);
                let ghost xv = x@;
                let ghost yv = y@;
                let mut actions: Vec<Action> = Vec::new();
                let run_id = self.advance_session(
                    session_id.as_str(),
                    tick,
                    "unknown",
                    &mut actions,
                );
                let ghost p = actions@.len() as int;
                let ghost mid = *self;
                let ghost mid_actions = actions@;
                let mut inputs: Vec<(String, String)> = Vec::new();
                inputs.push(
                    (String::from_str("player_index"), crate::codec::u64_to_dec(player_index as u64)),
                );
                inputs.push((String::from_str("entity"), quote(entity.as_str())));
                inputs.push((String::from_str("position_x"), x));
                inputs.push((String::from_str("position_y"), y));
                inputs.push((String::from_str("surface"), quote(surface.as_str())));
                let mut outputs: Vec<(String, String)> = Vec::new();
                outputs.push((String::from_str("entity"), quote(entity.as_str())));
                outputs.push((String::from_str("surface"), quote(surface.as_str())));
                proof {
                    reveal_strlit("player_index");
                    reveal_strlit("entity");
                    reveal_strlit("position_x");
                    reveal_strlit("position_y");
                    reveal_strlit("surface");
                    assert(pairs_view(inputs@) =~= entity_inputs_obj(
                        player_index,
                        entity@,
                        xv,
                        yv,
                        surface@,
                    ));
                    assert(pairs_view(outputs@) =~= entity_outputs_obj(entity@, surface@));
                }
                self.emit_atomic(&run_id, "on_built_entity", tick, &inputs, &outputs, &mut actions);
                proof {
                    lemma_prefix_transfer(pre, run_id@, tick, "unknown"@, chg, mid_actions, actions@);
                    assert(atomic_span_attempted(
                        pre.link.state() is Ready,
                        project_view(pre.config),
                        run_id@,
                        "on_built_entity"@,
                        tick,
                        entity_inputs_obj(player_index, entity@, xv, yv, surface@),
                        entity_outputs_obj(entity@, surface@),
                        actions@[p],
                        actions@[p + 1],
                    ));
                    if frames_left(pre, pre.tracker.keys().len() as int + 2) {
                        assert(mid.link.next_request_id() as int + 2 <= u64::MAX as int);
                    }
                    assert forall|j: int| 0 <= j < actions@.len() implies !((#[trigger] actions@[
                    j]) is ReportDecodeError) by {
                        if j < p {
                            assert(actions@[j] == mid_actions[j]);
                        }
                    }
                }
                actions
            },
            ParsedEvent::EntityMined { session_id, tick, player_index, entity, x, y, surface } => {
                let ghost pre = *old(self);
                let ghost chg = session_changed(pre.correlator.current_session(), session_id@);
                let ghost xv = x@;
                let ghost yv = y@;
                let mut actions: Vec<Action> = Vec::new();
                let run_id = self.advance_session(
                    session_id.as_str(),
                    tick,
                    "unknown",
                    &mut actions,
                );
                let ghost p = actions@.len() as int;
                let ghost mid = *self;
                let ghost mid_actions = actions@;
                let mut inputs: Vec<(String, String)> = Vec::new();
                inputs.push(
                    (String::from_str("player_index"), crate::codec::u64_to_dec(player_index as u64)),
                );
                inputs.push((String::from_str("entity"), quote(entity.as_str())));
                inputs.push((String::from_str("position_x"), x));
                inputs.push((String::from_str("position_y"), y));
                inputs.push((String::from_str("surface"), quote(surface.as_str())));
                let mut outputs: Vec<(String, String)> = Vec::new();
                outputs.push((String::from_str("entity"), quote(entity.as_str())));
                outputs.push((String::from_str("surface"), quote(surface.as_str())));
                proof {
                    reveal_strlit("player_index");
                    reveal_strlit("entity");
                    reveal_strlit("position_x");
                    reveal_strlit("position_y");
                    reveal_strlit("surface");
                    assert(pairs_view(inputs@) =~= entity_inputs_obj(
                        player_index,
                        entity@,
                        xv,
                        yv,
                        surface@,
                    ));
                    assert(pairs_view(outputs@) =~= entity_outputs_obj(entity@, surface@));
                }
                self.emit_atomic(
                    &run_id,
                    "on_player_mined_entity",
                    tick,
                    &inputs,
                    &outputs,
                    &mut actions,
                );
                proof {
                    lemma_prefix_transfer(pre, run_id@, tick, "unknown"@, chg, mid_actions, actions@);
                    assert(atomic_span_attempted(
                        pre.link.state() is Ready,
                        project_view(pre.config),
                        run_id@,
                        "on_player_mined_entity"@,
                        tick,
                        entity_inputs_obj(player_index, entity@, xv, yv, surface@),
                        entity_outputs_obj(entity@, surface@),
                        actions@[p],
                        actions@[p + 1],
                    ));
                    if frames_left(pre, pre.tracker.keys().len() as int + 2) {
                        assert(mid.link.next_request_id() as int + 2 <= u64::MAX as int);
                    }
                    assert forall|j: int| 0 <= j < actions@.len() implies !((#[trigger] actions@[
                    j]) is ReportDecodeError) by {
                        if j < p {
                            assert(actions@[j] == mid_actions[j]);
                        }
                    }
                }
                actions
            },
            ParsedEvent::ItemCrafted { session_id, tick, player_index, item, count } => {
                let ghost pre = *old(self);
                let ghost chg = session_changed(pre.correlator.current_session(), session_id@);
                let mut actions: Vec<Action> = Vec::new();
                let run_id = self.advance_session(
                    session_id.as_str(),
                    tick,
                    "unknown",
                    &mut actions,
                );
                let ghost p = actions@.len() as int;
                let ghost mid = *self;
                let ghost mid_actions = actions@;
                let count_text = crate::codec::u64_to_dec(count as u64);
                let mut inputs: Vec<(String, String)> = Vec::new();
                inputs.push(
                    (String::from_str("player_index"), crate::codec::u64_to_dec(player_index as u64)),
                );
                inputs.push((String::from_str("item"), quote(item.as_str())));
                inputs.push((String::from_str("count"), count_text.clone()));
                let mut outputs: Vec<(String, String)> = Vec::new();
                outputs.push((String::from_str("item"), quote(item.as_str())));
                outputs.push((String::from_str("count"), count_text));
                proof {
                    reveal_strlit("player_index");
                    reveal_strlit("item");
                    reveal_strlit("count");
                    assert(pairs_view(inputs@) =~= crafted_inputs_obj(player_index, item@, count));
                    assert(pairs_view(outputs@) =~= crafted_outputs_obj(item@, count));
                }
                self.emit_atomic(
                    &run_id,
                    "on_player_crafted_item",
                    tick,
                    &inputs,
                    &outputs,
                    &mut actions,
                );
                proof {
                    lemma_prefix_transfer(pre, run_id@, tick, "unknown"@, chg, mid_actions, actions@);
                    assert(atomic_span_attempted(
                        pre.link.state() is Ready,
                        project_view(pre.config),
                        run_id@,
                        "on_player_crafted_item"@,
                        tick,
                        crafted_inputs_obj(player_index, item@, count),
                        crafted_outputs_obj(item@, count),
                        actions@[p],
                        actions@[p + 1],
                    ));
                    if frames_left(pre, pre.tracker.keys().len() as int + 2) {
                        assert(mid.link.next_request_id() as int + 2 <= u64::MAX as int);
                    }
                    assert forall|j: int| 0 <= j < actions@.len() implies !((#[trigger] actions@[
                    j]) is ReportDecodeError) by {
                        if j < p {
                            assert(actions@[j] == mid_actions[j]);
                        }
                    }
                }
                actions
            },
            ParsedEvent::OtherGame { event_name, session_id, tick } => {
                let ghost pre = *old(self);
                let ghost chg = session_changed(pre.correlator.current_session(), session_id@);
                let mut actions: Vec<Action> = Vec::new();
                let run_id = self.advance_session(
                    session_id.as_str(),
                    tick,
                    "unknown",
                    &mut actions,
                );
                let ghost p = actions@.len() as int;
                let ghost mid_actions = actions@;
                actions.push(Action::ReportUnknownEvent { event_name });
                proof {
                    assert(forall|j: int| 0 <= j < p ==> actions@[j] == mid_actions[j]);
                    lemma_prefix_transfer(pre, run_id@, tick, "unknown"@, chg, mid_actions, actions@);
                    assert(actions@[p] matches Action::ReportUnknownEvent { .. });
                    assert forall|j: int| 0 <= j < actions@.len() implies !((#[trigger] actions@[
                    j]) is ReportDecodeError) by {
                        if j < p {
                            assert(actions@[j] == mid_actions[j]);
                        }
                    }
                }
                actions
            },
        }
    }

    /// Decode and route one raw line. A malformed line is reported and
    /// changes nothing; the batch goes on with the next line.
    pub fn handle_line(&mut self, line: &str) -> (r: Vec<Action>)
        requires
            old(self).wf(),
        ensures
            final(self).wf(),
            match dec_line(line@) {
                None => *final(self) == *old(self) && r@.len() == 1 && r@[0] is ReportDecodeError,
                Some(v) => event_effects(*old(self), *final(self), v, r@),
            },
    {
        match crate::wire::decode_line(line) {
            None => {
                let mut actions: Vec<Action> = Vec::new();
                actions.push(Action::ReportDecodeError { line: line.to_owned() });
                actions
            },
            Some(e) => self.handle_event(e),
        }
    }

    /// Route a whole drained batch, strictly in arrival order, one line at
    /// a time; each line's effects are those of `handle_line`, and the
    /// returned actions are theirs, concatenated in the same order.
    pub fn process_events(&mut self, lines: &Vec<String>) -> (r: Vec<Action>)
        requires
            old(self).wf(),
        ensures
            final(self).wf(),
            batch_effects(*old(self), *final(self), lines@.map_values(|s: String| s@), r@),
    {
        let ghost views = lines@.map_values(|s: String| s@);
        let mut actions: Vec<Action> = Vec::new();
        let mut i: usize = 0;
        while i < lines.len()
            invariant
                views == lines@.map_values(|s: String| s@),
                self.wf(),
                i <= lines@.len(),
                batch_effects(*old(self), *self, views.take(i as int), actions@),
            decreases lines@.len() - i,
        {
            let ghost pre_step = *self;
            let ghost acts_before = actions@;
            let mut step = self.handle_line(lines[i].as_str());
            let ghost step_acts = step@;
            proof {
                assert(views[i as int] == lines@[i as int]@);
                assert(line_effects(pre_step, *self, views[i as int], step_acts));
            }
            actions.append(&mut step);
            proof {
                let taken = views.take(i + 1 as int);
                assert(taken.drop_last() =~= views.take(i as int));
                assert(taken.last() == views[i as int]);
                assert(batch_effects(*old(self), pre_step, taken.drop_last(), acts_before));
                assert(line_effects(pre_step, *self, taken.last(), step_acts));
                assert(actions@ == acts_before + step_acts);
                lemma_batch_step(
                    *old(self),
                    pre_step,
                    *self,
                    taken,
                    acts_before,
                    step_acts,
                    actions@,
                );
            }
            i = i + 1;
        }
        proof {
            assert(views.take(lines@.len() as int) =~= views);
        }
        actions
    }

    /// Log the player snapshot fetched for a stats event as an
    /// instantaneous span carrying the inline image.
    pub fn on_snapshot(
        &mut self,
        tick: u64,
        player: &PlayerSnapshot,
        path: &str,
        bytes: &Vec<u8>,
    ) -> (r: Vec<Action>)
        requires
            old(self).wf(),
        ensures
            final(self).wf(),
            final(self).link.state() == old(self).link.state(),
            final(self).correlator == old(self).correlator,
            final(self).tracker == old(self).tracker,
            final(self).metrics == old(self).metrics,
            final(self).config == old(self).config,
            old(self).correlator.current_session() is None ==> r@.len() == 1 && r@[0]
                is ReportNoSession,
            old(self).correlator.current_session() is Some ==> {
                &&& r@.len() == 2
                &&& atomic_span_attempted(
                    old(self).link.state() is Ready,
                    project_view(old(self).config),
                    old(self).correlator.current_session()->Some_0.internal_run_id,
                    "player_snapshot"@,
                    tick,
                    snapshot_inputs_obj(player@, bytes@),
                    snapshot_outputs_obj(path@),
                    r@[0],
                    r@[1],
                )
                &&& (old(self).link.state() is Ready && old(self).link.next_request_id() as int + 2
                    <= u64::MAX as int ==> r@[0] is SendRequest && r@[1] is SendRequest)
            },
            forall|j: int| 0 <= j < r@.len() ==> !((#[trigger] r@[j]) is ReportDecodeError),
    {
        let mut actions: Vec<Action> = Vec::new();
        match self.correlator.current_run_id() {
            None => {
                actions.push(
                    Action::ReportNoSession { operation: String::from_str("player_snapshot") },
                );
                actions
            },
            Some(run_id) => {
                let uri = crate::snapshot::data_uri_png(bytes);
                let image = String::from_str("{\"_type\":\"Image\",\"data\":").concat(
                    quote(uri.as_str()).as_str(),
                ).concat("}");
                proof {
                    assert(image@ == image_value(bytes@));
                }
                let mut inputs: Vec<(String, String)> = Vec::new();
                inputs.push((String::from_str("position_x"), player.x.clone()));
                inputs.push((String::from_str("position_y"), player.y.clone()));
                inputs.push((String::from_str("surface"), quote(player.surface.as_str())));
                inputs.push((String::from_str("health"), player.health.clone()));
                inputs.push((String::from_str("screenshot"), image));
                let mut outputs: Vec<(String, String)> = Vec::new();
                outputs.push((String::from_str("screenshot_path"), quote(path)));
                proof {
                    reveal_strlit("position_x");
                    reveal_strlit("position_y");
                    reveal_strlit("surface");
                    reveal_strlit("health");
                    reveal_strlit("screenshot");
                    reveal_strlit("screenshot_path");
                    assert(pairs_view(inputs@) =~= snapshot_inputs_obj(player@, bytes@));
                    assert(pairs_view(outputs@) =~= snapshot_outputs_obj(path@));
                }
                self.emit_atomic(&run_id, "player_snapshot", tick, &inputs, &outputs, &mut actions);
                proof {
                    assert(atomic_span_attempted(
                        old(self).link.state() is Ready,
                        project_view(old(self).config),
                        old(self).correlator.current_session()->Some_0.internal_run_id,
                        "player_snapshot"@,
                        tick,
                        snapshot_inputs_obj(player@, bytes@),
                        snapshot_outputs_obj(path@),
                        actions@[0],
                        actions@[1],
                    ));
                }
                actions
            },
        }
    }

    /// Explicit shutdown: force-close every open span — delivering one
    /// failed end request per span — finalize the current session, and
    /// finish its dashboard run. The caller then drives the sidecar
    /// shutdown by `plan_shutdown`.
    pub fn shutdown(&mut self) -> (r: Vec<Action>)
        requires
            old(self).wf(),
        ensures
            final(self).wf(),
            final(self).tracker.calls() =~= Map::<Seq<char>, CallContextView>::empty(),
            final(self).correlator.current_session() is None,
            final(self).link.state() == old(self).link.state(),
            r@.len() == old(self).tracker.keys().len() + (
            if old(self).correlator.current_session() is Some {
                1int
            } else {
                0int
            }),
            forall|j: int|
                0 <= j < old(self).tracker.keys().len() ==> span_force_closed(
                    old(self).link.state() is Ready,
                    project_view(old(self).config),
                    old(self).tracker.calls()[old(self).tracker.keys()[j]],
                    #[trigger] r@[j],
                ),
            old(self).correlator.current_session() is Some ==> (r@[old(self).tracker.keys().len() as int] matches Action::FinishMetricsRun { run_id } && run_id@
                == old(self).correlator.current_session()->Some_0.internal_run_id),
            old(self).link.state() is Ready && old(self).link.next_request_id() as int + old(self).tracker.keys().len() <= u64::MAX as int ==> forall|j: int|
                0 <= j < old(self).tracker.keys().len() ==> (#[trigger] r@[j]) is SendRequest,
            forall|j: int| 0 <= j < r@.len() ==> !((#[trigger] r@[j]) is ReportDecodeError),
    {
        let ghost pre = *old(self);
        let mut actions: Vec<Action> = Vec::new();
        let ghost n = pre.tracker.keys().len() as int;
        let spans = self.tracker.force_close_all();
        self.close_spans(&spans, &mut actions);
        proof {
            assert(spans@.len() == n);
            assert forall|j: int| 0 <= j < n implies span_force_closed(
                pre.link.state() is Ready,
                project_view(pre.config),
                pre.tracker.calls()[pre.tracker.keys()[j]],
                #[trigger] actions@[j],
            ) by {
                let c = pre.tracker.calls()[pre.tracker.keys()[j]];
                assert(quoted_view(pairs_view(spans@[j].outputs@)) =~= Seq::<
                    (Seq<char>, Seq<char>),
                >::empty());
                assert(spans@[j].call_id@ == c.call_id);
                assert(spans@[j].session_id@ == c.session_id);
                assert(spans@[j].end_tick == c.start_tick);
                assert(end_span_attempted(
                    pre.link.state() is Ready,
                    project_view(pre.config),
                    c.call_id,
                    c.session_id,
                    false,
                    Seq::empty(),
                    c.start_tick,
                    0,
                    actions@[j],
                ));
            }
        }
        match self.correlator.close() {
            Some(run_id) => {
                actions.push(Action::FinishMetricsRun { run_id });
            },
            None => {},
        }
        actions
    }
}

} // verus!
