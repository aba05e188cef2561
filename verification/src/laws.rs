//! Whole-stream laws of the middleware.
//!
//! The event functions of `stage` each pin down one step.  This module
//! states what holds across a whole request: an event trace is a sequence
//! of observable events, `flow_step` says that one event moved the flow
//! and the registry exactly as the corresponding event function's contract
//! allows, and `flow_run` chains steps.  The proof functions then give the
//! per-request guarantees: the request total moves exactly once, exactly
//! one latency sample lands with the first-frame value, exactly one class
//! observation lands with the classifier's verdict, two interleaved
//! requests lose no update, and a dead record absorbs nothing.

use vstd::prelude::*;
use crate::classify::{Class, ClassifyEos, ClassifyResponse, Trailers};
use crate::counter::{sat_add, sat_incr};
use crate::histogram::bucket_index;
use crate::registry::Registry;
use crate::stage::{
    class_added_opt, eos_class_step, error_class_step, latency_step, marked_opt, RequestBody,
    ResponseBody, ResponseFuture,
};

verus! {

/// One observable event in a request's life, with the instant the caller
/// reported it.
pub enum FlowEvent {
    /// A request-body frame flowed, or the request body hit end of stream.
    ReqData { now: u64 },
    /// The response head arrived.
    RespHead { status: u16 },
    /// A response-body data frame flowed.
    RespData { now: u64 },
    /// The trailer block ended the response stream.
    RespTrailers { trailers: Option<Trailers>, now: u64 },
    /// A transport error ended the response stream.
    RespError { now: u64 },
    /// The inner service failed before any response head.
    InnerError { now: u64 },
    /// The response body was dropped without explicit completion.
    Dropped { now: u64 },
}

/// The response-side phase of a flow.
pub enum RespState<C: ClassifyResponse> {
    Pending(ResponseFuture<C>),
    Open(ResponseBody<C::Eos>),
    Done,
}

/// One request in flight: its request-side and response-side states.
pub struct Flow<C: ClassifyResponse> {
    pub req: RequestBody,
    pub resp: RespState<C>,
}

/// One event moved the flow and the registry as the matching event
/// function's contract allows.
pub open spec fn flow_step<C: ClassifyResponse>(
    r0: Registry,
    f0: Flow<C>,
    ev: FlowEvent,
    r1: Registry,
    f1: Flow<C>,
) -> bool {
    match ev {
        FlowEvent::ReqData { now } => {
            &&& f1.resp == f0.resp
            &&& f1.req.metrics is None
            &&& marked_opt(r0, r1, f0.req.metrics, now)
        },
        FlowEvent::RespHead { status } => {
            &&& f1.req == f0.req
            &&& r1 == r0
            &&& match f0.resp {
                RespState::Pending(fut) => f1.resp == (RespState::<C>::Open(
                    ResponseBody {
                        status,
                        classify: Some(fut.classify.start_spec(status)),
                        metrics: fut.metrics,
                        stream_open_at: fut.stream_open_at,
                        latency_recorded: false,
                    },
                )),
                _ => false,
            }
        },
        FlowEvent::RespData { now } => {
            &&& f1.req == f0.req
            &&& match (f0.resp, f1.resp) {
                (RespState::Open(b0), RespState::Open(b1)) => {
                    &&& now >= b0.stream_open_at
                    &&& latency_step(b0, b1, r0, r1, now)
                },
                _ => false,
            }
        },
        FlowEvent::RespTrailers { trailers, now } => {
            &&& f1.req == f0.req
            &&& match (f0.resp, f1.resp) {
                (RespState::Open(b0), RespState::Open(b1)) => {
                    &&& now >= b0.stream_open_at
                    &&& exists|mid_b: ResponseBody<C::Eos>, mid_r: Registry|
                        #[trigger] latency_step(b0, mid_b, r0, mid_r, now) && eos_class_step(
                            mid_b,
                            b1,
                            mid_r,
                            r1,
                            trailers,
                            now,
                        )
                },
                _ => false,
            }
        },
        FlowEvent::RespError { now } => {
            &&& f1.req == f0.req
            &&& match (f0.resp, f1.resp) {
                (RespState::Open(b0), RespState::Open(b1)) => error_class_step(
                    b0,
                    b1,
                    r0,
                    r1,
                    now,
                ),
                _ => false,
            }
        },
        FlowEvent::InnerError { now } => {
            &&& f1.req == f0.req
            &&& match f0.resp {
                RespState::Pending(fut) => {
                    &&& f1.resp is Done
                    &&& class_added_opt(r0, r1, fut.metrics, None, fut.classify.error_spec(), now)
                },
                _ => false,
            }
        },
        FlowEvent::Dropped { now } => {
            &&& f1.req == f0.req
            &&& match (f0.resp, f1.resp) {
                (RespState::Open(b0), RespState::Open(b1)) => {
                    &&& now >= b0.stream_open_at
                    &&& exists|mid_b: ResponseBody<C::Eos>, mid_r: Registry|
                        #[trigger] latency_step(b0, mid_b, r0, mid_r, now) && eos_class_step(
                            mid_b,
                            b1,
                            mid_r,
                            r1,
                            None,
                            now,
                        )
                },
                _ => false,
            }
        },
    }
}

/// A chain of steps through every event of the trace.
pub open spec fn flow_run<C: ClassifyResponse>(
    r0: Registry,
    f0: Flow<C>,
    evs: Seq<FlowEvent>,
    r1: Registry,
    f1: Flow<C>,
) -> bool
    decreases evs.len(),
{
    if evs.len() == 0 {
        &&& r1 == r0
        &&& f1 == f0
    } else {
        exists|rm: Registry, fm: Flow<C>|
            #[trigger] flow_step(r0, f0, evs[0], rm, fm) && flow_run(
                rm,
                fm,
                evs.drop_first(),
                r1,
                f1,
            )
    }
}

/// Every handle the flow holds names target `k`.
pub open spec fn flow_keyed<C: ClassifyResponse>(f: Flow<C>, k: u64) -> bool {
    &&& (f.req.metrics is Some ==> f.req.metrics == Some(k))
    &&& match f.resp {
        RespState::Pending(fut) => fut.metrics is Some ==> fut.metrics == Some(k),
        RespState::Open(b) => b.metrics is Some ==> b.metrics == Some(k),
        RespState::Done => true,
    }
}

/// Whether the request-side latch was spent between two flow states.
pub open spec fn req_counted<C: ClassifyResponse>(f0: Flow<C>, f1: Flow<C>) -> bool {
    f0.req.metrics is Some && f1.req.metrics is None
}

/// The request total moves with the request-side latch and with nothing
/// else: across any event trace of a flow keyed to a live record, the
/// total grows by one increment exactly when the flow's first request-body
/// report spent the handle, whatever else the stream did — trailers,
/// errors, cancellation included.
pub proof fn lemma_total_once<C: ClassifyResponse>(
    r0: Registry,
    f0: Flow<C>,
    evs: Seq<FlowEvent>,
    r1: Registry,
    f1: Flow<C>,
    k: u64,
)
    requires
        flow_run(r0, f0, evs, r1, f1),
        flow_keyed(f0, k),
        r0.live(k),
    ensures
        r1.live(k),
        flow_keyed(f1, k),
        r1.bounds@ == r0.bounds@,
        r1.total(k) == if req_counted(f0, f1) {
            sat_incr(r0.total(k))
        } else {
            r0.total(k)
        },
        f0.req.metrics is None ==> f1.req.metrics is None,
    decreases evs.len(),
{
    if evs.len() == 0 {
    } else {
        let (rm, fm) = choose|rm: Registry, fm: Flow<C>|
            #[trigger] flow_step(r0, f0, evs[0], rm, fm) && flow_run(
                rm,
                fm,
                evs.drop_first(),
                r1,
                f1,
            );
        lemma_step_keyed_live(r0, f0, evs[0], rm, fm, k);
        lemma_total_once(rm, fm, evs.drop_first(), r1, f1, k);
    }
}

/// The headline reading of `lemma_total_once`: a flow that dispatched with
/// its latch armed and whose request body reported at least once ends with
/// the target's total exactly one higher — however the stream went on,
/// success, failure, or cancellation included.
pub proof fn lemma_total_counted<C: ClassifyResponse>(
    r0: Registry,
    f0: Flow<C>,
    evs: Seq<FlowEvent>,
    r1: Registry,
    f1: Flow<C>,
    k: u64,
    i: int,
)
    requires
        flow_run(r0, f0, evs, r1, f1),
        flow_keyed(f0, k),
        r0.live(k),
        r0.total(k) < u64::MAX,
        f0.req.metrics == Some(k),
        0 <= i < evs.len(),
        evs[i] is ReqData,
    ensures
        r1.total(k) == r0.total(k) + 1,
{
    lemma_req_spent(r0, f0, evs, r1, f1, i);
    lemma_total_once(r0, f0, evs, r1, f1, k);
}

/// One step of a flow keyed to a live record keeps the record live and the
/// flow keyed, and moves the total exactly with the request-side latch.
proof fn lemma_step_keyed_live<C: ClassifyResponse>(
    r0: Registry,
    f0: Flow<C>,
    ev: FlowEvent,
    r1: Registry,
    f1: Flow<C>,
    k: u64,
)
    requires
        flow_step(r0, f0, ev, r1, f1),
        flow_keyed(f0, k),
        r0.live(k),
    ensures
        r1.live(k),
        flow_keyed(f1, k),
        r1.bounds@ == r0.bounds@,
        r1.total(k) == if req_counted(f0, f1) {
            sat_incr(r0.total(k))
        } else {
            r0.total(k)
        },
        f0.req.metrics is None ==> f1.req.metrics is None,
{
    match ev {
        FlowEvent::ReqData { now } => {},
        FlowEvent::RespHead { status } => {},
        FlowEvent::RespData { now } => {},
        FlowEvent::RespTrailers { trailers, now } => {},
        FlowEvent::RespError { now } => {},
        FlowEvent::InnerError { now } => {},
        FlowEvent::Dropped { now } => {},
    }
}

/// A spent request-side latch stays spent.
proof fn lemma_req_none_stays<C: ClassifyResponse>(
    r0: Registry,
    f0: Flow<C>,
    evs: Seq<FlowEvent>,
    r1: Registry,
    f1: Flow<C>,
)
    requires
        flow_run(r0, f0, evs, r1, f1),
        f0.req.metrics is None,
    ensures
        f1.req.metrics is None,
    decreases evs.len(),
{
    if evs.len() > 0 {
        let (rm, fm) = choose|rm: Registry, fm: Flow<C>|
            #[trigger] flow_step(r0, f0, evs[0], rm, fm) && flow_run(
                rm,
                fm,
                evs.drop_first(),
                r1,
                f1,
            );
        lemma_req_none_stays(rm, fm, evs.drop_first(), r1, f1);
    }
}

/// A flow whose trace holds at least one request-body report ends with the
/// request-side latch spent — so, with `lemma_total_once`, its request was
/// counted.
pub proof fn lemma_req_spent<C: ClassifyResponse>(
    r0: Registry,
    f0: Flow<C>,
    evs: Seq<FlowEvent>,
    r1: Registry,
    f1: Flow<C>,
    i: int,
)
    requires
        flow_run(r0, f0, evs, r1, f1),
        0 <= i < evs.len(),
        evs[i] is ReqData,
    ensures
        f1.req.metrics is None,
    decreases evs.len(),
{
    let (rm, fm) = choose|rm: Registry, fm: Flow<C>|
        #[trigger] flow_step(r0, f0, evs[0], rm, fm) && flow_run(
            rm,
            fm,
            evs.drop_first(),
            r1,
            f1,
        );
    if i == 0 {
        lemma_req_none_stays(rm, fm, evs.drop_first(), r1, f1);
    } else {
        lemma_req_spent(rm, fm, evs.drop_first(), r1, f1, i - 1);
    }
}

/// The response side can take no further latency sample: it already did,
/// or it was never armed with a handle.
pub open spec fn latency_settled<C: ClassifyResponse>(f: Flow<C>) -> bool {
    match f.resp {
        RespState::Pending(fut) => fut.metrics is None,
        RespState::Open(b) => b.latency_recorded || b.metrics is None,
        RespState::Done => true,
    }
}

/// Once the latency sample is settled, no later event of the flow moves
/// any latency histogram cell of `k`, whatever else the stream does.
pub proof fn lemma_latency_settled<C: ClassifyResponse>(
    r0: Registry,
    f0: Flow<C>,
    evs: Seq<FlowEvent>,
    r1: Registry,
    f1: Flow<C>,
    k: u64,
)
    requires
        flow_run(r0, f0, evs, r1, f1),
        flow_keyed(f0, k),
        latency_settled(f0),
    ensures
        flow_keyed(f1, k),
        latency_settled(f1),
        r1.bounds@ == r0.bounds@,
        forall|s: Option<u16>| #[trigger] r1.bucket_counts(k, s) == r0.bucket_counts(k, s),
        forall|s: Option<u16>| #[trigger] r1.latency_sum(k, s) == r0.latency_sum(k, s),
    decreases evs.len(),
{
    if evs.len() > 0 {
        let (rm, fm) = choose|rm: Registry, fm: Flow<C>|
            #[trigger] flow_step(r0, f0, evs[0], rm, fm) && flow_run(
                rm,
                fm,
                evs.drop_first(),
                r1,
                f1,
            );
        lemma_latency_settled(rm, fm, evs.drop_first(), r1, f1, k);
    }
}

/// Exactly one latency sample per stream that yields a response data
/// frame: its value is the gap from the stream-open instant to the first
/// response frame, it lands under the response's status, and nothing later
/// in the stream moves the histogram again.
pub proof fn lemma_latency_once<C: ClassifyResponse>(
    r0: Registry,
    f0: Flow<C>,
    evs: Seq<FlowEvent>,
    r1: Registry,
    f1: Flow<C>,
    k: u64,
    b0: ResponseBody<<C as ClassifyResponse>::Eos>,
    di: int,
    t1: u64,
)
    requires
        flow_run(r0, f0, evs, r1, f1),
        flow_keyed(f0, k),
        r0.live(k),
        f0.resp == (RespState::<C>::Open(b0)),
        b0.metrics == Some(k),
        !b0.latency_recorded,
        0 <= di < evs.len(),
        evs[di] == (FlowEvent::RespData { now: t1 }),
        forall|i: int| 0 <= i < di ==> evs[i] is ReqData,
    ensures
        ({
            let st = Some(b0.status);
            let elapsed = (t1 - b0.stream_open_at) as u64;
            let bi = bucket_index(r0.bounds@, elapsed);
            &&& r1.bucket_counts(k, st) == r0.bucket_counts(k, st).update(
                bi,
                sat_incr(r0.bucket_counts(k, st)[bi]),
            )
            &&& r1.latency_sum(k, st) == sat_add(r0.latency_sum(k, st), elapsed)
        }),
    decreases evs.len(),
{
    let (rm, fm) = choose|rm: Registry, fm: Flow<C>|
        #[trigger] flow_step(r0, f0, evs[0], rm, fm) && flow_run(
            rm,
            fm,
            evs.drop_first(),
            r1,
            f1,
        );
    lemma_step_keyed_live(r0, f0, evs[0], rm, fm, k);
    if di == 0 {
        let b1 = choose|b1: ResponseBody<<C as ClassifyResponse>::Eos>|
            fm.resp == (RespState::<C>::Open(b1)) && latency_step(b0, b1, r0, rm, t1);
        lemma_latency_settled(rm, fm, evs.drop_first(), r1, f1, k);
    } else {
        lemma_latency_once(rm, fm, evs.drop_first(), r1, f1, k, b0, di - 1, t1);
    }
}

/// An event that ends the response stream's classification.
pub open spec fn is_terminal(ev: FlowEvent) -> bool {
    ||| ev is RespTrailers
    ||| ev is RespError
    ||| ev is Dropped
}

/// The classifier's verdict for the event that ended the stream: its view
/// of the trailers, of a bare end on drop, or of a transport error.
pub open spec fn eos_verdict<E: ClassifyEos>(e: E, ev: FlowEvent) -> Class {
    match ev {
        FlowEvent::RespTrailers { trailers, now } => e.eos_spec(trailers),
        FlowEvent::RespError { now } => e.error_spec(),
        _ => e.eos_spec(None),
    }
}

/// The flow can record no further class: the classifier or the handle is
/// spent wherever one could still fire.
pub open spec fn class_settled<C: ClassifyResponse>(f: Flow<C>) -> bool {
    match f.resp {
        RespState::Pending(fut) => fut.metrics is None,
        RespState::Open(b) => b.classify is None || b.metrics is None,
        RespState::Done => true,
    }
}

/// Once the class observation is settled, no later event of the flow moves
/// any class counter of `k`, whatever else the stream does.
pub proof fn lemma_class_settled<C: ClassifyResponse>(
    r0: Registry,
    f0: Flow<C>,
    evs: Seq<FlowEvent>,
    r1: Registry,
    f1: Flow<C>,
    k: u64,
)
    requires
        flow_run(r0, f0, evs, r1, f1),
        flow_keyed(f0, k),
        class_settled(f0),
    ensures
        flow_keyed(f1, k),
        class_settled(f1),
        forall|s: Option<u16>, c: Class|
            #[trigger] r1.class_count(k, s, c) == r0.class_count(k, s, c),
    decreases evs.len(),
{
    if evs.len() > 0 {
        let (rm, fm) = choose|rm: Registry, fm: Flow<C>|
            #[trigger] flow_step(r0, f0, evs[0], rm, fm) && flow_run(
                rm,
                fm,
                evs.drop_first(),
                r1,
                f1,
            );
        lemma_class_settled(rm, fm, evs.drop_first(), r1, f1, k);
    }
}

/// Exactly one class observation per response stream, in whichever mode it
/// ends — trailers, a body error, or a drop before either: the classifier's
/// verdict for that first ending event lands under the response's status,
/// once, and no other class cell of the target moves.
pub proof fn lemma_class_once<C: ClassifyResponse>(
    r0: Registry,
    f0: Flow<C>,
    evs: Seq<FlowEvent>,
    r1: Registry,
    f1: Flow<C>,
    k: u64,
    b0: ResponseBody<<C as ClassifyResponse>::Eos>,
    e: <C as ClassifyResponse>::Eos,
    ti: int,
)
    requires
        flow_run(r0, f0, evs, r1, f1),
        flow_keyed(f0, k),
        r0.live(k),
        f0.resp == (RespState::<C>::Open(b0)),
        b0.metrics == Some(k),
        b0.classify == Some(e),
        0 <= ti < evs.len(),
        is_terminal(evs[ti]),
        forall|i: int| 0 <= i < ti ==> !is_terminal(evs[i]),
    ensures
        ({
            let st = Some(b0.status);
            let c = eos_verdict(e, evs[ti]);
            &&& r1.class_count(k, st, c) == sat_incr(r0.class_count(k, st, c))
            &&& forall|s2: Option<u16>, c2: Class|
                s2 != st || c2 != c ==> #[trigger] r1.class_count(k, s2, c2) == r0.class_count(
                    k,
                    s2,
                    c2,
                )
        }),
    decreases evs.len(),
{
    let (rm, fm) = choose|rm: Registry, fm: Flow<C>|
        #[trigger] flow_step(r0, f0, evs[0], rm, fm) && flow_run(
            rm,
            fm,
            evs.drop_first(),
            r1,
            f1,
        );
    lemma_step_keyed_live(r0, f0, evs[0], rm, fm, k);
    if ti == 0 {
        lemma_class_settled(rm, fm, evs.drop_first(), r1, f1, k);
    } else {
        let b0m = choose|b0m: ResponseBody<<C as ClassifyResponse>::Eos>|
            fm.resp == (RespState::<C>::Open(b0m)) && b0m.classify == b0.classify && b0m.metrics
                == b0.metrics && b0m.status == b0.status;
        lemma_class_once(rm, fm, evs.drop_first(), r1, f1, k, b0m, e, ti - 1);
    }
}

/// Exactly one class observation for a request whose inner call fails
/// before any response head: the first-phase classifier's error verdict
/// lands under the head-less status key, once, and no other class cell of
/// the target moves.  No latency sample is ever taken on this path.
pub proof fn lemma_class_once_pre_head<C: ClassifyResponse>(
    r0: Registry,
    f0: Flow<C>,
    evs: Seq<FlowEvent>,
    r1: Registry,
    f1: Flow<C>,
    k: u64,
    fut: ResponseFuture<C>,
    ti: int,
)
    requires
        flow_run(r0, f0, evs, r1, f1),
        flow_keyed(f0, k),
        r0.live(k),
        f0.resp == (RespState::<C>::Pending(fut)),
        fut.metrics == Some(k),
        0 <= ti < evs.len(),
        evs[ti] is InnerError,
        forall|i: int| 0 <= i < ti ==> evs[i] is ReqData,
    ensures
        ({
            let c = fut.classify.error_spec();
            &&& r1.class_count(k, None, c) == sat_incr(r0.class_count(k, None, c))
            &&& forall|s2: Option<u16>, c2: Class|
                s2 is Some || c2 != c ==> #[trigger] r1.class_count(k, s2, c2) == r0.class_count(
                    k,
                    s2,
                    c2,
                )
            &&& forall|s: Option<u16>| #[trigger] r1.bucket_counts(k, s) == r0.bucket_counts(k, s)
        }),
    decreases evs.len(),
{
    let (rm, fm) = choose|rm: Registry, fm: Flow<C>|
        #[trigger] flow_step(r0, f0, evs[0], rm, fm) && flow_run(
            rm,
            fm,
            evs.drop_first(),
            r1,
            f1,
        );
    lemma_step_keyed_live(r0, f0, evs[0], rm, fm, k);
    if ti == 0 {
        lemma_class_settled(rm, fm, evs.drop_first(), r1, f1, k);
        lemma_latency_settled(rm, fm, evs.drop_first(), r1, f1, k);
    } else {
        lemma_class_once_pre_head(rm, fm, evs.drop_first(), r1, f1, k, fut, ti - 1);
    }
}

/// A chain of steps of two flows against one registry, each event tagged
/// with the flow it belongs to: `true` moves the first flow, `false` the
/// second.  This is two requests running concurrently, in any
/// interleaving.
pub open spec fn duo_run<C: ClassifyResponse>(
    r0: Registry,
    a0: Flow<C>,
    b0: Flow<C>,
    evs: Seq<(bool, FlowEvent)>,
    r1: Registry,
    a1: Flow<C>,
    b1: Flow<C>,
) -> bool
    decreases evs.len(),
{
    if evs.len() == 0 {
        &&& r1 == r0
        &&& a1 == a0
        &&& b1 == b0
    } else {
        exists|rm: Registry, am: Flow<C>, bm: Flow<C>|
            #[trigger] duo_step(r0, a0, b0, evs[0], rm, am, bm) && duo_run(
                rm,
                am,
                bm,
                evs.drop_first(),
                r1,
                a1,
                b1,
            )
    }
}

/// One tagged event moved one of the two flows, leaving the other alone.
pub open spec fn duo_step<C: ClassifyResponse>(
    r0: Registry,
    a0: Flow<C>,
    b0: Flow<C>,
    ev: (bool, FlowEvent),
    r1: Registry,
    a1: Flow<C>,
    b1: Flow<C>,
) -> bool {
    if ev.0 {
        &&& flow_step(r0, a0, ev.1, r1, a1)
        &&& b1 == b0
    } else {
        &&& flow_step(r0, b0, ev.1, r1, b1)
        &&& a1 == a0
    }
}

/// No lost update between two concurrent requests to one target: whatever
/// the interleaving, the total grows by exactly the number of request-side
/// latches the two flows spent.
pub proof fn lemma_duo_total<C: ClassifyResponse>(
    r0: Registry,
    a0: Flow<C>,
    b0: Flow<C>,
    evs: Seq<(bool, FlowEvent)>,
    r1: Registry,
    a1: Flow<C>,
    b1: Flow<C>,
    k: u64,
)
    requires
        duo_run(r0, a0, b0, evs, r1, a1, b1),
        flow_keyed(a0, k),
        flow_keyed(b0, k),
        r0.live(k),
    ensures
        r1.live(k),
        flow_keyed(a1, k),
        flow_keyed(b1, k),
        r1.total(k) == sat_add(
            r0.total(k),
            ((if req_counted(a0, a1) {
                1int
            } else {
                0int
            }) + (if req_counted(b0, b1) {
                1int
            } else {
                0int
            })) as u64,
        ),
        a0.req.metrics is None ==> a1.req.metrics is None,
        b0.req.metrics is None ==> b1.req.metrics is None,
    decreases evs.len(),
{
    if evs.len() > 0 {
        let (rm, am, bm) = choose|rm: Registry, am: Flow<C>, bm: Flow<C>|
            #[trigger] duo_step(r0, a0, b0, evs[0], rm, am, bm) && duo_run(
                rm,
                am,
                bm,
                evs.drop_first(),
                r1,
                a1,
                b1,
            );
        if evs[0].0 {
            lemma_step_keyed_live(r0, a0, evs[0].1, rm, am, k);
        } else {
            lemma_step_keyed_live(r0, b0, evs[0].1, rm, bm, k);
        }
        lemma_duo_total(rm, am, bm, evs.drop_first(), r1, a1, b1, k);
    }
}

/// A class cell after zero, one or two saturating hits.
pub open spec fn hit_twice(x: u64, first: bool, second: bool) -> u64 {
    if first && second {
        sat_incr(sat_incr(x))
    } else if first || second {
        sat_incr(x)
    } else {
        x
    }
}

/// The cell a stream's ending writes: its status paired with the
/// classifier's verdict for the ending event.
pub open spec fn verdict_cell<E: ClassifyEos>(b: ResponseBody<E>, e: E, ev: FlowEvent) -> (
    Option<u16>,
    Class,
) {
    (Some(b.status), eos_verdict(e, ev))
}

/// Two flows whose class observations are both settled move no class cell
/// of `k`, whatever their remaining interleaving does.
proof fn lemma_duo_class_settled<C: ClassifyResponse>(
    r0: Registry,
    a0: Flow<C>,
    b0: Flow<C>,
    evs: Seq<(bool, FlowEvent)>,
    r1: Registry,
    a1: Flow<C>,
    b1: Flow<C>,
    k: u64,
)
    requires
        duo_run(r0, a0, b0, evs, r1, a1, b1),
        flow_keyed(a0, k),
        flow_keyed(b0, k),
        class_settled(a0),
        class_settled(b0),
    ensures
        flow_keyed(a1, k),
        flow_keyed(b1, k),
        class_settled(a1),
        class_settled(b1),
        forall|s: Option<u16>, c: Class|
            #[trigger] r1.class_count(k, s, c) == r0.class_count(k, s, c),
    decreases evs.len(),
{
    if evs.len() > 0 {
        let (rm, am, bm) = choose|rm: Registry, am: Flow<C>, bm: Flow<C>|
            #[trigger] duo_step(r0, a0, b0, evs[0], rm, am, bm) && duo_run(
                rm,
                am,
                bm,
                evs.drop_first(),
                r1,
                a1,
                b1,
            );
        lemma_duo_class_settled(rm, am, bm, evs.drop_first(), r1, a1, b1, k);
    }
}

/// One flow still armed, the other's class settled: across the remaining
/// interleaving the armed flow's single ending writes its verdict cell
/// once, and no other class cell of `k` moves.
proof fn lemma_duo_class_one<C: ClassifyResponse>(
    r0: Registry,
    a0: Flow<C>,
    b0: Flow<C>,
    evs: Seq<(bool, FlowEvent)>,
    r1: Registry,
    a1: Flow<C>,
    b1: Flow<C>,
    k: u64,
    armed_first: bool,
    ba: ResponseBody<<C as ClassifyResponse>::Eos>,
    ea: <C as ClassifyResponse>::Eos,
    ta: int,
)
    requires
        duo_run(r0, a0, b0, evs, r1, a1, b1),
        flow_keyed(a0, k),
        flow_keyed(b0, k),
        r0.live(k),
        (if armed_first {
            a0.resp
        } else {
            b0.resp
        }) == (RespState::<C>::Open(ba)),
        ba.metrics == Some(k),
        ba.classify == Some(ea),
        class_settled(if armed_first {
            b0
        } else {
            a0
        }),
        0 <= ta < evs.len(),
        evs[ta].0 == armed_first,
        is_terminal(evs[ta].1),
        forall|i: int|
            0 <= i < evs.len() && (#[trigger] evs[i]).0 == armed_first && i != ta
                ==> !is_terminal(evs[i].1),
    ensures
        ({
            let cell = verdict_cell(ba, ea, evs[ta].1);
            forall|s: Option<u16>, c: Class|
                #[trigger] r1.class_count(k, s, c) == hit_twice(
                    r0.class_count(k, s, c),
                    (s, c) == cell,
                    false,
                )
        }),
    decreases evs.len(),
{
    let (rm, am, bm) = choose|rm: Registry, am: Flow<C>, bm: Flow<C>|
        #[trigger] duo_step(r0, a0, b0, evs[0], rm, am, bm) && duo_run(
            rm,
            am,
            bm,
            evs.drop_first(),
            r1,
            a1,
            b1,
        );
    if evs[0].0 {
        lemma_step_keyed_live(r0, a0, evs[0].1, rm, am, k);
    } else {
        lemma_step_keyed_live(r0, b0, evs[0].1, rm, bm, k);
    }
    if ta == 0 {
        lemma_duo_class_settled(rm, am, bm, evs.drop_first(), r1, a1, b1, k);
    } else if evs[0].0 == armed_first {
        let bam = choose|bam: ResponseBody<<C as ClassifyResponse>::Eos>|
            (if armed_first {
                am.resp
            } else {
                bm.resp
            }) == (RespState::<C>::Open(bam)) && bam.classify == ba.classify && bam.metrics
                == ba.metrics && bam.status == ba.status;
        lemma_duo_class_one(
            rm,
            am,
            bm,
            evs.drop_first(),
            r1,
            a1,
            b1,
            k,
            armed_first,
            bam,
            ea,
            ta - 1,
        );
    } else {
        lemma_duo_class_one(
            rm,
            am,
            bm,
            evs.drop_first(),
            r1,
            a1,
            b1,
            k,
            armed_first,
            ba,
            ea,
            ta - 1,
        );
    }
}

/// No lost class update between two concurrent requests to one target:
/// whatever the interleaving, each stream's single ending writes its own
/// verdict cell, the two hits land on top of each other when the cells
/// coincide, and no other class cell of the target moves.
pub proof fn lemma_duo_class<C: ClassifyResponse>(
    r0: Registry,
    a0: Flow<C>,
    b0: Flow<C>,
    evs: Seq<(bool, FlowEvent)>,
    r1: Registry,
    a1: Flow<C>,
    b1: Flow<C>,
    k: u64,
    ba: ResponseBody<<C as ClassifyResponse>::Eos>,
    ea: <C as ClassifyResponse>::Eos,
    ta: int,
    bb: ResponseBody<<C as ClassifyResponse>::Eos>,
    eb: <C as ClassifyResponse>::Eos,
    tb: int,
)
    requires
        duo_run(r0, a0, b0, evs, r1, a1, b1),
        flow_keyed(a0, k),
        flow_keyed(b0, k),
        r0.live(k),
        a0.resp == (RespState::<C>::Open(ba)),
        ba.metrics == Some(k),
        ba.classify == Some(ea),
        b0.resp == (RespState::<C>::Open(bb)),
        bb.metrics == Some(k),
        bb.classify == Some(eb),
        0 <= ta < evs.len(),
        evs[ta].0,
        is_terminal(evs[ta].1),
        forall|i: int|
            0 <= i < evs.len() && (#[trigger] evs[i]).0 && i != ta ==> !is_terminal(evs[i].1),
        0 <= tb < evs.len(),
        !evs[tb].0,
        is_terminal(evs[tb].1),
        forall|i: int|
            0 <= i < evs.len() && !(#[trigger] evs[i]).0 && i != tb ==> !is_terminal(evs[i].1),
    ensures
        ({
            let cell_a = verdict_cell(ba, ea, evs[ta].1);
            let cell_b = verdict_cell(bb, eb, evs[tb].1);
            forall|s: Option<u16>, c: Class|
                #[trigger] r1.class_count(k, s, c) == hit_twice(
                    r0.class_count(k, s, c),
                    (s, c) == cell_a,
                    (s, c) == cell_b,
                )
        }),
    decreases evs.len(),
{
    let (rm, am, bm) = choose|rm: Registry, am: Flow<C>, bm: Flow<C>|
        #[trigger] duo_step(r0, a0, b0, evs[0], rm, am, bm) && duo_run(
            rm,
            am,
            bm,
            evs.drop_first(),
            r1,
            a1,
            b1,
        );
    if evs[0].0 {
        lemma_step_keyed_live(r0, a0, evs[0].1, rm, am, k);
    } else {
        lemma_step_keyed_live(r0, b0, evs[0].1, rm, bm, k);
    }
    if ta == 0 {
        lemma_duo_class_one(
            rm,
            am,
            bm,
            evs.drop_first(),
            r1,
            a1,
            b1,
            k,
            false,
            bb,
            eb,
            tb - 1,
        );
    } else if tb == 0 {
        lemma_duo_class_one(
            rm,
            am,
            bm,
            evs.drop_first(),
            r1,
            a1,
            b1,
            k,
            true,
            ba,
            ea,
            ta - 1,
        );
    } else if evs[0].0 {
        let bam = choose|bam: ResponseBody<<C as ClassifyResponse>::Eos>|
            am.resp == (RespState::<C>::Open(bam)) && bam.classify == ba.classify && bam.metrics
                == ba.metrics && bam.status == ba.status;
        lemma_duo_class(
            rm,
            am,
            bm,
            evs.drop_first(),
            r1,
            a1,
            b1,
            k,
            bam,
            ea,
            ta - 1,
            bb,
            eb,
            tb - 1,
        );
    } else {
        let bbm = choose|bbm: ResponseBody<<C as ClassifyResponse>::Eos>|
            bm.resp == (RespState::<C>::Open(bbm)) && bbm.classify == bb.classify && bbm.metrics
                == bb.metrics && bbm.status == bb.status;
        lemma_duo_class(
            rm,
            am,
            bm,
            evs.drop_first(),
            r1,
            a1,
            b1,
            k,
            ba,
            ea,
            ta - 1,
            bbm,
            eb,
            tb - 1,
        );
    }
}

/// The headline reading of `lemma_duo_total`: when both concurrent
/// requests were counted, the final total is the pre-value plus two —
/// whatever the interleaving, no update is lost.
pub proof fn lemma_duo_total_plus_two<C: ClassifyResponse>(
    r0: Registry,
    a0: Flow<C>,
    b0: Flow<C>,
    evs: Seq<(bool, FlowEvent)>,
    r1: Registry,
    a1: Flow<C>,
    b1: Flow<C>,
    k: u64,
)
    requires
        duo_run(r0, a0, b0, evs, r1, a1, b1),
        flow_keyed(a0, k),
        flow_keyed(b0, k),
        r0.live(k),
        r0.total(k) + 2 <= u64::MAX,
        req_counted(a0, a1),
        req_counted(b0, b1),
    ensures
        r1.total(k) == r0.total(k) + 2,
{
    lemma_duo_total(r0, a0, b0, evs, r1, a1, b1, k);
}

/// Finalisation is idempotent with explicit completion: a drop reported on
/// a body whose classifier is already spent and whose latency is settled —
/// as trailers, a body error, or an earlier drop leave it — changes
/// nothing in the registry and nothing in the body.
pub proof fn lemma_drop_idempotent<E: ClassifyEos>(
    b0: ResponseBody<E>,
    b1: ResponseBody<E>,
    r0: Registry,
    r1: Registry,
    now: u64,
)
    requires
        b0.classify is None,
        b0.latency_recorded || b0.metrics is None,
        exists|mid_b: ResponseBody<E>, mid_r: Registry|
            #[trigger] latency_step(b0, mid_b, r0, mid_r, now) && eos_class_step(
                mid_b,
                b1,
                mid_r,
                r1,
                None,
                now,
            ),
    ensures
        r1 == r0,
        b1 == b0,
{
}

/// All the handles a flow holds are spent: a stage that failed to resolve
/// its target spawns such flows.
pub open spec fn flow_unmetered<C: ClassifyResponse>(f: Flow<C>) -> bool {
    &&& f.req.metrics is None
    &&& match f.resp {
        RespState::Pending(fut) => fut.metrics is None,
        RespState::Open(b) => b.metrics is None,
        RespState::Done => true,
    }
}

/// A dead record absorbs nothing and the stream still runs: a flow whose
/// record's lock was poisoned before it started — or one that never got a
/// handle because the registry's own lock was — leaves the registry
/// exactly as it found it, while every event function still completes, so
/// the data path never fails for metrics' sake.
pub proof fn lemma_no_observation<C: ClassifyResponse>(
    r0: Registry,
    f0: Flow<C>,
    evs: Seq<FlowEvent>,
    r1: Registry,
    f1: Flow<C>,
    k: u64,
)
    requires
        flow_run(r0, f0, evs, r1, f1),
        flow_unmetered(f0) || (flow_keyed(f0, k) && !r0.live(k)),
    ensures
        r1 == r0,
    decreases evs.len(),
{
    if evs.len() > 0 {
        let (rm, fm) = choose|rm: Registry, fm: Flow<C>|
            #[trigger] flow_step(r0, f0, evs[0], rm, fm) && flow_run(
                rm,
                fm,
                evs.drop_first(),
                r1,
                f1,
            );
        lemma_no_observation(rm, fm, evs.drop_first(), r1, f1, k);
    }
}

} // verus!
