//! The per-request middleware state machine.
//!
//! A `Service` is the per-target stage: it caches the handle it resolved
//! once and, per request, spawns the request-side and response-side
//! bookkeeping states.  The caller owns the transport: it forwards frames,
//! trailers and errors itself, untouched, and reports each event here with
//! the instant it happened.  The states guarantee, by construction, that a
//! request is counted at most once (the `RequestBody` handle is an
//! at-most-once latch), that at most one latency sample is taken (the
//! `latency_recorded` flag), and that at most one class is recorded (the
//! classifier is consumed).  A caller that drops a response body before its
//! end reports `on_drop`, which finalises both and is idempotent.

use vstd::prelude::*;
use crate::classify::{Class, ClassifyEos, ClassifyResponse, Trailers};
use crate::registry::{class_added, latency_added, marked, resolved, Registry};

verus! {

/// `marked`, against the record a handle names; identity without a handle.
pub open spec fn marked_opt(r0: Registry, r1: Registry, h: Option<u64>, now: u64) -> bool {
    match h {
        Some(k) => marked(r0, r1, k, now),
        None => r1 == r0,
    }
}

/// `class_added`, against the record a handle names; identity without one.
pub open spec fn class_added_opt(
    r0: Registry,
    r1: Registry,
    h: Option<u64>,
    skey: Option<u16>,
    c: Class,
    now: u64,
) -> bool {
    match h {
        Some(k) => class_added(r0, r1, k, skey, c, now),
        None => r1 == r0,
    }
}

/// The stack module that wraps services to record metrics: it owns the
/// shared registry that every stage built from it reports into.
pub struct Layer {
    pub registry: Registry,
}

/// The wrapped factory: for each target it instantiates a stage whose
/// observations land in the layer's registry.  The inner factory stays
/// with the caller; what the middleware adds per target is the stage.
pub struct MakeSvc {
    pub registry: Registry,
}

impl Layer {
    /// A layer over the given registry.
    pub fn new(registry: Registry) -> (l: Layer)
        ensures
            l.registry == registry,
    {
        Layer { registry }
    }

    /// Wraps an inner factory: the registry moves to the factory the
    /// stages are made from.
    pub fn layer(self) -> (m: MakeSvc)
        ensures
            m.registry == self.registry,
    {
        MakeSvc { registry: self.registry }
    }
}

impl MakeSvc {
    /// A stage for `target`: resolves the target's record in the shared
    /// registry — inserting a fresh one on first sight — and caches the
    /// handle on the stage.
    pub fn new_service(&mut self, target: u64) -> (s: Service)
        requires
            old(self).registry.wf(),
        ensures
            final(self).registry.wf(),
            resolved(old(self).registry, final(self).registry, target, s.metrics),
    {
        Service::new(&mut self.registry, target)
    }

    /// The shared registry, for the scrape side.
    pub fn registry(&self) -> (r: &Registry)
        ensures
            r == &self.registry,
    {
        &self.registry
    }

    /// The shared registry, for the stages' per-request events.
    pub fn registry_mut(&mut self) -> (r: &mut Registry)
        ensures
            *r == old(self).registry,
            final(self).registry == *final(r),
    {
        &mut self.registry
    }
}

/// The per-target stage.  Its handle is the target's key in the registry,
/// or nothing when resolution failed; in that case every observation of
/// the stage is dropped and the data path is untouched.  Copies of a stage
/// share the record, as they share the key.
#[derive(Clone, Copy)]
pub struct Service {
    pub metrics: Option<u64>,
}

/// The request-side state.  The caller forwards the request body's frames
/// itself and reports them here; the first report takes the handle and
/// counts the request.
pub struct RequestBody {
    pub metrics: Option<u64>,
}

impl Default for RequestBody {
    /// A request body wrapper that counts nothing: no handle.
    fn default() -> (b: RequestBody)
        ensures
            b.metrics is None,
    {
        RequestBody { metrics: None }
    }
}

/// The pending response: the classifier, the cached handle, and the
/// instant the request was dispatched.
pub struct ResponseFuture<C: ClassifyResponse> {
    pub classify: C,
    pub metrics: Option<u64>,
    pub stream_open_at: u64,
}

/// The response-side state: the response status, the second-phase
/// classifier (until its verdict is recorded), the handle (until a class
/// observation spends it), the stream-open instant, and whether the latency
/// sample was taken.
pub struct ResponseBody<E: ClassifyEos> {
    pub status: u16,
    pub classify: Option<E>,
    pub metrics: Option<u64>,
    pub stream_open_at: u64,
    pub latency_recorded: bool,
}

/// The effect of one latency attempt by a response body: nothing when the
/// sample was already taken or the body holds no handle; otherwise one
/// sample of `now - stream_open_at` lands under the body's status, and the
/// flag is set exactly when the record was live.
pub open spec fn latency_step<E: ClassifyEos>(
    b0: ResponseBody<E>,
    b1: ResponseBody<E>,
    r0: Registry,
    r1: Registry,
    now: u64,
) -> bool {
    &&& b1.status == b0.status
    &&& b1.classify == b0.classify
    &&& b1.metrics == b0.metrics
    &&& b1.stream_open_at == b0.stream_open_at
    &&& if b0.latency_recorded {
        &&& b1.latency_recorded
        &&& r1 == r0
    } else {
        match b0.metrics {
            Some(k) => {
                &&& latency_added(r0, r1, k, b0.status, (now - b0.stream_open_at) as u64, now)
                &&& b1.latency_recorded == r0.live(k)
            },
            None => {
                &&& !b1.latency_recorded
                &&& r1 == r0
            },
        }
    }
}

/// The effect of consuming the classifier at end of stream with the given
/// trailers: when the body still held it, its verdict on the trailers
/// lands under the body's status and both the classifier and the handle
/// are spent.  Nothing happens on a body whose classifier is spent.
pub open spec fn eos_class_step<E: ClassifyEos>(
    b0: ResponseBody<E>,
    b1: ResponseBody<E>,
    r0: Registry,
    r1: Registry,
    trailers: Option<Trailers>,
    now: u64,
) -> bool {
    &&& b1.status == b0.status
    &&& b1.stream_open_at == b0.stream_open_at
    &&& b1.latency_recorded == b0.latency_recorded
    &&& match b0.classify {
        Some(e) => {
            &&& b1.classify is None
            &&& b1.metrics is None
            &&& class_added_opt(r0, r1, b0.metrics, Some(b0.status), e.eos_spec(trailers), now)
        },
        None => {
            &&& b1.classify is None
            &&& b1.metrics == b0.metrics
            &&& r1 == r0
        },
    }
}

/// As `eos_class_step`, for a transport error while the body streamed: the
/// classifier's error verdict lands under the body's status.
pub open spec fn error_class_step<E: ClassifyEos>(
    b0: ResponseBody<E>,
    b1: ResponseBody<E>,
    r0: Registry,
    r1: Registry,
    now: u64,
) -> bool {
    &&& b1.status == b0.status
    &&& b1.stream_open_at == b0.stream_open_at
    &&& b1.latency_recorded == b0.latency_recorded
    &&& match b0.classify {
        Some(e) => {
            &&& b1.classify is None
            &&& b1.metrics is None
            &&& class_added_opt(r0, r1, b0.metrics, Some(b0.status), e.error_spec(), now)
        },
        None => {
            &&& b1.classify is None
            &&& b1.metrics == b0.metrics
            &&& r1 == r0
        },
    }
}

impl Service {
    /// A stage for `target`: resolves its record once and caches the
    /// handle.
    pub fn new(registry: &mut Registry, target: u64) -> (s: Service)
        requires
            old(registry).wf(),
        ensures
            final(registry).wf(),
            resolved(*old(registry), *final(registry), target, s.metrics),
    {
        let metrics = registry.resolve(target);
        Service { metrics }
    }

    /// Dispatch of one request at `now`.  A request whose body already
    /// reports end of stream is counted here and its `RequestBody` gets no
    /// handle; any other request is counted by its `RequestBody` when the
    /// first frame flows.  The classifier attached to the request rides
    /// along, the type's default standing in for a missing one; the
    /// response future keeps `now` as the stream-open instant.
    pub fn call<C: ClassifyResponse>(
        &self,
        registry: &mut Registry,
        body_is_end_stream: bool,
        classify: Option<C>,
        now: u64,
    ) -> (r: (RequestBody, ResponseFuture<C>))
        requires
            old(registry).wf(),
        ensures
            final(registry).wf(),
            r.0.metrics == if body_is_end_stream {
                None::<u64>
            } else {
                self.metrics
            },
            r.1.classify == classify.unwrap_or(C::default_spec()),
            r.1.metrics == self.metrics,
            r.1.stream_open_at == now,
            body_is_end_stream ==> marked_opt(*old(registry), *final(registry), self.metrics, now),
            !body_is_end_stream ==> *final(registry) == *old(registry),
    {
        let req_metrics = if body_is_end_stream {
            match self.metrics {
                Some(k) => registry.mark(k, now),
                None => {},
            }
            None
        } else {
            self.metrics
        };
        let c = match classify {
            Some(c) => c,
            None => C::default_classify(),
        };
        (
            RequestBody { metrics: req_metrics },
            ResponseFuture { classify: c, metrics: self.metrics, stream_open_at: now },
        )
    }
}

impl RequestBody {
    /// A frame flowed out of the request body at `now`, or the body hit
    /// end of stream: the first such report takes the handle and counts
    /// the request; every later one passes through untouched.
    pub fn on_data(&mut self, registry: &mut Registry, now: u64)
        requires
            old(registry).wf(),
        ensures
            final(registry).wf(),
            final(self).metrics is None,
            marked_opt(*old(registry), *final(registry), old(self).metrics, now),
    {
        match self.metrics.take() {
            Some(k) => registry.mark(k, now),
            None => {},
        }
    }
}

impl<C: ClassifyResponse> ResponseFuture<C> {
    /// The response head arrived: the classifier advances to its
    /// end-of-stream phase and the body state takes over the handle, the
    /// status, and the stream-open instant.
    pub fn on_response(self, status: u16) -> (b: ResponseBody<C::Eos>)
        ensures
            b.status == status,
            b.classify == Some(self.classify.start_spec(status)),
            b.metrics == self.metrics,
            b.stream_open_at == self.stream_open_at,
            !b.latency_recorded,
    {
        let eos = self.classify.start(status);
        ResponseBody {
            status,
            classify: Some(eos),
            metrics: self.metrics,
            stream_open_at: self.stream_open_at,
            latency_recorded: false,
        }
    }

    /// The inner service failed before any response head at `now`: the
    /// classifier's error verdict is recorded under the head-less status
    /// key, and no latency sample ever is.  The caller propagates the
    /// error unchanged.
    pub fn on_error(self, registry: &mut Registry, now: u64)
        requires
            old(registry).wf(),
        ensures
            final(registry).wf(),
            class_added_opt(
                *old(registry),
                *final(registry),
                self.metrics,
                None,
                self.classify.error_spec(),
                now,
            ),
    {
        let c = self.classify.on_error();
        match self.metrics {
            Some(k) => registry.measure_class(k, c, None, now),
            None => {},
        }
    }
}

impl<E: ClassifyEos> ResponseBody<E> {
    /// The latency attempt: one sample of `now - stream_open_at` under the
    /// body's status, skipped without a handle; the flag is set only when
    /// the observation landed, so a poisoned record is retried rather than
    /// marked done.
    fn record_latency(&mut self, registry: &mut Registry, now: u64)
        requires
            old(registry).wf(),
            now >= old(self).stream_open_at,
            !old(self).latency_recorded,
        ensures
            final(registry).wf(),
            latency_step(*old(self), *final(self), *old(registry), *final(registry), now),
    {
        match self.metrics {
            Some(k) => {
                let ok = registry.add_latency(k, self.status, now - self.stream_open_at, now);
                if ok {
                    self.latency_recorded = true;
                }
            },
            None => {},
        }
    }

    /// The class observation for verdict `c`: lands under the body's
    /// status and spends the handle.
    fn record_class(&mut self, registry: &mut Registry, c: Class, now: u64)
        requires
            old(registry).wf(),
        ensures
            final(registry).wf(),
            final(self).metrics is None,
            final(self).status == old(self).status,
            final(self).classify == old(self).classify,
            final(self).stream_open_at == old(self).stream_open_at,
            final(self).latency_recorded == old(self).latency_recorded,
            class_added_opt(
                *old(registry),
                *final(registry),
                old(self).metrics,
                Some(old(self).status),
                c,
                now,
            ),
    {
        match self.metrics.take() {
            Some(k) => registry.measure_class(k, c, Some(self.status), now),
            None => {},
        }
    }

    /// A data frame flowed out of the response body at `now`: the first
    /// one records the latency sample for this stream.  The caller
    /// forwards the frame unchanged.
    pub fn on_data(&mut self, registry: &mut Registry, now: u64)
        requires
            old(registry).wf(),
            now >= old(self).stream_open_at,
        ensures
            final(registry).wf(),
            latency_step(*old(self), *final(self), *old(registry), *final(registry), now),
    {
        if !self.latency_recorded {
            self.record_latency(registry, now);
        }
    }

    /// The trailer block ended the stream at `now`: the latency sample is
    /// recorded if no data frame did it yet, then the classifier's verdict
    /// on the trailers is recorded.  The caller forwards the trailers
    /// unchanged.
    pub fn on_trailers(&mut self, registry: &mut Registry, trailers: Option<Trailers>, now: u64)
        requires
            old(registry).wf(),
            now >= old(self).stream_open_at,
        ensures
            final(registry).wf(),
            exists|mid_b: ResponseBody<E>, mid_r: Registry|
                #[trigger] latency_step(*old(self), mid_b, *old(registry), mid_r, now)
                    && eos_class_step(
                    mid_b,
                    *final(self),
                    mid_r,
                    *final(registry),
                    trailers,
                    now,
                ),
    {
        if !self.latency_recorded {
            self.record_latency(registry, now);
        }
        let ghost mid_b = *self;
        let ghost mid_r = *registry;
        match self.classify.take() {
            Some(e) => {
                let c = e.eos(trailers);
                self.record_class(registry, c, now);
            },
            None => {},
        }
        proof {
            assert(latency_step(*old(self), mid_b, *old(registry), mid_r, now));
            assert(eos_class_step(mid_b, *final(self), mid_r, *final(registry), trailers, now));
        }
    }

    /// A transport error ended the stream at `now`: the classifier's error
    /// verdict is recorded under the body's status; no latency sample is
    /// taken here.  The caller propagates the error unchanged.
    pub fn on_error(&mut self, registry: &mut Registry, now: u64)
        requires
            old(registry).wf(),
        ensures
            final(registry).wf(),
            error_class_step(*old(self), *final(self), *old(registry), *final(registry), now),
    {
        match self.classify.take() {
            Some(e) => {
                let c = e.on_error();
                self.record_class(registry, c, now);
            },
            None => {},
        }
    }

    /// The body was dropped at `now`, trailers or not: the latency sample
    /// is recorded if nothing did it yet, and the classifier's verdict on
    /// a bare end of stream is recorded if it was not yet consumed.  Both
    /// halves are latched, so a second call after explicit completion does
    /// nothing.
    pub fn on_drop(&mut self, registry: &mut Registry, now: u64)
        requires
            old(registry).wf(),
            now >= old(self).stream_open_at,
        ensures
            final(registry).wf(),
            exists|mid_b: ResponseBody<E>, mid_r: Registry|
                #[trigger] latency_step(*old(self), mid_b, *old(registry), mid_r, now)
                    && eos_class_step(mid_b, *final(self), mid_r, *final(registry), None, now),
    {
        if !self.latency_recorded {
            self.record_latency(registry, now);
        }
        let ghost mid_b = *self;
        let ghost mid_r = *registry;
        match self.classify.take() {
            Some(e) => {
                let c = e.eos(None);
                self.record_class(registry, c, now);
            },
            None => {},
        }
        proof {
            assert(latency_step(*old(self), mid_b, *old(registry), mid_r, now));
            assert(eos_class_step(mid_b, *final(self), mid_r, *final(registry), None, now));
        }
    }
}

} // verus!
