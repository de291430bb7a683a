//! The request middleware as a state machine: what is measured of one
//! exchange of request and response, and how it reaches the registry.
//!
//! The stages follow one another: `Start`, `BodyWrapped`,
//! `DownstreamRunning`, `Completed`, and then `Recorded` or `Skipped`. The
//! caller does what lies between the stages (it hands the wrapped body on,
//! runs the next stage of the pipeline, reads the clock) and reports it here.
//! A step that is taken out of turn changes nothing.

use vstd::prelude::*;
use vstd::string::*;
use crate::counting::{
    count_after, data_events, lemma_body_size_is_counted, ByteCounter, CountingBody,
};
use crate::metrics::{request_label_names, HttpMetrics};
use crate::policy::{names, EndpointResolver, PromOpts, RequestInfo};
use crate::registry::{
    count_of, counts_at, incremented, lemma_count_within_total, lemma_definition_kept,
    lemma_incremented, lemma_observed, observed, observes_at, registry_wf, sat_add, total_of,
    MetricRegistry, MetricView,
};
use crate::text::{append_decimal, decimal};

verus! {

/// How far an exchange has come.
#[derive(Debug, Clone, Copy, PartialEq, Eq, Structural)]
pub enum Stage {
    /// The request has arrived; the clock was read and the method noted.
    Start,
    /// The request body is wrapped and counts its bytes.
    BodyWrapped,
    /// The next stage of the pipeline has the request.
    DownstreamRunning,
    /// The next stage is done; duration, sizes and status are known.
    Completed,
    /// The measurements are in the registry.
    Recorded,
    /// The measurements were dropped: the policy excludes the exchange.
    Skipped,
}

/// What the middleware reads of a response.
#[derive(Debug, Clone, Copy, PartialEq, Eq, Structural)]
pub struct ResponseInfo {
    /// The status code.
    pub status: u16,
    /// The size of the body in bytes where the response declares it.
    pub declared_size: Option<u64>,
}

/// How the next stage of the pipeline ended.
#[derive(Debug, Clone, Copy, PartialEq, Eq, Structural)]
pub enum Downstream {
    /// With a response.
    Responded(ResponseInfo),
    /// Without one: the client went away before there was a response.
    Cancelled,
}

/// The status label of an exchange: the status code in decimal, or
/// `cancelled` where there was no response.
pub open spec fn status_label(downstream: Downstream) -> Seq<char> {
    match downstream {
        Downstream::Responded(response) => decimal(response.status as nat),
        Downstream::Cancelled => "cancelled"@,
    }
}

/// The response size that is recorded: the declared size, zero where the
/// response declares none or there was no response.
pub open spec fn response_size(downstream: Downstream) -> u64 {
    match downstream {
        Downstream::Responded(response) => match response.declared_size {
            Some(size) => size,
            None => 0,
        },
        Downstream::Cancelled => 0,
    }
}

/// The time from `start` to `end`, zero where the clock went backwards.
pub open spec fn elapsed_between(start: u64, end: u64) -> u64 {
    if end >= start {
        (end - start) as u64
    } else {
        0
    }
}

/// One exchange as the contracts see it.
pub struct ExchangeView {
    pub stage: Stage,
    /// The clock at the start, in microseconds.
    pub started_at: u64,
    pub method: Seq<char>,
    pub endpoint: Seq<char>,
    /// The status label; empty before the exchange is completed.
    pub status: Seq<char>,
    /// The duration in microseconds; zero before the exchange is completed.
    pub elapsed: u64,
    /// The bytes of the request body that were read.
    pub request_bytes: u64,
    /// The size of the response body.
    pub response_bytes: u64,
}

impl ExchangeView {
    /// The label values of the exchange, in the order of the label names of
    /// the request metrics.
    pub open spec fn labels(self) -> Seq<Seq<char>> {
        seq![self.status, self.endpoint, self.method]
    }

    /// The exchange after its body was wrapped.
    pub open spec fn wrapped(self) -> ExchangeView {
        if self.stage == Stage::Start {
            ExchangeView { stage: Stage::BodyWrapped, ..self }
        } else {
            self
        }
    }

    /// The exchange after the request was handed on.
    pub open spec fn forwarded(self) -> ExchangeView {
        if self.stage == Stage::BodyWrapped {
            ExchangeView { stage: Stage::DownstreamRunning, ..self }
        } else {
            self
        }
    }

    /// The exchange after the next stage ended at time `now`, with
    /// `request_bytes` bytes of the request body read.
    pub open spec fn completed(self, downstream: Downstream, request_bytes: usize, now: u64) -> ExchangeView {
        if self.stage == Stage::DownstreamRunning {
            ExchangeView {
                stage: Stage::Completed,
                status: status_label(downstream),
                elapsed: elapsed_between(self.started_at, now),
                request_bytes: request_bytes as u64,
                response_bytes: response_size(downstream),
                ..self
            }
        } else {
            self
        }
    }

    /// Whether the policy has the exchange recorded: it is completed and its
    /// three labels pass.
    pub open spec fn is_recorded<R>(self, policy: PromOpts<R>) -> bool {
        self.stage == Stage::Completed && policy.records(self.status, self.endpoint, self.method)
    }

    /// The exchange after the policy was applied.
    pub open spec fn finished<R>(self, policy: PromOpts<R>) -> ExchangeView {
        if self.stage != Stage::Completed {
            self
        } else if policy.records(self.status, self.endpoint, self.method) {
            ExchangeView { stage: Stage::Recorded, ..self }
        } else {
            ExchangeView { stage: Stage::Skipped, ..self }
        }
    }
}

/// The registry after the measurements of one recorded exchange went in:
/// one more request counted, and the duration, the request size and the
/// response size observed, all under the labels of the exchange.
pub open spec fn with_measurements(
    metrics: Seq<MetricView>,
    handles: HttpMetrics,
    exchange: ExchangeView,
) -> Seq<MetricView> {
    let labels = exchange.labels();
    let counted = incremented(metrics, handles.request_count.index() as int, labels);
    let timed = observed(
        counted,
        handles.request_duration.index() as int,
        labels,
        exchange.elapsed,
    );
    let sized = observed(
        timed,
        handles.request_size.index() as int,
        labels,
        exchange.request_bytes,
    );
    observed(sized, handles.response_size.index() as int, labels, exchange.response_bytes)
}

/// The registry after an exchange was finished: with its measurements where
/// the policy has it recorded, else as it was.
pub open spec fn after_exchange<R>(
    metrics: Seq<MetricView>,
    handles: HttpMetrics,
    policy: PromOpts<R>,
    exchange: ExchangeView,
) -> Seq<MetricView> {
    if exchange.is_recorded(policy) {
        with_measurements(metrics, handles, exchange)
    } else {
        metrics
    }
}

/// One exchange of request and response on its way through the middleware.
#[derive(Debug)]
pub struct Exchange {
    stage: Stage,
    started_at: u64,
    method: String,
    endpoint: String,
    status: String,
    elapsed: u64,
    request_bytes: u64,
    response_bytes: u64,
}

impl View for Exchange {
    type V = ExchangeView;

    closed spec fn view(&self) -> ExchangeView {
        ExchangeView {
            stage: self.stage,
            started_at: self.started_at,
            method: self.method@,
            endpoint: self.endpoint@,
            status: self.status@,
            elapsed: self.elapsed,
            request_bytes: self.request_bytes,
            response_bytes: self.response_bytes,
        }
    }
}

impl Exchange {
    /// Takes up a request that arrived at time `now`, in microseconds on a
    /// clock of the caller's. The endpoint label is the one that the
    /// resolver of the policy gives the request; with the default resolver,
    /// the template of the route that matched.
    pub fn start<R: EndpointResolver>(policy: &PromOpts<R>, request: &RequestInfo, now: u64) -> (exchange:
        Exchange)
        ensures
            exists|label: String| #[trigger]
                names(policy.endpoint_label_fn, *request, label) && exchange@ == (ExchangeView {
                    stage: Stage::Start,
                    started_at: now,
                    method: request.method@,
                    endpoint: label@,
                    status: Seq::<char>::empty(),
                    elapsed: 0,
                    request_bytes: 0,
                    response_bytes: 0,
                }),
    {
        let label = policy.endpoint_label(request);
        assert(names(policy.endpoint_label_fn, *request, label));
        Exchange::start_labelled(request.method.as_str(), label, now)
    }

    /// Takes up a request that arrived at time `now` under an endpoint label
    /// of the caller's choice.
    pub fn start_labelled(method: &str, endpoint: String, now: u64) -> (exchange: Exchange)
        ensures
            exchange@ == (ExchangeView {
                stage: Stage::Start,
                started_at: now,
                method: method@,
                endpoint: endpoint@,
                status: Seq::<char>::empty(),
                elapsed: 0,
                request_bytes: 0,
                response_bytes: 0,
            }),
    {
        Exchange {
            stage: Stage::Start,
            started_at: now,
            method: method.to_owned(),
            endpoint,
            status: String::new(),
            elapsed: 0,
            request_bytes: 0,
            response_bytes: 0,
        }
    }

    /// How far the exchange has come.
    pub fn stage(&self) -> (stage: Stage)
        ensures
            stage == self@.stage,
    {
        self.stage
    }

    /// The method of the request.
    pub fn method(&self) -> (method: &str)
        ensures
            method@ == self@.method,
    {
        self.method.as_str()
    }

    /// The endpoint label.
    pub fn endpoint(&self) -> (endpoint: &str)
        ensures
            endpoint@ == self@.endpoint,
    {
        self.endpoint.as_str()
    }

    /// The status label; empty before the exchange is completed.
    pub fn status(&self) -> (status: &str)
        ensures
            status@ == self@.status,
    {
        self.status.as_str()
    }

    /// The duration in microseconds; zero before the exchange is completed.
    pub fn elapsed(&self) -> (elapsed: u64)
        ensures
            elapsed == self@.elapsed,
    {
        self.elapsed
    }

    /// The bytes of the request body that were read.
    pub fn request_bytes(&self) -> (bytes: u64)
        ensures
            bytes == self@.request_bytes,
    {
        self.request_bytes
    }

    /// The size of the response body.
    pub fn response_bytes(&self) -> (bytes: u64)
        ensures
            bytes == self@.response_bytes,
    {
        self.response_bytes
    }

    /// Wraps the request body with a counter of its own, fresh at zero, for
    /// the bytes that are read from it. The body itself goes in unchanged.
    /// A clone of the wrapper's counter reads the count when the wrapper has
    /// gone downstream.
    pub fn wrap_body<B>(&mut self, body: B) -> (wrapped: CountingBody<B>)
        ensures
            final(self)@ == old(self)@.wrapped(),
            *wrapped.inner() == body,
    {
        if self.stage == Stage::Start {
            self.stage = Stage::BodyWrapped;
        }
        CountingBody::new(body, ByteCounter::new())
    }

    /// Notes that the request was handed to the next stage of the pipeline.
    pub fn forward(&mut self)
        ensures
            final(self)@ == old(self)@.forwarded(),
    {
        if self.stage == Stage::BodyWrapped {
            self.stage = Stage::DownstreamRunning;
        }
    }

    /// Notes how the next stage ended, at time `now` on the clock of
    /// [`Exchange::start`], with `request_bytes` bytes of the request body
    /// read.
    pub fn complete(&mut self, downstream: &Downstream, request_bytes: usize, now: u64)
        ensures
            final(self)@ == old(self)@.completed(*downstream, request_bytes, now),
    {
        if self.stage != Stage::DownstreamRunning {
            return ;
        }
        let mut status = String::new();
        let mut size: u64 = 0;
        match downstream {
            Downstream::Responded(response) => {
                append_decimal(&mut status, response.status as u64);
                assert(status@ =~= decimal(response.status as nat));
                match response.declared_size {
                    Some(declared) => {
                        size = declared;
                    },
                    None => {},
                }
            },
            Downstream::Cancelled => {
                status.append("cancelled");
                assert(status@ =~= "cancelled"@);
            },
        }
        self.stage = Stage::Completed;
        self.status = status;
        self.elapsed = if now >= self.started_at {
            now - self.started_at
        } else {
            0
        };
        self.request_bytes = request_bytes as u64;
        self.response_bytes = size;
    }

    /// Applies the policy to a completed exchange: where it has the exchange
    /// recorded, the four measurements go into the registry; where not, the
    /// registry stays as it is. Tells whether the exchange was recorded.
    pub fn finish<R>(
        &mut self,
        policy: &PromOpts<R>,
        handles: &HttpMetrics,
        registry: &mut MetricRegistry,
    ) -> (recorded: bool)
        ensures
            final(self)@ == old(self)@.finished(*policy),
            final(registry)@ == after_exchange(old(registry)@, *handles, *policy, old(self)@),
            recorded == old(self)@.is_recorded(*policy),
            registry_wf(final(registry)@),
    {
        proof {
            use_type_invariant(&*registry);
        }
        if self.stage != Stage::Completed {
            return false;
        }
        if !policy.record_decision(self.status.as_str(), self.endpoint.as_str(), self.method.as_str()) {
            self.stage = Stage::Skipped;
            return false;
        }
        let mut labels: Vec<String> = Vec::new();
        labels.push(self.status.clone());
        labels.push(self.endpoint.clone());
        labels.push(self.method.clone());
        assert(labels.deep_view() =~= self@.labels());
        registry.increment(handles.request_count, &labels);
        registry.observe(handles.request_duration, &labels, self.elapsed);
        registry.observe(handles.request_size, &labels, self.request_bytes);
        registry.observe(handles.response_size, &labels, self.response_bytes);
        self.stage = Stage::Recorded;
        true
    }
}

/// The registry after the exchanges `exchanges` were finished one after the
/// other.
pub open spec fn after_exchanges<R>(
    metrics: Seq<MetricView>,
    handles: HttpMetrics,
    policy: PromOpts<R>,
    exchanges: Seq<ExchangeView>,
) -> Seq<MetricView>
    decreases exchanges.len(),
{
    if exchanges.len() == 0 {
        metrics
    } else {
        after_exchange(
            after_exchanges(metrics, handles, policy, exchanges.drop_last()),
            handles,
            policy,
            exchanges.last(),
        )
    }
}

/// The number of exchanges among `exchanges` that the policy has recorded.
pub open spec fn recorded_among<R>(policy: PromOpts<R>, exchanges: Seq<ExchangeView>) -> nat
    decreases exchanges.len(),
{
    if exchanges.len() == 0 {
        0
    } else {
        recorded_among(policy, exchanges.drop_last()) + (if exchanges.last().is_recorded(policy) {
            1nat
        } else {
            0nat
        })
    }
}

/// An exchange that the policy excludes leaves no trace: where one of its
/// three labels is matched by the pattern set for it, the registry is after
/// the exchange what it was before, for every metric and every series.
pub proof fn lemma_excluded_leaves_no_trace<R>(
    metrics: Seq<MetricView>,
    handles: HttpMetrics,
    policy: PromOpts<R>,
    exchange: ExchangeView,
)
    requires
        !policy.records(exchange.status, exchange.endpoint, exchange.method),
    ensures
        after_exchange(metrics, handles, policy, exchange) == metrics,
{
}

/// An exchange that is recorded is recorded exactly once. Under its labels
/// the request counter counts one more, and each of the three histograms
/// takes one observation: the duration, the bytes read of the request body
/// and the size of the response. The requests counted over all label values
/// are one more, unless the series was full. Series under other label
/// values stay as they were, and the handles still fit the registry.
pub proof fn lemma_recorded_once(
    metrics: Seq<MetricView>,
    handles: HttpMetrics,
    exchange: ExchangeView,
    other: Seq<Seq<char>>,
)
    requires
        handles.fits(metrics),
    ensures
        handles.fits(with_measurements(metrics, handles, exchange)),
        with_measurements(metrics, handles, exchange).len() == metrics.len(),
        count_of(
            with_measurements(metrics, handles, exchange),
            handles.request_count.index() as int,
            exchange.labels(),
        ) == sat_add(
            count_of(metrics, handles.request_count.index() as int, exchange.labels()),
            1,
        ),
        count_of(metrics, handles.request_count.index() as int, exchange.labels()) < u64::MAX
            ==> total_of(
            with_measurements(metrics, handles, exchange),
            handles.request_count.index() as int,
        ) == total_of(metrics, handles.request_count.index() as int) + 1,
        with_measurements(
            metrics,
            handles,
            exchange,
        )[handles.request_duration.index() as int].series_for(exchange.labels())
            == metrics[handles.request_duration.index() as int].series_for(
            exchange.labels(),
        ).observed(metrics[handles.request_duration.index() as int].bounds, exchange.elapsed),
        with_measurements(
            metrics,
            handles,
            exchange,
        )[handles.request_size.index() as int].series_for(exchange.labels())
            == metrics[handles.request_size.index() as int].series_for(
            exchange.labels(),
        ).observed(metrics[handles.request_size.index() as int].bounds, exchange.request_bytes),
        with_measurements(
            metrics,
            handles,
            exchange,
        )[handles.response_size.index() as int].series_for(exchange.labels())
            == metrics[handles.response_size.index() as int].series_for(
            exchange.labels(),
        ).observed(metrics[handles.response_size.index() as int].bounds, exchange.response_bytes),
        other != exchange.labels() ==> forall|i: int|
            0 <= i < metrics.len() ==> (#[trigger] with_measurements(
                metrics,
                handles,
                exchange,
            )[i]).series_for(other) == metrics[i].series_for(other),
{
    let labels = exchange.labels();
    let rc = handles.request_count.index() as int;
    let rd = handles.request_duration.index() as int;
    let rs = handles.request_size.index() as int;
    let rp = handles.response_size.index() as int;
    let counted = incremented(metrics, rc, labels);
    let timed = observed(counted, rd, labels, exchange.elapsed);
    let sized = observed(timed, rs, labels, exchange.request_bytes);
    let done = observed(sized, rp, labels, exchange.response_bytes);
    assert(request_label_names().len() == 3);
    assert(labels.len() == 3);
    assert(counts_at(metrics, rc, labels));
    lemma_incremented(metrics, rc, labels, rc, other);
    lemma_definition_kept(metrics[rc], metrics[rc].series_for(labels).bumped());
    assert(observes_at(counted, rd, labels));
    lemma_observed(counted, rd, labels, exchange.elapsed, rd, other);
    lemma_definition_kept(
        counted[rd],
        counted[rd].series_for(labels).observed(counted[rd].bounds, exchange.elapsed),
    );
    assert(observes_at(timed, rs, labels));
    lemma_observed(timed, rs, labels, exchange.request_bytes, rs, other);
    lemma_definition_kept(
        timed[rs],
        timed[rs].series_for(labels).observed(timed[rs].bounds, exchange.request_bytes),
    );
    assert(observes_at(sized, rp, labels));
    lemma_observed(sized, rp, labels, exchange.response_bytes, rp, other);
    lemma_definition_kept(
        sized[rp],
        sized[rp].series_for(labels).observed(sized[rp].bounds, exchange.response_bytes),
    );
    assert(done == with_measurements(metrics, handles, exchange));
    assert(done[rc] == counted[rc]);
    assert(done[rd] == timed[rd]);
    assert(done[rs] == sized[rs]);
    if other != labels {
        assert forall|i: int| 0 <= i < metrics.len() implies (#[trigger] done[i]).series_for(other)
            == metrics[i].series_for(other) by {
            lemma_incremented(metrics, rc, labels, i, other);
            lemma_observed(counted, rd, labels, exchange.elapsed, i, other);
            lemma_observed(timed, rs, labels, exchange.request_bytes, i, other);
            lemma_observed(sized, rp, labels, exchange.response_bytes, i, other);
        }
    }
}

/// No request is counted twice and none is lost: after any run of exchanges
/// the request counter, added up over all label values, stands higher by the
/// number of exchanges that were completed and not excluded. This holds as
/// long as that sum fits in a `u64`.
pub proof fn lemma_requests_counted<R>(
    metrics: Seq<MetricView>,
    handles: HttpMetrics,
    policy: PromOpts<R>,
    exchanges: Seq<ExchangeView>,
)
    requires
        handles.fits(metrics),
        total_of(metrics, handles.request_count.index() as int) + recorded_among(policy, exchanges)
            <= u64::MAX,
    ensures
        handles.fits(after_exchanges(metrics, handles, policy, exchanges)),
        total_of(
            after_exchanges(metrics, handles, policy, exchanges),
            handles.request_count.index() as int,
        ) == total_of(metrics, handles.request_count.index() as int) + recorded_among(
            policy,
            exchanges,
        ),
    decreases exchanges.len(),
{
    if exchanges.len() > 0 {
        let rc = handles.request_count.index() as int;
        let before = after_exchanges(metrics, handles, policy, exchanges.drop_last());
        lemma_requests_counted(metrics, handles, policy, exchanges.drop_last());
        if exchanges.last().is_recorded(policy) {
            lemma_count_within_total(before[rc], exchanges.last().labels());
            lemma_recorded_once(before, handles, exchanges.last(), exchanges.last().labels());
        }
    }
}

/// The request size that is recorded is the size of the body that was read,
/// whatever the chunks: where a body that fits in a `usize` arrives in
/// chunks, the count of the wrapped body's counter after them is what the
/// exchange is completed with, and the exchange is recorded, the
/// request-size histogram observes, under the labels of the exchange, the
/// length of the whole body.
pub proof fn lemma_request_size_observed<R>(
    metrics: Seq<MetricView>,
    handles: HttpMetrics,
    policy: PromOpts<R>,
    exchange: ExchangeView,
    chunks: Seq<Seq<u8>>,
    downstream: Downstream,
    now: u64,
)
    requires
        handles.fits(metrics),
        exchange.stage == Stage::DownstreamRunning,
        chunks.flatten().len() <= usize::MAX,
        forall|i: int| 0 <= i < chunks.len() ==> (#[trigger] chunks[i]).len() <= usize::MAX,
        policy.records(status_label(downstream), exchange.endpoint, exchange.method),
    ensures
        ({
            let counted = count_after(0, data_events(chunks)) as usize;
            let done = exchange.completed(downstream, counted, now);
            let index = handles.request_size.index() as int;
            &&& done.request_bytes == chunks.flatten().len()
            &&& after_exchange(metrics, handles, policy, done)[index].series_for(done.labels())
                == metrics[index].series_for(done.labels()).observed(
                metrics[index].bounds,
                chunks.flatten().len() as u64,
            )
        }),
{
    lemma_body_size_is_counted(chunks);
    let counted = count_after(0, data_events(chunks)) as usize;
    let done = exchange.completed(downstream, counted, now);
    lemma_recorded_once(metrics, handles, done, done.labels());
}

} // verus!
