//! The metrics of the service: the request metrics that the middleware
//! feeds, the uptime, the outcome of scrapes and the errors of outgoing calls.

use vstd::prelude::*;
use vstd::string::*;
use crate::registry::{
    bytes_bounds, bytes_ladder, has_name, incremented, labels_ok, lemma_name_chars, name_chars,
    new_metric, pairwise_distinct, registry_wf, seconds_bounds, strictly_ascending, valid_name,
    Buckets, Handle, MetricKind, MetricRegistry, MetricView, RegistryError,
};

verus! {

/// The label names of the request metrics.
pub open spec fn request_label_names() -> Seq<Seq<char>> {
    seq!["status"@, "endpoint"@, "method"@]
}

/// The seconds that the service has been up.
pub open spec fn uptime_metric() -> MetricView {
    new_metric(
        "uptime"@,
        MetricKind::Counter,
        "HTTP service uptime."@,
        Seq::<Seq<char>>::empty(),
        None,
    )
}

/// The number of requests.
pub open spec fn request_count_metric() -> MetricView {
    new_metric(
        "http_request_count_total"@,
        MetricKind::Counter,
        "Total number of HTTP requests."@,
        request_label_names(),
        None,
    )
}

/// The time that requests took, in seconds.
pub open spec fn request_duration_metric() -> MetricView {
    new_metric(
        "http_request_duration_seconds"@,
        MetricKind::Histogram,
        "HTTP request latencies in seconds."@,
        request_label_names(),
        None,
    )
}

/// The size of request bodies, in bytes.
pub open spec fn request_size_metric() -> MetricView {
    new_metric(
        "http_request_size_bytes"@,
        MetricKind::Histogram,
        "HTTP request sizes in bytes"@,
        request_label_names(),
        Some(bytes_ladder()),
    )
}

/// The size of response bodies, in bytes.
pub open spec fn response_size_metric() -> MetricView {
    new_metric(
        "http_response_size_bytes"@,
        MetricKind::Histogram,
        "HTTP response sizes in bytes"@,
        request_label_names(),
        Some(bytes_ladder()),
    )
}

/// The number of scrapes, by the status code they were answered with.
pub open spec fn scrapes_metric() -> MetricView {
    new_metric(
        "promhttp_metric_handler_requests_total"@,
        MetricKind::Counter,
        "Total number of scrapes by HTTP status code."@,
        seq!["code"@],
        None,
    )
}

/// The number of outgoing calls that failed, by the name of the error.
pub open spec fn client_errors_metric() -> MetricView {
    new_metric(
        "client_request_error_count"@,
        MetricKind::Gauge,
        "Number of failed calls to other services."@,
        seq!["err_name"@],
        None,
    )
}

/// Whether one of the service's metric names is registered in `metrics`.
pub open spec fn name_taken(metrics: Seq<MetricView>) -> bool {
    ||| has_name(metrics, "uptime"@)
    ||| has_name(metrics, "http_request_count_total"@)
    ||| has_name(metrics, "http_request_duration_seconds"@)
    ||| has_name(metrics, "http_request_size_bytes"@)
    ||| has_name(metrics, "http_response_size_bytes"@)
    ||| has_name(metrics, "promhttp_metric_handler_requests_total"@)
    ||| has_name(metrics, "client_request_error_count"@)
}

/// The handles of the service's metrics.
#[derive(Debug, Clone, Copy)]
pub struct HttpMetrics {
    pub uptime: Handle,
    pub request_count: Handle,
    pub request_duration: Handle,
    pub request_size: Handle,
    pub response_size: Handle,
    pub scrapes: Handle,
    pub client_errors: Handle,
}

impl HttpMetrics {
    /// Whether the handles are those of the service's metrics registered one
    /// after the other from place `first` on.
    pub open spec fn starts_at(&self, first: int) -> bool {
        &&& self.uptime.index() == first
        &&& self.request_count.index() == first + 1
        &&& self.request_duration.index() == first + 2
        &&& self.request_size.index() == first + 3
        &&& self.response_size.index() == first + 4
        &&& self.scrapes.index() == first + 5
        &&& self.client_errors.index() == first + 6
    }

    /// Whether `metrics` holds the service's metrics at the places that the
    /// handles name, each as it was registered but for its series.
    pub open spec fn fits(&self, metrics: Seq<MetricView>) -> bool {
        &&& registry_wf(metrics)
        &&& self.client_errors.index() < metrics.len()
        &&& self.starts_at(self.uptime.index() as int)
        &&& same_definition(metrics[self.uptime.index() as int], uptime_metric())
        &&& same_definition(metrics[self.request_count.index() as int], request_count_metric())
        &&& same_definition(
            metrics[self.request_duration.index() as int],
            request_duration_metric(),
        )
        &&& same_definition(metrics[self.request_size.index() as int], request_size_metric())
        &&& same_definition(metrics[self.response_size.index() as int], response_size_metric())
        &&& same_definition(metrics[self.scrapes.index() as int], scrapes_metric())
        &&& same_definition(metrics[self.client_errors.index() as int], client_errors_metric())
    }
}

/// Whether two metrics are defined alike: all but their series is equal.
pub open spec fn same_definition(a: MetricView, b: MetricView) -> bool {
    &&& a.name == b.name
    &&& a.help == b.help
    &&& a.kind == b.kind
    &&& a.label_names == b.label_names
    &&& a.bounds == b.bounds
    &&& a.places == b.places
}

/// The service's metrics in the order in which they are registered.
pub open spec fn service_metrics() -> Seq<MetricView> {
    seq![
        uptime_metric(),
        request_count_metric(),
        request_duration_metric(),
        request_size_metric(),
        response_size_metric(),
        scrapes_metric(),
        client_errors_metric(),
    ]
}

proof fn lemma_metric_names()
    ensures
        valid_name("uptime"@, true),
        valid_name("http_request_count_total"@, true),
        valid_name("http_request_duration_seconds"@, true),
        valid_name("http_request_size_bytes"@, true),
        valid_name("http_response_size_bytes"@, true),
        valid_name("promhttp_metric_handler_requests_total"@, true),
        valid_name("client_request_error_count"@, true),
{
    reveal_with_fuel(name_chars, 40);
    reveal_strlit("uptime");
    reveal_strlit("http_request_count_total");
    reveal_strlit("http_request_duration_seconds");
    reveal_strlit("http_request_size_bytes");
    reveal_strlit("http_response_size_bytes");
    reveal_strlit("promhttp_metric_handler_requests_total");
    reveal_strlit("client_request_error_count");
    lemma_name_chars("uptime"@, true, 6);
    lemma_name_chars("http_request_count_total"@, true, 24);
    lemma_name_chars("http_request_duration_seconds"@, true, 29);
    lemma_name_chars("http_request_size_bytes"@, true, 23);
    lemma_name_chars("http_response_size_bytes"@, true, 24);
    lemma_name_chars("promhttp_metric_handler_requests_total"@, true, 38);
    lemma_name_chars("client_request_error_count"@, true, 26);
}

proof fn lemma_metric_names_differ()
    ensures
        "uptime"@ != "http_request_count_total"@,
        "uptime"@ != "http_request_duration_seconds"@,
        "uptime"@ != "http_request_size_bytes"@,
        "uptime"@ != "http_response_size_bytes"@,
        "uptime"@ != "promhttp_metric_handler_requests_total"@,
        "uptime"@ != "client_request_error_count"@,
        "http_request_count_total"@ != "http_request_duration_seconds"@,
        "http_request_count_total"@ != "http_request_size_bytes"@,
        "http_request_count_total"@ != "http_response_size_bytes"@,
        "http_request_count_total"@ != "promhttp_metric_handler_requests_total"@,
        "http_request_count_total"@ != "client_request_error_count"@,
        "http_request_duration_seconds"@ != "http_request_size_bytes"@,
        "http_request_duration_seconds"@ != "http_response_size_bytes"@,
        "http_request_duration_seconds"@ != "promhttp_metric_handler_requests_total"@,
        "http_request_duration_seconds"@ != "client_request_error_count"@,
        "http_request_size_bytes"@ != "http_response_size_bytes"@,
        "http_request_size_bytes"@ != "promhttp_metric_handler_requests_total"@,
        "http_request_size_bytes"@ != "client_request_error_count"@,
        "http_response_size_bytes"@ != "promhttp_metric_handler_requests_total"@,
        "http_response_size_bytes"@ != "client_request_error_count"@,
        "promhttp_metric_handler_requests_total"@ != "client_request_error_count"@,
{
    reveal_strlit("uptime");
    reveal_strlit("http_request_count_total");
    reveal_strlit("http_request_duration_seconds");
    reveal_strlit("http_request_size_bytes");
    reveal_strlit("http_response_size_bytes");
    reveal_strlit("promhttp_metric_handler_requests_total");
    reveal_strlit("client_request_error_count");
    assert("uptime"@.len() == 6);
    assert("http_request_count_total"@.len() == 24);
    assert("http_request_duration_seconds"@.len() == 29);
    assert("http_request_size_bytes"@.len() == 23);
    assert("http_response_size_bytes"@.len() == 24);
    assert("promhttp_metric_handler_requests_total"@.len() == 38);
    assert("client_request_error_count"@.len() == 26);
    assert("http_request_count_total"@[8] != "http_response_size_bytes"@[8]);
}

proof fn lemma_label_names()
    ensures
        labels_ok(MetricKind::Counter, Seq::<Seq<char>>::empty()),
        labels_ok(MetricKind::Counter, request_label_names()),
        labels_ok(MetricKind::Histogram, request_label_names()),
        labels_ok(MetricKind::Counter, seq!["code"@]),
        labels_ok(MetricKind::Gauge, seq!["err_name"@]),
{
    reveal_with_fuel(name_chars, 10);
    reveal_strlit("status");
    reveal_strlit("endpoint");
    reveal_strlit("method");
    reveal_strlit("code");
    reveal_strlit("err_name");
    reveal_strlit("le");
    lemma_name_chars("status"@, false, 6);
    lemma_name_chars("endpoint"@, false, 8);
    lemma_name_chars("method"@, false, 6);
    lemma_name_chars("code"@, false, 4);
    lemma_name_chars("err_name"@, false, 8);
    assert("status"@.len() == 6);
    assert("endpoint"@.len() == 8);
    assert("method"@.len() == 6);
    assert("code"@.len() == 4);
    assert("err_name"@.len() == 8);
    assert("le"@.len() == 2);
    assert("status"@[0] != "method"@[0]);
    let names = request_label_names();
    assert(names[0] == "status"@ && names[1] == "endpoint"@ && names[2] == "method"@);
    assert(pairwise_distinct(names));
    assert(!names.contains("le"@));
}

proof fn lemma_ladders()
    ensures
        strictly_ascending(bytes_bounds()),
        strictly_ascending(seconds_bounds()),
{
}

impl HttpMetrics {
    /// Registers the service's metrics, in the order of [`service_metrics`].
    /// Refused, with the registry left as it was, where one of their names is
    /// registered already.
    pub fn register(registry: &mut MetricRegistry) -> (registered: Result<
        HttpMetrics,
        RegistryError,
    >)
        ensures
            name_taken(old(registry)@) ==> registered is Err && registered->Err_0
                == RegistryError::DuplicateName && final(registry)@ == old(registry)@,
            !name_taken(old(registry)@) ==> registered is Ok && registered->Ok_0.starts_at(
                old(registry)@.len() as int,
            ) && final(registry)@ == old(registry)@ + service_metrics(),
            registered matches Ok(handles) ==> handles.fits(final(registry)@),
    {
        if registry.lookup("uptime").is_some() || registry.lookup(
            "http_request_count_total",
        ).is_some() || registry.lookup("http_request_duration_seconds").is_some()
            || registry.lookup("http_request_size_bytes").is_some() || registry.lookup(
            "http_response_size_bytes",
        ).is_some() || registry.lookup("promhttp_metric_handler_requests_total").is_some()
            || registry.lookup("client_request_error_count").is_some() {
            return Err(RegistryError::DuplicateName);
        }
        proof {
            lemma_metric_names();
            lemma_metric_names_differ();
            lemma_label_names();
            lemma_ladders();
        }
        let ghost before = registry@;
        let no_labels: Vec<String> = Vec::new();
        let mut request_labels: Vec<String> = Vec::new();
        request_labels.push("status".to_owned());
        request_labels.push("endpoint".to_owned());
        request_labels.push("method".to_owned());
        let mut code: Vec<String> = Vec::new();
        code.push("code".to_owned());
        let mut err_name: Vec<String> = Vec::new();
        err_name.push("err_name".to_owned());
        assert(no_labels.deep_view() =~= Seq::<Seq<char>>::empty());
        assert(request_labels.deep_view() =~= request_label_names());
        assert(code.deep_view() =~= seq!["code"@]);
        assert(err_name.deep_view() =~= seq!["err_name"@]);
        let n = registry.len();
        let uptime = match registry.register(
            "uptime",
            MetricKind::Counter,
            "HTTP service uptime.",
            &no_labels,
            None,
        ) {
            Ok(h) => h,
            Err(e) => {
                return Err(e);
            },
        };
        assert(registry@ == before.push(uptime_metric()));
        let request_count = match registry.register(
            "http_request_count_total",
            MetricKind::Counter,
            "Total number of HTTP requests.",
            &request_labels,
            None,
        ) {
            Ok(h) => h,
            Err(e) => {
                return Err(e);
            },
        };
        let request_duration = match registry.register(
            "http_request_duration_seconds",
            MetricKind::Histogram,
            "HTTP request latencies in seconds.",
            &request_labels,
            None,
        ) {
            Ok(h) => h,
            Err(e) => {
                return Err(e);
            },
        };
        let request_size = match registry.register(
            "http_request_size_bytes",
            MetricKind::Histogram,
            "HTTP request sizes in bytes",
            &request_labels,
            Some(Buckets::bytes()),
        ) {
            Ok(h) => h,
            Err(e) => {
                return Err(e);
            },
        };
        let response_size = match registry.register(
            "http_response_size_bytes",
            MetricKind::Histogram,
            "HTTP response sizes in bytes",
            &request_labels,
            Some(Buckets::bytes()),
        ) {
            Ok(h) => h,
            Err(e) => {
                return Err(e);
            },
        };
        let scrapes = match registry.register(
            "promhttp_metric_handler_requests_total",
            MetricKind::Counter,
            "Total number of scrapes by HTTP status code.",
            &code,
            None,
        ) {
            Ok(h) => h,
            Err(e) => {
                return Err(e);
            },
        };
        let client_errors = match registry.register(
            "client_request_error_count",
            MetricKind::Gauge,
            "Number of failed calls to other services.",
            &err_name,
            None,
        ) {
            Ok(h) => h,
            Err(e) => {
                return Err(e);
            },
        };
        assert(registry@ =~= before + service_metrics());
        Ok(
            HttpMetrics {
                uptime,
                request_count,
                request_duration,
                request_size,
                response_size,
                scrapes,
                client_errors,
            },
        )
    }
}

/// Counts one more outgoing call that failed with the error called `name`.
pub fn record_error_count(registry: &mut MetricRegistry, handles: &HttpMetrics, name: &str)
    ensures
        final(registry)@ == incremented(
            old(registry)@,
            handles.client_errors.index() as int,
            seq![name@],
        ),
{
    let mut labels: Vec<String> = Vec::new();
    labels.push(name.to_owned());
    assert(labels.deep_view() =~= seq![name@]);
    registry.increment(handles.client_errors, &labels);
}

} // verus!
