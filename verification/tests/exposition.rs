use http_metrics::exposition::{prometheus_handler, respond, EncodeError};
use http_metrics::metrics::HttpMetrics;
use http_metrics::registry::{Buckets, MetricKind, MetricRegistry};

fn tuple(values: &[&str]) -> Vec<String> {
    values.iter().map(|v| v.to_string()).collect()
}

#[test]
fn empty_registry_has_empty_payload() {
    assert_eq!(MetricRegistry::new().snapshot(), "");
}

#[test]
fn counter_payload_is_exact() {
    let mut registry = MetricRegistry::new();
    let plain = registry.register("up", MetricKind::Counter, "Up.", &tuple(&[]), None).unwrap();
    let hits = registry
        .register("hits", MetricKind::Counter, "All \\ hits\nso far", &tuple(&["code", "path"]), None)
        .unwrap();
    let level = registry.register("level", MetricKind::Gauge, "", &tuple(&["k"]), None).unwrap();
    registry.increment(plain, &tuple(&[]));
    registry.increment(hits, &tuple(&["200", "/a\"b\\c\nd"]));
    registry.increment(hits, &tuple(&["500", "/x"]));
    registry.increment(hits, &tuple(&["200", "/a\"b\\c\nd"]));
    registry.increment(level, &tuple(&["é"]));
    let expected = "# HELP up Up.\n\
# TYPE up counter\n\
up 1\n\
# HELP hits All \\\\ hits\\nso far\n\
# TYPE hits counter\n\
hits{code=\"200\",path=\"/a\\\"b\\\\c\\nd\"} 2\n\
hits{code=\"500\",path=\"/x\"} 1\n\
# HELP level \n\
# TYPE level gauge\n\
level{k=\"é\"} 1\n";
    assert_eq!(registry.snapshot(), expected);
}

#[test]
fn histogram_payload_is_exact() {
    let mut registry = MetricRegistry::new();
    let size = registry
        .register(
            "size_bytes",
            MetricKind::Histogram,
            "Sizes.",
            &tuple(&["m"]),
            Some(Buckets { bounds: vec![10, 100], places: 0 }),
        )
        .unwrap();
    let took = registry
        .register(
            "took_seconds",
            MetricKind::Histogram,
            "Time.",
            &tuple(&[]),
            Some(Buckets { bounds: vec![5_000, 2_500_000, 10_000_000], places: 6 }),
        )
        .unwrap();
    registry.observe(size, &tuple(&["GET"]), 7);
    registry.observe(size, &tuple(&["GET"]), 100);
    registry.observe(size, &tuple(&["GET"]), 101);
    registry.observe(took, &tuple(&[]), 1_500_000);
    registry.observe(took, &tuple(&[]), 5_000);
    registry.observe(took, &tuple(&[]), 20);
    let expected = "# HELP size_bytes Sizes.\n\
# TYPE size_bytes histogram\n\
size_bytes_bucket{m=\"GET\",le=\"10\"} 1\n\
size_bytes_bucket{m=\"GET\",le=\"100\"} 2\n\
size_bytes_bucket{m=\"GET\",le=\"+Inf\"} 3\n\
size_bytes_sum{m=\"GET\"} 208\n\
size_bytes_count{m=\"GET\"} 3\n\
# HELP took_seconds Time.\n\
# TYPE took_seconds histogram\n\
took_seconds_bucket{le=\"0.005\"} 2\n\
took_seconds_bucket{le=\"2.5\"} 3\n\
took_seconds_bucket{le=\"10\"} 3\n\
took_seconds_bucket{le=\"+Inf\"} 3\n\
took_seconds_sum 1.50502\n\
took_seconds_count 3\n";
    assert_eq!(registry.snapshot(), expected);
}

#[test]
fn label_less_metric_is_there_from_the_start() {
    let mut registry = MetricRegistry::new();
    let handles = HttpMetrics::register(&mut registry).unwrap();
    let text = registry.snapshot();
    assert!(text.starts_with("# HELP uptime HTTP service uptime.\n# TYPE uptime counter\nuptime 0\n"));
    assert!(text.contains(
        "# HELP http_request_count_total Total number of HTTP requests.\n# TYPE http_request_count_total counter\n# HELP"
    ));
    assert_eq!(registry.count(handles.uptime, &tuple(&[])), 0);
}

#[test]
fn every_line_of_the_payload_parses() {
    let mut registry = MetricRegistry::new();
    let handles = HttpMetrics::register(&mut registry).unwrap();
    let l = tuple(&["200", "/get/{uid}/something", "GET"]);
    for i in 0..20u64 {
        registry.increment(handles.request_count, &l);
        registry.observe(handles.request_duration, &l, i * 700_001);
        registry.observe(handles.request_size, &l, i * 97);
        registry.observe(handles.response_size, &tuple(&["404", "/unknown", "weird \"m\"\n"]), i);
    }
    let text = registry.snapshot();
    assert!(text.ends_with('\n'));
    for line in text.lines() {
        if line.starts_with("# HELP ") || line.starts_with("# TYPE ") {
            continue;
        }
        let (head, value) = line.rsplit_once(' ').unwrap();
        assert!(value.parse::<f64>().is_ok(), "value {:?} in {:?}", value, line);
        let name_end = head.find('{').unwrap_or(head.len());
        assert!(head[..name_end]
            .chars()
            .all(|c| c.is_ascii_alphanumeric() || c == '_' || c == ':'));
        if name_end < head.len() {
            assert!(head.ends_with('}'));
        }
    }
}

#[test]
fn scrape_is_answered_and_counted() {
    let mut registry = MetricRegistry::new();
    let handles = HttpMetrics::register(&mut registry).unwrap();
    let before = registry.snapshot();
    let response = prometheus_handler(&mut registry, &handles);
    assert_eq!(response.status, 200);
    assert_eq!(response.content_type, "text/plain; version=0.0.4");
    assert_eq!(response.body, before);
    assert_eq!(registry.count(handles.scrapes, &tuple(&["200"])), 1);
    let second = prometheus_handler(&mut registry, &handles);
    assert!(second.body.contains("promhttp_metric_handler_requests_total{code=\"200\"} 1\n"));
    assert_eq!(registry.count(handles.scrapes, &tuple(&["200"])), 2);
    assert_eq!(registry.count(handles.scrapes, &tuple(&["500"])), 0);
}

#[test]
fn failed_scrape_is_a_500_and_counted() {
    let mut registry = MetricRegistry::new();
    let handles = HttpMetrics::register(&mut registry).unwrap();
    let response = respond(
        &mut registry,
        &handles,
        Err(EncodeError { reason: "broken".to_string() }),
    );
    assert_eq!(response.status, 500);
    assert_eq!(response.content_type, "text/plain; charset=utf-8");
    assert_eq!(response.body, "Internal Server Error");
    assert_eq!(registry.count(handles.scrapes, &tuple(&["500"])), 1);
    assert_eq!(registry.count(handles.scrapes, &tuple(&["200"])), 0);
    let ok = respond(&mut registry, &handles, Ok("payload".to_string()));
    assert_eq!(ok.status, 200);
    assert_eq!(ok.body, "payload");
    assert_eq!(registry.count(handles.scrapes, &tuple(&["200"])), 1);
}
