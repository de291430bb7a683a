use http_metrics::exposition::prometheus_handler;
use http_metrics::metrics::HttpMetrics;
use http_metrics::middleware::{Downstream, Exchange, ResponseInfo, Stage};
use http_metrics::policy::{EndpointResolver, ExcludePattern, PromOpts, RequestInfo};
use http_metrics::counting::Polled;
use http_metrics::registry::MetricRegistry;
use http_metrics::uptime::UptimeTicker;

fn tuple(values: &[&str]) -> Vec<String> {
    values.iter().map(|v| v.to_string()).collect()
}

fn request(method: &str, path: &str, route: Option<&str>) -> RequestInfo {
    RequestInfo {
        method: method.to_string(),
        path: path.to_string(),
        matched_route: route.map(|r| r.to_string()),
    }
}

fn responded(status: u16, size: Option<u64>) -> Downstream {
    Downstream::Responded(ResponseInfo { status, declared_size: size })
}

struct Service {
    registry: MetricRegistry,
    handles: HttpMetrics,
    policy: PromOpts,
}

fn service() -> Service {
    let mut registry = MetricRegistry::new();
    let handles = HttpMetrics::register(&mut registry).unwrap();
    Service { registry, handles, policy: PromOpts::new() }
}

fn run(
    service: &mut Service,
    info: &RequestInfo,
    chunks: &[&[u8]],
    downstream: Downstream,
    start: u64,
    end: u64,
) -> Exchange {
    let mut exchange = Exchange::start(&service.policy, info, start);
    let mut body = exchange.wrap_body(chunks.to_vec());
    let counter = body.counter().clone();
    assert_eq!(counter.load(), 0);
    exchange.forward();
    for chunk in chunks {
        body.record(&Polled::Data(chunk.len()));
    }
    body.record(&Polled::Finished);
    assert_eq!(body.inner(), &chunks.to_vec());
    drop(body);
    exchange.complete(&downstream, counter.load(), end);
    exchange.finish(&service.policy, &service.handles, &mut service.registry);
    exchange
}

#[test]
fn stages_follow_one_another() {
    let mut s = service();
    let info = request("GET", "/get/7/something", Some("/get/{uid}/something"));
    let mut exchange = Exchange::start(&s.policy, &info, 1_000);
    assert_eq!(exchange.stage(), Stage::Start);
    assert_eq!(exchange.method(), "GET");
    assert_eq!(exchange.endpoint(), "/get/{uid}/something");
    assert_eq!(exchange.status(), "");
    let body = exchange.wrap_body("payload");
    assert_eq!(exchange.stage(), Stage::BodyWrapped);
    assert_eq!(*body.inner(), "payload");
    assert_eq!(body.counter().load(), 0);
    exchange.forward();
    assert_eq!(exchange.stage(), Stage::DownstreamRunning);
    exchange.complete(&responded(201, Some(12)), 7, 3_500);
    assert_eq!(exchange.stage(), Stage::Completed);
    assert_eq!(exchange.status(), "201");
    assert_eq!(exchange.elapsed(), 2_500);
    assert_eq!(exchange.request_bytes(), 7);
    assert_eq!(exchange.response_bytes(), 12);
    assert!(exchange.finish(&s.policy, &s.handles, &mut s.registry));
    assert_eq!(exchange.stage(), Stage::Recorded);
}

#[test]
fn steps_out_of_turn_change_nothing() {
    let mut s = service();
    let before = s.registry.snapshot();
    let info = request("GET", "/x", Some("/x"));
    let mut exchange = Exchange::start(&s.policy, &info, 0);
    exchange.forward();
    assert_eq!(exchange.stage(), Stage::Start);
    exchange.complete(&responded(200, None), 1, 5);
    assert_eq!(exchange.stage(), Stage::Start);
    assert!(!exchange.finish(&s.policy, &s.handles, &mut s.registry));
    assert_eq!(exchange.stage(), Stage::Start);
    assert_eq!(s.registry.snapshot(), before);
    let _ = exchange.wrap_body(());
    let _ = exchange.wrap_body(());
    assert_eq!(exchange.stage(), Stage::BodyWrapped);
    exchange.complete(&responded(200, None), 1, 5);
    assert_eq!(exchange.stage(), Stage::BodyWrapped);
    assert_eq!(s.registry.snapshot(), before);
}

#[test]
fn a_request_is_recorded_once_not_twice() {
    let mut s = service();
    let info = request("GET", "/x", Some("/x"));
    let mut exchange = run(&mut s, &info, &[b"abc"], responded(200, Some(2)), 10, 20);
    assert_eq!(exchange.stage(), Stage::Recorded);
    let after = s.registry.snapshot();
    assert!(!exchange.finish(&s.policy, &s.handles, &mut s.registry));
    exchange.complete(&responded(500, None), 9, 99);
    assert!(!exchange.finish(&s.policy, &s.handles, &mut s.registry));
    assert_eq!(exchange.status(), "200");
    assert_eq!(s.registry.snapshot(), after);
    assert_eq!(s.registry.total(s.handles.request_count), 1);
}

#[test]
fn end_to_end_37_bytes() {
    let mut s = service();
    let labels = tuple(&["200", "/get/{uid}/something", "GET"]);
    let count_before = s.registry.count(s.handles.request_count, &labels);
    let observations_before = s.registry.count(s.handles.request_size, &labels);
    let sum_before = s.registry.sum(s.handles.request_size, &labels);
    let info = request("GET", "/get/42/something", Some("/get/{uid}/something"));
    let body: Vec<u8> = vec![b'x'; 37];
    run(&mut s, &info, &[&body[..10], &body[10..]], responded(200, Some(64)), 1_000, 8_500);
    assert_eq!(s.registry.count(s.handles.request_count, &labels), count_before + 1);
    assert_eq!(s.registry.count(s.handles.request_size, &labels), observations_before + 1);
    assert_eq!(s.registry.sum(s.handles.request_size, &labels) - sum_before, 37);
    assert_eq!(s.registry.buckets(s.handles.request_size, &labels), vec![1, 1, 1, 1, 1, 1]);
    assert_eq!(s.registry.sum(s.handles.response_size, &labels), 64);
    assert_eq!(s.registry.sum(s.handles.request_duration, &labels), 7_500);
    assert_eq!(
        s.registry.buckets(s.handles.request_duration, &labels),
        vec![0, 1, 1, 1, 1, 1, 1, 1, 1, 1, 1]
    );
    let text = s.registry.snapshot();
    assert!(text.contains(
        "http_request_count_total{status=\"200\",endpoint=\"/get/{uid}/something\",method=\"GET\"} 1\n"
    ));
    assert!(text.contains(
        "http_request_size_bytes_sum{status=\"200\",endpoint=\"/get/{uid}/something\",method=\"GET\"} 37\n"
    ));
    assert!(text.contains(
        "http_request_size_bytes_count{status=\"200\",endpoint=\"/get/{uid}/something\",method=\"GET\"} 1\n"
    ));
    assert!(text.contains(
        "http_request_duration_seconds_sum{status=\"200\",endpoint=\"/get/{uid}/something\",method=\"GET\"} 0.0075\n"
    ));
}

#[test]
fn request_size_is_the_body_size_whatever_the_chunks() {
    let body: Vec<u8> = (0..5000u32).map(|i| i as u8).collect();
    for chunk in [1usize, 3, 100, 4999, 5000, 9000] {
        let mut s = service();
        let info = request("POST", "/del/1/something", Some("/del/{uid}/something"));
        let chunks: Vec<&[u8]> = body.chunks(chunk).collect();
        let exchange = run(&mut s, &info, &chunks, responded(200, None), 0, 1);
        assert_eq!(exchange.request_bytes(), 5000);
        let labels = tuple(&["200", "/del/{uid}/something", "POST"]);
        assert_eq!(s.registry.sum(s.handles.request_size, &labels), 5000);
        assert_eq!(s.registry.count(s.handles.request_size, &labels), 1);
    }
}

#[test]
fn count_over_all_labels_is_the_number_of_requests() {
    let mut s = service();
    s.policy.exclude_regex_endpoint = Some(ExcludePattern::new("^/metrics$").unwrap());
    let routes = [
        ("GET", "/", Some("/"), 200u16),
        ("GET", "/get/1/something", Some("/get/{uid}/something"), 200),
        ("GET", "/get/0/something", Some("/get/{uid}/something"), 422),
        ("POST", "/del/1/something", Some("/del/{uid}/something"), 200),
        ("GET", "/nowhere", None, 404),
        ("GET", "/metrics", Some("/metrics"), 200),
    ];
    let mut recorded = 0u128;
    for i in 0..120usize {
        let (method, path, route, status) = routes[i % routes.len()];
        let exchange = run(
            &mut s,
            &request(method, path, route),
            &[b"body"],
            responded(status, Some(3)),
            i as u64,
            i as u64 + 10,
        );
        if exchange.stage() == Stage::Recorded {
            recorded += 1;
        } else {
            assert_eq!(exchange.stage(), Stage::Skipped);
            assert_eq!(path, "/metrics");
        }
        assert_eq!(s.registry.total(s.handles.request_count), recorded);
    }
    assert_eq!(recorded, 100);
    assert_eq!(s.registry.total(s.handles.request_count), 100);
    assert_eq!(s.registry.total(s.handles.request_duration), 100);
    assert_eq!(s.registry.total(s.handles.request_size), 100);
    assert_eq!(s.registry.total(s.handles.response_size), 100);
    assert_eq!(
        s.registry.count(s.handles.request_count, &tuple(&["200", "/get/{uid}/something", "GET"])),
        20
    );
    assert_eq!(s.registry.count(s.handles.request_count, &tuple(&["404", "/unknown", "GET"])), 20);
}

#[test]
fn excluded_status_leaves_the_metrics_unchanged() {
    let mut s = service();
    s.policy.exclude_regex_status = Some(ExcludePattern::new("200").unwrap());
    let info = request("GET", "/get/1/something", Some("/get/{uid}/something"));
    run(&mut s, &info, &[b"abc"], responded(500, Some(9)), 0, 10);
    let labels = tuple(&["200", "/get/{uid}/something", "GET"]);
    let before = (
        s.registry.count(s.handles.request_count, &labels),
        s.registry.count(s.handles.request_duration, &labels),
        s.registry.sum(s.handles.request_duration, &labels),
        s.registry.buckets(s.handles.request_duration, &labels),
        s.registry.count(s.handles.request_size, &labels),
        s.registry.sum(s.handles.request_size, &labels),
        s.registry.buckets(s.handles.request_size, &labels),
        s.registry.count(s.handles.response_size, &labels),
        s.registry.sum(s.handles.response_size, &labels),
        s.registry.buckets(s.handles.response_size, &labels),
    );
    let text = s.registry.snapshot();
    let exchange = run(&mut s, &info, &[b"abcdef"], responded(200, Some(11)), 20, 90);
    assert_eq!(exchange.stage(), Stage::Skipped);
    let after = (
        s.registry.count(s.handles.request_count, &labels),
        s.registry.count(s.handles.request_duration, &labels),
        s.registry.sum(s.handles.request_duration, &labels),
        s.registry.buckets(s.handles.request_duration, &labels),
        s.registry.count(s.handles.request_size, &labels),
        s.registry.sum(s.handles.request_size, &labels),
        s.registry.buckets(s.handles.request_size, &labels),
        s.registry.count(s.handles.response_size, &labels),
        s.registry.sum(s.handles.response_size, &labels),
        s.registry.buckets(s.handles.response_size, &labels),
    );
    assert_eq!(before, after);
    assert_eq!(s.registry.snapshot(), text);
    assert_eq!(s.registry.total(s.handles.request_count), 1);
}

#[test]
fn excluded_method_or_endpoint_is_skipped() {
    let mut s = service();
    s.policy.exclude_regex_method = Some(ExcludePattern::new("^HEAD$").unwrap());
    let before = s.registry.snapshot();
    let exchange = run(&mut s, &request("HEAD", "/", Some("/")), &[], responded(200, None), 0, 1);
    assert_eq!(exchange.stage(), Stage::Skipped);
    assert_eq!(s.registry.snapshot(), before);
    let exchange = run(&mut s, &request("GET", "/", Some("/")), &[], responded(200, None), 0, 1);
    assert_eq!(exchange.stage(), Stage::Recorded);
}

#[test]
fn failed_handler_is_recorded_once_as_500() {
    let mut s = service();
    let info = request("GET", "/get/1/something", Some("/get/{uid}/something"));
    let exchange = run(&mut s, &info, &[b"abc"], responded(500, Some(21)), 100, 250);
    assert_eq!(exchange.stage(), Stage::Recorded);
    assert_eq!(exchange.status(), "500");
    let labels = tuple(&["500", "/get/{uid}/something", "GET"]);
    assert_eq!(s.registry.count(s.handles.request_count, &labels), 1);
    assert_eq!(s.registry.count(s.handles.request_duration, &labels), 1);
    assert_eq!(s.registry.count(s.handles.request_size, &labels), 1);
    assert_eq!(s.registry.count(s.handles.response_size, &labels), 1);
    assert_eq!(s.registry.total(s.handles.request_count), 1);
    assert_eq!(
        s.registry.count(s.handles.request_count, &tuple(&["200", "/get/{uid}/something", "GET"])),
        0
    );
}

#[test]
fn cancelled_exchange_keeps_the_partial_count() {
    let mut s = service();
    let info = request("POST", "/del/1/something", Some("/del/{uid}/something"));
    let exchange = run(&mut s, &info, &[b"part"], Downstream::Cancelled, 5, 4);
    assert_eq!(exchange.status(), "cancelled");
    assert_eq!(exchange.elapsed(), 0);
    assert_eq!(exchange.request_bytes(), 4);
    assert_eq!(exchange.response_bytes(), 0);
    let labels = tuple(&["cancelled", "/del/{uid}/something", "POST"]);
    assert_eq!(s.registry.count(s.handles.request_count, &labels), 1);
    assert_eq!(s.registry.sum(s.handles.request_size, &labels), 4);
}

#[test]
fn response_without_declared_size_counts_as_zero() {
    let mut s = service();
    run(&mut s, &request("GET", "/", Some("/")), &[], responded(204, None), 0, 1);
    let labels = tuple(&["204", "/", "GET"]);
    assert_eq!(s.registry.count(s.handles.response_size, &labels), 1);
    assert_eq!(s.registry.sum(s.handles.response_size, &labels), 0);
    assert_eq!(s.registry.buckets(s.handles.response_size, &labels), vec![1, 1, 1, 1, 1, 1]);
}

#[test]
fn custom_endpoint_label() {
    let mut s = service();
    let mut exchange = Exchange::start_labelled("PUT", "/custom".to_string(), 0);
    let _ = exchange.wrap_body(());
    exchange.forward();
    exchange.complete(&responded(200, None), 0, 0);
    assert!(exchange.finish(&s.policy, &s.handles, &mut s.registry));
    assert_eq!(s.registry.count(s.handles.request_count, &tuple(&["200", "/custom", "PUT"])), 1);
}

#[test]
fn raw_path_never_becomes_a_label() {
    let mut s = service();
    for i in 0..50 {
        let path = format!("/random/{}", i);
        run(&mut s, &request("GET", &path, None), &[], responded(404, None), 0, 1);
    }
    let text = s.registry.snapshot();
    assert!(!text.contains("/random/"));
    assert_eq!(s.registry.count(s.handles.request_count, &tuple(&["404", "/unknown", "GET"])), 50);
}

#[test]
fn scrape_between_requests_reads_what_was_recorded() {
    let mut s = service();
    let info = request("GET", "/", Some("/"));
    let mut open: Vec<Exchange> = Vec::new();
    for i in 0..100u64 {
        let mut exchange = Exchange::start(&s.policy, &info, i);
        let _ = exchange.wrap_body(());
        exchange.forward();
        open.push(exchange);
    }
    let idle = prometheus_handler(&mut s.registry, &s.handles);
    assert_eq!(idle.status, 200);
    assert!(!idle.body.contains("http_request_count_total{"));
    for (i, exchange) in open.iter_mut().enumerate() {
        exchange.complete(&responded(200, Some(1)), 0, 1_000);
        exchange.finish(&s.policy, &s.handles, &mut s.registry);
        if i == 49 {
            let half = prometheus_handler(&mut s.registry, &s.handles);
            assert!(half
                .body
                .contains("http_request_count_total{status=\"200\",endpoint=\"/\",method=\"GET\"} 50\n"));
        }
    }
    let done = prometheus_handler(&mut s.registry, &s.handles);
    assert!(done
        .body
        .contains("http_request_count_total{status=\"200\",endpoint=\"/\",method=\"GET\"} 100\n"));
}

#[test]
fn uptime_after_t_ticks_is_t() {
    let mut s = service();
    let mut ticker = UptimeTicker::new(&s.handles);
    assert_eq!(ticker.interval_millis(), 1000);
    assert_eq!(ticker.ticks(), 0);
    for t in 1..=90u64 {
        ticker.tick(&mut s.registry);
        assert_eq!(ticker.ticks(), t);
        assert_eq!(s.registry.count(s.handles.uptime, &tuple(&[])), t);
    }
    assert!(s.registry.snapshot().contains("\nuptime 90\n"));
    assert_eq!(s.registry.total(s.handles.request_count), 0);
}

struct Upper;

impl EndpointResolver for Upper {
    fn endpoint_label(&self, request: &RequestInfo) -> String {
        request.path.to_uppercase()
    }
}

#[test]
fn exchange_with_a_resolver_of_the_callers_own() {
    let mut s = service();
    let policy = PromOpts::with_resolver(Upper);
    let mut exchange = Exchange::start(&policy, &request("GET", "/a/b", Some("/a/{x}")), 0);
    assert_eq!(exchange.endpoint(), "/A/B");
    let _ = exchange.wrap_body(());
    exchange.forward();
    exchange.complete(&responded(200, None), 0, 3);
    assert!(exchange.finish(&policy, &s.handles, &mut s.registry));
    assert_eq!(s.registry.count(s.handles.request_count, &tuple(&["200", "/A/B", "GET"])), 1);
}
