use http_metrics::metrics::{record_error_count, HttpMetrics};
use http_metrics::registry::{
    all_distinct, copy_strings, holds_string, is_strictly_ascending, is_valid_name, same_strings,
    Buckets, MetricKind, MetricRegistry, RegistryError,
};

fn labels(values: &[&str]) -> Vec<String> {
    values.iter().map(|v| v.to_string()).collect()
}

#[test]
fn counter_starts_at_zero_and_counts() {
    let mut registry = MetricRegistry::new();
    let h = registry
        .register("hits", MetricKind::Counter, "Hits.", &labels(&["code"]), None)
        .unwrap();
    assert_eq!(h.index(), 0);
    assert_eq!(registry.count(h, &labels(&["200"])), 0);
    registry.increment(h, &labels(&["200"]));
    registry.increment(h, &labels(&["200"]));
    registry.increment(h, &labels(&["500"]));
    assert_eq!(registry.count(h, &labels(&["200"])), 2);
    assert_eq!(registry.count(h, &labels(&["500"])), 1);
    assert_eq!(registry.count(h, &labels(&["404"])), 0);
    assert_eq!(registry.total(h), 3);
}

#[test]
fn counter_never_decreases() {
    let mut registry = MetricRegistry::new();
    let h = registry
        .register("hits", MetricKind::Counter, "Hits.", &labels(&["code"]), None)
        .unwrap();
    let mut last = 0;
    for i in 0..50 {
        let code = if i % 3 == 0 { "200" } else { "404" };
        registry.increment(h, &labels(&[code]));
        let now = registry.count(h, &labels(&["200"]));
        assert!(now >= last);
        last = now;
    }
    assert_eq!(last, 17);
    assert_eq!(registry.total(h), 50);
}

#[test]
fn duplicate_name_is_refused() {
    let mut registry = MetricRegistry::new();
    registry.register("hits", MetricKind::Counter, "Hits.", &labels(&[]), None).unwrap();
    let again = registry.register("hits", MetricKind::Gauge, "Again.", &labels(&[]), None);
    assert_eq!(again, Err(RegistryError::DuplicateName));
    assert_eq!(registry.len(), 1);
    assert!(registry.lookup("hits").is_some());
    assert!(registry.lookup("misses").is_none());
}

#[test]
fn invalid_names_are_refused() {
    let mut registry = MetricRegistry::new();
    for bad in ["", "1st", "a-b", "sp ace", "é"] {
        let r = registry.register(bad, MetricKind::Counter, "Bad.", &labels(&[]), None);
        assert_eq!(r, Err(RegistryError::InvalidName));
    }
    assert!(registry.register("a:b_c9", MetricKind::Counter, "Fine.", &labels(&[]), None).is_ok());
    assert_eq!(registry.len(), 1);
}

#[test]
fn invalid_labels_are_refused() {
    let mut registry = MetricRegistry::new();
    let colon = registry.register("m", MetricKind::Counter, "M.", &labels(&["a:b"]), None);
    assert_eq!(colon, Err(RegistryError::InvalidLabel));
    let twice = registry.register("m", MetricKind::Counter, "M.", &labels(&["a", "a"]), None);
    assert_eq!(twice, Err(RegistryError::InvalidLabel));
    let le = registry.register("m", MetricKind::Histogram, "M.", &labels(&["le"]), None);
    assert_eq!(le, Err(RegistryError::InvalidLabel));
    assert!(registry.register("m", MetricKind::Counter, "M.", &labels(&["le"]), None).is_ok());
}

#[test]
fn buckets_must_ascend() {
    let mut registry = MetricRegistry::new();
    let bad = Buckets { bounds: vec![10, 10], places: 0 };
    let r = registry.register("h", MetricKind::Histogram, "H.", &labels(&[]), Some(bad));
    assert_eq!(r, Err(RegistryError::InvalidBuckets));
    let down = Buckets { bounds: vec![10, 5], places: 0 };
    let r = registry.register("h", MetricKind::Histogram, "H.", &labels(&[]), Some(down));
    assert_eq!(r, Err(RegistryError::InvalidBuckets));
    let deep = Buckets { bounds: vec![1], places: 20 };
    let r = registry.register("h", MetricKind::Histogram, "H.", &labels(&[]), Some(deep));
    assert_eq!(r, Err(RegistryError::InvalidBuckets));
    let counter = registry.register(
        "c",
        MetricKind::Counter,
        "C.",
        &labels(&[]),
        Some(Buckets::bytes()),
    );
    assert_eq!(counter, Err(RegistryError::InvalidBuckets));
    assert_eq!(registry.len(), 0);
}

#[test]
fn first_error_wins() {
    let mut registry = MetricRegistry::new();
    let bad = Buckets { bounds: vec![2, 1], places: 0 };
    let r = registry.register("1", MetricKind::Counter, "", &labels(&["a", "a"]), Some(bad));
    assert_eq!(r, Err(RegistryError::InvalidName));
    let bad = Buckets { bounds: vec![2, 1], places: 0 };
    let r = registry.register("ok", MetricKind::Counter, "", &labels(&["a", "a"]), Some(bad));
    assert_eq!(r, Err(RegistryError::InvalidLabel));
}

#[test]
fn default_buckets() {
    assert_eq!(Buckets::bytes().bounds, vec![100, 500, 1_000, 5_000, 10_000, 50_000]);
    assert_eq!(Buckets::bytes().places, 0);
    assert_eq!(
        Buckets::seconds().bounds,
        vec![
            5_000, 10_000, 25_000, 50_000, 100_000, 250_000, 500_000, 1_000_000, 2_500_000,
            5_000_000, 10_000_000
        ]
    );
    assert_eq!(Buckets::seconds().places, 6);
}

#[test]
fn histogram_buckets_are_cumulative() {
    let mut registry = MetricRegistry::new();
    let h = registry
        .register(
            "size",
            MetricKind::Histogram,
            "Size.",
            &labels(&["k"]),
            Some(Buckets::bytes()),
        )
        .unwrap();
    let l = labels(&["a"]);
    assert_eq!(registry.buckets(h, &l), vec![0, 0, 0, 0, 0, 0]);
    for v in [37, 100, 101, 600, 50_000, 50_001, 1_000_000] {
        registry.observe(h, &l, v);
    }
    assert_eq!(registry.buckets(h, &l), vec![2, 3, 4, 4, 4, 5]);
    assert_eq!(registry.count(h, &l), 7);
    assert_eq!(registry.sum(h, &l), 37 + 100 + 101 + 600 + 50_000 + 50_001 + 1_000_000);
    let counts = registry.buckets(h, &l);
    for w in counts.windows(2) {
        assert!(w[0] <= w[1]);
    }
    assert!(*counts.last().unwrap() <= registry.count(h, &l));
    assert_eq!(registry.count(h, &labels(&["b"])), 0);
}

#[test]
fn wrong_kind_or_arity_changes_nothing() {
    let mut registry = MetricRegistry::new();
    let c = registry.register("c", MetricKind::Counter, "C.", &labels(&["a"]), None).unwrap();
    let h = registry.register("h", MetricKind::Histogram, "H.", &labels(&["a"]), None).unwrap();
    let before = registry.snapshot();
    registry.observe(c, &labels(&["x"]), 5);
    registry.increment(h, &labels(&["x"]));
    registry.increment(c, &labels(&[]));
    registry.increment(c, &labels(&["x", "y"]));
    registry.observe(h, &labels(&[]), 1);
    let mut other = MetricRegistry::new();
    other.register("a", MetricKind::Counter, "", &labels(&[]), None).unwrap();
    other.register("b", MetricKind::Counter, "", &labels(&[]), None).unwrap();
    let stranger = other.register("z", MetricKind::Counter, "", &labels(&["a"]), None).unwrap();
    registry.increment(stranger, &labels(&["x"]));
    assert_eq!(registry.count(stranger, &labels(&["x"])), 0);
    assert_eq!(registry.total(stranger), 0);
    assert_eq!(registry.buckets(stranger, &labels(&["x"])), Vec::<u64>::new());
    assert_eq!(registry.snapshot(), before);
}

#[test]
fn counter_saturates() {
    let mut registry = MetricRegistry::new();
    let h = registry
        .register("size", MetricKind::Histogram, "S.", &labels(&[]), Some(Buckets::bytes()))
        .unwrap();
    registry.observe(h, &labels(&[]), u64::MAX);
    registry.observe(h, &labels(&[]), 5);
    assert_eq!(registry.sum(h, &labels(&[])), u64::MAX);
    assert_eq!(registry.count(h, &labels(&[])), 2);
}

#[test]
fn service_metrics_register_once() {
    let mut registry = MetricRegistry::new();
    let handles = HttpMetrics::register(&mut registry).unwrap();
    assert_eq!(registry.len(), 7);
    assert_eq!(handles.uptime.index(), 0);
    assert_eq!(handles.request_count.index(), 1);
    assert_eq!(handles.request_duration.index(), 2);
    assert_eq!(handles.request_size.index(), 3);
    assert_eq!(handles.response_size.index(), 4);
    assert_eq!(handles.scrapes.index(), 5);
    assert_eq!(handles.client_errors.index(), 6);
    assert_eq!(registry.lookup("http_request_count_total"), Some(handles.request_count));
    let before = registry.snapshot();
    let again = HttpMetrics::register(&mut registry);
    assert!(matches!(again, Err(RegistryError::DuplicateName)));
    assert_eq!(registry.len(), 7);
    assert_eq!(registry.snapshot(), before);
}

#[test]
fn service_metrics_refuse_a_taken_name() {
    let mut registry = MetricRegistry::new();
    registry
        .register("http_response_size_bytes", MetricKind::Counter, "", &labels(&[]), None)
        .unwrap();
    assert!(matches!(HttpMetrics::register(&mut registry), Err(RegistryError::DuplicateName)));
    assert_eq!(registry.len(), 1);
}

#[test]
fn error_count_goes_up() {
    let mut registry = MetricRegistry::new();
    let handles = HttpMetrics::register(&mut registry).unwrap();
    record_error_count(&mut registry, &handles, "timeout");
    record_error_count(&mut registry, &handles, "timeout");
    record_error_count(&mut registry, &handles, "refused");
    assert_eq!(registry.count(handles.client_errors, &labels(&["timeout"])), 2);
    assert_eq!(registry.count(handles.client_errors, &labels(&["refused"])), 1);
    assert!(registry
        .snapshot()
        .contains("# TYPE client_request_error_count gauge\nclient_request_error_count{err_name=\"timeout\"} 2\n"));
}

#[test]
fn string_helpers() {
    assert!(is_valid_name("http_request_count_total", true));
    assert!(is_valid_name("_x", false));
    assert!(is_valid_name("a:b", true));
    assert!(!is_valid_name("a:b", false));
    assert!(!is_valid_name("", true));
    assert!(!is_valid_name("9a", true));
    assert!(same_strings(&labels(&["a", "b"]), &labels(&["a", "b"])));
    assert!(!same_strings(&labels(&["a", "b"]), &labels(&["a"])));
    assert!(!same_strings(&labels(&["a", "b"]), &labels(&["a", "c"])));
    assert_eq!(copy_strings(&labels(&["x", "y"])), labels(&["x", "y"]));
    assert!(holds_string(&labels(&["x", "y"]), &"y".to_string()));
    assert!(!holds_string(&labels(&["x", "y"]), &"z".to_string()));
    assert!(all_distinct(&labels(&["x", "y", "z"])));
    assert!(!all_distinct(&labels(&["x", "y", "x"])));
    assert!(is_strictly_ascending(&vec![]));
    assert!(is_strictly_ascending(&vec![1]));
    assert!(is_strictly_ascending(&vec![1, 2, 9]));
    assert!(!is_strictly_ascending(&vec![1, 2, 2]));
}
