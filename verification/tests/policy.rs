use http_metrics::policy::{
    decide, init_prometheus_opts, keep, EndpointResolver, ExcludePattern, PromOpts, RequestInfo,
    RouteTemplate,
};

struct FirstSegment;

impl EndpointResolver for FirstSegment {
    fn endpoint_label(&self, request: &RequestInfo) -> String {
        let first = request.path.split('/').nth(1).unwrap_or("");
        format!("/{}", first)
    }
}

fn request(method: &str, path: &str, route: Option<&str>) -> RequestInfo {
    RequestInfo {
        method: method.to_string(),
        path: path.to_string(),
        matched_route: route.map(|r| r.to_string()),
    }
}

#[test]
fn pattern_compiles_and_matches() {
    let pattern = ExcludePattern::new("^2..$").unwrap();
    assert_eq!(pattern.as_str(), "^2..$");
    assert!(pattern.matches("200"));
    assert!(pattern.matches("204"));
    assert!(!pattern.matches("404"));
    assert!(!pattern.matches("2000"));
    assert!(!pattern.matches("^2..$"));
}

#[test]
fn pattern_matches_anywhere() {
    let pattern = ExcludePattern::new("health").unwrap();
    assert!(pattern.matches("/api/health/live"));
    assert!(!pattern.matches("/api/users"));
}

#[test]
fn invalid_pattern_is_refused() {
    let error = ExcludePattern::new("foo(bar").unwrap_err();
    assert_eq!(error.pattern, "foo(bar");
    assert!(!error.reason.is_empty());
    assert!(ExcludePattern::new("\\w{1000}").is_err());
}

#[test]
fn no_pattern_keeps_every_label() {
    let policy = PromOpts::new();
    assert!(policy.exclude_regex_status.is_none());
    assert!(policy.exclude_regex_endpoint.is_none());
    assert!(policy.exclude_regex_method.is_none());
    assert!(policy.check_label("200", &None));
    assert!(policy.check_label("", &None));
    assert!(policy.record_decision("200", "/x", "GET"));
    assert!(init_prometheus_opts().record_decision("500", "/unknown", "POST"));
}

#[test]
fn a_match_drops_the_label() {
    let policy = PromOpts::new();
    let pattern = Some(ExcludePattern::new("^200$").unwrap());
    assert!(!policy.check_label("200", &pattern));
    assert!(policy.check_label("500", &pattern));
}

#[test]
fn decision_is_the_and_of_the_three_checks() {
    let mut policy = PromOpts::new();
    policy.exclude_regex_status = Some(ExcludePattern::new("^404$").unwrap());
    policy.exclude_regex_endpoint = Some(ExcludePattern::new("^/metrics$").unwrap());
    policy.exclude_regex_method = Some(ExcludePattern::new("^OPTIONS$").unwrap());
    assert!(policy.record_decision("200", "/get/{uid}/something", "GET"));
    assert!(!policy.record_decision("404", "/get/{uid}/something", "GET"));
    assert!(!policy.record_decision("200", "/metrics", "GET"));
    assert!(!policy.record_decision("200", "/get/{uid}/something", "OPTIONS"));
    assert!(!policy.record_decision("404", "/metrics", "OPTIONS"));
}

#[test]
fn verdicts_from_match_results() {
    assert!(keep(None));
    assert!(keep(Some(false)));
    assert!(!keep(Some(true)));
    for s in [false, true] {
        for e in [false, true] {
            for m in [false, true] {
                assert_eq!(decide(s, e, m), s && e && m);
            }
        }
    }
}

#[test]
fn endpoint_label_is_the_route_template() {
    let policy = PromOpts::new();
    let label = policy.endpoint_label(&request(
        "GET",
        "/get/12345/something",
        Some("/get/{uid}/something"),
    ));
    assert_eq!(label, "/get/{uid}/something");
}

#[test]
fn endpoint_label_without_a_route() {
    let policy = PromOpts::new();
    assert_eq!(policy.endpoint_label(&request("GET", "/metrics", None)), "/metrics");
    assert_eq!(policy.endpoint_label(&request("GET", "/nope/1/2/3", None)), "/unknown");
    assert_eq!(policy.endpoint_label(&request("GET", "/metrics/", None)), "/unknown");
    assert_eq!(policy.endpoint_label(&request("GET", "", None)), "/unknown");
}

#[test]
fn default_resolver_is_the_route_template() {
    let info = request("GET", "/get/9/something", Some("/get/{uid}/something"));
    assert_eq!(RouteTemplate.endpoint_label(&info), "/get/{uid}/something");
    assert_eq!(RouteTemplate.endpoint_label(&request("GET", "/metrics", None)), "/metrics");
    assert_eq!(RouteTemplate.endpoint_label(&request("GET", "/x", None)), "/unknown");
    let policy = init_prometheus_opts();
    assert_eq!(policy.endpoint_label(&info), "/get/{uid}/something");
}

#[test]
fn resolver_of_the_callers_own() {
    let mut policy = PromOpts::with_resolver(FirstSegment);
    assert!(policy.exclude_regex_status.is_none());
    let info = request("GET", "/get/9/something", Some("/get/{uid}/something"));
    assert_eq!(policy.endpoint_label(&info), "/get");
    policy.exclude_regex_endpoint = Some(ExcludePattern::new("^/get$").unwrap());
    assert!(!policy.record_decision("200", &policy.endpoint_label(&info), "GET"));
    assert!(policy.record_decision("200", "/other", "GET"));
}
