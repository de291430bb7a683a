//! The label policy: which completed requests are recorded, and under which
//! endpoint label.

use regex::Regex;
use vstd::prelude::*;
use vstd::string::*;

verus! {

/// A compiled regular expression of the `regex` crate. Opaque to the
/// verifier.
#[verifier::external_type_specification]
#[verifier::external_body]
pub struct ExRegex(Regex);

/// The error of the `regex` crate for a pattern that does not compile.
/// Opaque to the verifier.
#[verifier::external_type_specification]
#[verifier::external_body]
pub struct ExRegexError(regex::Error);

/// `Regex::clone`, which the derived `Clone` of a pattern calls. Nothing is
/// claimed of the copy.
pub assume_specification[ <Regex as Clone>::clone ](regex: &Regex) -> Regex;

/// Whether `Regex::new` accepts `pattern`.
pub uninterp spec fn regex_compiles(pattern: Seq<char>) -> bool;

/// Whether the regular expression `pattern` matches anywhere in `text`, as
/// `Regex::is_match` tells it.
pub uninterp spec fn regex_matches(pattern: Seq<char>, text: Seq<char>) -> bool;

/// A pattern that keeps a label value out of the metrics: a request whose
/// label value it matches is not recorded. Its view is the pattern's text.
#[derive(Debug, Clone)]
pub struct ExcludePattern {
    source: String,
    compiled: Regex,
}

impl View for ExcludePattern {
    type V = Seq<char>;

    closed spec fn view(&self) -> Seq<char> {
        self.source@
    }
}

/// Why a pattern was refused.
#[derive(Debug, Clone)]
pub struct PatternError {
    /// The pattern as it was given.
    pub pattern: String,
    /// What the regular expression compiler said of it.
    pub reason: String,
}

/// Compiles `source`.
///
/// Trusted: calls `Regex::new`. The contract claims that whether it succeeds
/// depends on the pattern's text alone, and that the pattern built here
/// carries that text beside the expression compiled from it. No other code of
/// this crate builds an `ExcludePattern`, so its two fields always belong
/// together.
#[verifier::external_body]
fn compile(source: &str) -> (compiled: Result<ExcludePattern, regex::Error>)
    ensures
        compiled is Ok == regex_compiles(source@),
        compiled matches Ok(p) ==> p@ == source@,
{
    match Regex::new(source) {
        Ok(compiled) => Ok(ExcludePattern { source: source.to_string(), compiled }),
        Err(e) => Err(e),
    }
}

/// Tells whether `pattern` matches anywhere in `text`.
///
/// Trusted: calls `Regex::is_match` on the compiled expression. The contract
/// claims that the answer depends on the pattern's text and on `text` alone.
#[verifier::external_body]
fn is_match(pattern: &ExcludePattern, text: &str) -> (hit: bool)
    ensures
        hit == regex_matches(pattern@, text@),
{
    pattern.compiled.is_match(text)
}

/// The message of a compile error.
///
/// Trusted: calls the `Display` impl of `regex::Error`. Nothing is claimed of
/// the text.
#[verifier::external_body]
fn error_text(error: &regex::Error) -> String {
    error.to_string()
}

impl ExcludePattern {
    /// Compiles `source` into a pattern. Fails exactly where the regular
    /// expression compiler refuses it.
    pub fn new(source: &str) -> (pattern: Result<ExcludePattern, PatternError>)
        ensures
            pattern is Ok == regex_compiles(source@),
            pattern matches Ok(p) ==> p@ == source@,
            pattern matches Err(e) ==> e.pattern@ == source@,
    {
        match compile(source) {
            Ok(p) => Ok(p),
            Err(e) => Err(PatternError { pattern: source.to_owned(), reason: error_text(&e) }),
        }
    }

    /// The pattern's text.
    pub fn as_str(&self) -> (source: &str)
        ensures
            source@ == self@,
    {
        self.source.as_str()
    }

    /// Tells whether the pattern matches anywhere in `text`.
    pub fn matches(&self, text: &str) -> (hit: bool)
        ensures
            hit == regex_matches(self@, text@),
    {
        is_match(self, text)
    }
}

/// What the policy reads of a request.
#[derive(Debug, Clone)]
pub struct RequestInfo {
    /// The request method, such as `GET`.
    pub method: String,
    /// The path of the request as it was sent.
    pub path: String,
    /// The template of the route that matched, where one did.
    pub matched_route: Option<String>,
}

/// The path on which the metrics are scraped, and the endpoint label of a
/// scrape that matched no route.
pub open spec fn metrics_path() -> Seq<char> {
    "/metrics"@
}

/// The endpoint label of every other request that matched no route.
pub open spec fn unmatched_label() -> Seq<char> {
    "/unknown"@
}

/// The endpoint label of a request: the template of the route that matched;
/// without one, the metrics path for a scrape and the unmatched label for
/// anything else. The path as it was sent never becomes the label.
pub open spec fn endpoint_of(matched_route: Option<Seq<char>>, path: Seq<char>) -> Seq<char> {
    match matched_route {
        Some(template) => template,
        None => if path == metrics_path() {
            metrics_path()
        } else {
            unmatched_label()
        },
    }
}

/// Whether a label value passes a pattern: always where no pattern is set,
/// else where the pattern does not match it.
pub open spec fn passes(label: Seq<char>, pattern: Option<ExcludePattern>) -> bool {
    match pattern {
        None => true,
        Some(p) => !regex_matches(p@, label),
    }
}

/// The verdict on one label from what its pattern said: kept where no
/// pattern is set (`None`) or the pattern did not match (`Some(false)`).
pub fn keep(matched: Option<bool>) -> (kept: bool)
    ensures
        kept == (matched != Some(true)),
{
    match matched {
        Some(hit) => !hit,
        None => true,
    }
}

/// The verdict on a request from the verdicts on its three labels: recorded
/// where all three are kept.
pub fn decide(status_kept: bool, endpoint_kept: bool, method_kept: bool) -> (record: bool)
    ensures
        record == (status_kept && endpoint_kept && method_kept),
{
    status_kept && endpoint_kept && method_kept
}

/// The template of the route that a request matched, where it matched one.
pub open spec fn route_of(request: RequestInfo) -> Option<Seq<char>> {
    match request.matched_route {
        Some(template) => Some(template@),
        None => None,
    }
}

/// A resolver of endpoint labels: it names the endpoint that a request is
/// recorded under. The trait promises nothing of the label; what a
/// resolver promises of its own is stated at its impl.
pub trait EndpointResolver {
    /// Names the endpoint of `request`.
    fn endpoint_label(&self, request: &RequestInfo) -> String;
}

/// Whether `label` is a label that `resolver` may give `request`: what the
/// resolver's own contract says of its result holds of `label`.
pub open spec fn names<R: EndpointResolver>(resolver: R, request: RequestInfo, label: String) -> bool {
    call_ensures(R::endpoint_label, (&resolver, &request), label)
}

/// The default resolver: the template of the route that matched; without
/// one, the metrics path for a scrape and the unmatched label for anything
/// else. The path as it was sent never becomes the label.
#[derive(Debug, Clone, Copy)]
pub struct RouteTemplate;

impl EndpointResolver for RouteTemplate {
    fn endpoint_label(&self, request: &RequestInfo) -> (label: String)
        ensures
            label@ == endpoint_of(route_of(*request), request.path@),
    {
        match &request.matched_route {
            Some(template) => template.clone(),
            None => {
                let scrape = "/metrics".to_owned();
                if request.path == scrape {
                    scrape
                } else {
                    "/unknown".to_owned()
                }
            },
        }
    }
}

/// The label policy: the exclusion rules for the three labels of a request
/// metric, and the resolver of endpoint labels.
#[derive(Debug, Clone)]
pub struct PromOpts<R = RouteTemplate> {
    /// Requests with a status that this matches are not recorded.
    pub exclude_regex_status: Option<ExcludePattern>,
    /// Requests with an endpoint label that this matches are not recorded.
    pub exclude_regex_endpoint: Option<ExcludePattern>,
    /// Requests with a method that this matches are not recorded.
    pub exclude_regex_method: Option<ExcludePattern>,
    /// Names the endpoint of a request.
    pub endpoint_label_fn: R,
}

impl PromOpts<RouteTemplate> {
    /// A policy without exclusions and with the default resolver: every
    /// request is recorded, under the template of its route.
    pub fn new() -> (policy: Self)
        ensures
            policy.exclude_regex_status is None,
            policy.exclude_regex_endpoint is None,
            policy.exclude_regex_method is None,
            policy.endpoint_label_fn == RouteTemplate,
    {
        PromOpts {
            exclude_regex_status: None,
            exclude_regex_endpoint: None,
            exclude_regex_method: None,
            endpoint_label_fn: RouteTemplate,
        }
    }
}

impl<R> PromOpts<R> {
    /// Whether a request with these labels is recorded: each label passes
    /// its pattern.
    pub open spec fn records(&self, status: Seq<char>, endpoint: Seq<char>, method: Seq<char>) -> bool {
        &&& passes(status, self.exclude_regex_status)
        &&& passes(endpoint, self.exclude_regex_endpoint)
        &&& passes(method, self.exclude_regex_method)
    }

    /// A policy without exclusions that names endpoints by `resolver`.
    pub fn with_resolver(resolver: R) -> (policy: Self)
        ensures
            policy.exclude_regex_status is None,
            policy.exclude_regex_endpoint is None,
            policy.exclude_regex_method is None,
            policy.endpoint_label_fn == resolver,
    {
        PromOpts {
            exclude_regex_status: None,
            exclude_regex_endpoint: None,
            exclude_regex_method: None,
            endpoint_label_fn: resolver,
        }
    }

    /// Tells whether `label` passes `regex`: true where no pattern is set or
    /// the pattern does not match the label.
    pub fn check_label(&self, label: &str, regex: &Option<ExcludePattern>) -> (kept: bool)
        ensures
            kept == passes(label@, *regex),
    {
        match regex {
            Some(pattern) => keep(Some(pattern.matches(label))),
            None => keep(None),
        }
    }

    /// Tells whether a request with these labels is recorded.
    pub fn record_decision(&self, status: &str, endpoint: &str, method: &str) -> (record: bool)
        ensures
            record == self.records(status@, endpoint@, method@),
    {
        let status_kept = self.check_label(status, &self.exclude_regex_status);
        let endpoint_kept = self.check_label(endpoint, &self.exclude_regex_endpoint);
        let method_kept = self.check_label(method, &self.exclude_regex_method);
        decide(status_kept, endpoint_kept, method_kept)
    }
}

impl<R: EndpointResolver> PromOpts<R> {
    /// The endpoint label of `request`, as the resolver of the policy names
    /// it. With the default resolver that is [`endpoint_of`] the route and
    /// path of the request.
    pub fn endpoint_label(&self, request: &RequestInfo) -> (label: String)
        ensures
            names(self.endpoint_label_fn, *request, label),
    {
        self.endpoint_label_fn.endpoint_label(request)
    }
}

/// The default policy, ready to be shared by all requests.
pub fn init_prometheus_opts() -> (policy: PromOpts<RouteTemplate>)
    ensures
        policy.exclude_regex_status is None,
        policy.exclude_regex_endpoint is None,
        policy.exclude_regex_method is None,
        policy.endpoint_label_fn == RouteTemplate,
{
    PromOpts::new()
}

} // verus!
