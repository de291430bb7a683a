//! The exposition payload: the text that a scrape of the registry returns.
//!
//! For each metric, in the order of registration, the payload holds a
//! `# HELP` line, a `# TYPE` line and the sample lines of each series in the
//! order in which the series were first used. A counter's or gauge's series
//! has one sample line. A histogram's series has one `_bucket` line for each
//! bound, with the bound in the label `le`, one for the unbounded bucket
//! `+Inf`, a `_sum` line and a `_count` line.

use vstd::prelude::*;
use vstd::string::*;
use crate::metrics::HttpMetrics;
use crate::registry::{incremented, MetricKind, MetricRegistry, MetricView, SeriesView};
use crate::registry::valid_name;
use crate::text::{
    decimal, escaped, fixed_point, is_digit_char, is_numeral, lemma_decimal_digits,
    lemma_escaped_on_one_line, lemma_fixed_point_numeral,
};

verus! {

/// The word for a kind of metric in a `# TYPE` line.
pub open spec fn kind_word(kind: MetricKind) -> Seq<char> {
    match kind {
        MetricKind::Counter => "counter"@,
        MetricKind::Gauge => "gauge"@,
        MetricKind::Histogram => "histogram"@,
    }
}

/// One label: the name, an equals sign and the escaped value in quotes.
pub open spec fn label_pair(name: Seq<char>, value: Seq<char>) -> Seq<char> {
    name + "=\""@ + escaped(value, true) + "\""@
}

/// The first `upto` labels, separated by commas.
pub open spec fn label_pairs(names: Seq<Seq<char>>, values: Seq<Seq<char>>, upto: int) -> Seq<char>
    decreases upto,
{
    if upto <= 0 {
        Seq::<char>::empty()
    } else if upto == 1 {
        label_pair(names[0], values[0])
    } else {
        label_pairs(names, values, upto - 1) + ","@ + label_pair(names[upto - 1], values[upto - 1])
    }
}

/// What follows a sample's name: nothing for a metric without labels, else
/// the labels in braces.
pub open spec fn label_block(names: Seq<Seq<char>>, values: Seq<Seq<char>>) -> Seq<char> {
    if names.len() == 0 {
        Seq::<char>::empty()
    } else {
        "{"@ + label_pairs(names, values, names.len() as int) + "}"@
    }
}

/// What follows the name of a bucket sample: the labels and, last, the
/// label `le` with the bucket's bound, in braces.
pub open spec fn bucket_block(names: Seq<Seq<char>>, values: Seq<Seq<char>>, bound: Seq<char>) -> Seq<
    char,
> {
    if names.len() == 0 {
        "{le=\""@ + bound + "\"}"@
    } else {
        "{"@ + label_pairs(names, values, names.len() as int) + ",le=\""@ + bound + "\"}"@
    }
}

/// One sample line: the name with its suffix, the label block, a space, the
/// value and a line feed.
pub open spec fn sample_line(
    name: Seq<char>,
    suffix: Seq<char>,
    block: Seq<char>,
    value: Seq<char>,
) -> Seq<char> {
    name + suffix + block + " "@ + value + "\n"@
}

/// The `_bucket` lines of a histogram series for its first `upto` bounds.
pub open spec fn bucket_lines(m: MetricView, s: SeriesView, upto: int) -> Seq<char>
    decreases upto,
{
    if upto <= 0 {
        Seq::<char>::empty()
    } else {
        bucket_lines(m, s, upto - 1) + sample_line(
            m.name,
            "_bucket"@,
            bucket_block(m.label_names, s.labels, fixed_point(m.bounds[upto - 1] as nat, m.places)),
            decimal(s.buckets[upto - 1] as nat),
        )
    }
}

/// The sample lines of one series.
pub open spec fn series_lines(m: MetricView, s: SeriesView) -> Seq<char> {
    if m.kind == MetricKind::Histogram {
        bucket_lines(m, s, m.bounds.len() as int) + sample_line(
            m.name,
            "_bucket"@,
            bucket_block(m.label_names, s.labels, "+Inf"@),
            decimal(s.count as nat),
        ) + sample_line(
            m.name,
            "_sum"@,
            label_block(m.label_names, s.labels),
            fixed_point(s.sum as nat, m.places),
        ) + sample_line(
            m.name,
            "_count"@,
            label_block(m.label_names, s.labels),
            decimal(s.count as nat),
        )
    } else {
        sample_line(
            m.name,
            Seq::<char>::empty(),
            label_block(m.label_names, s.labels),
            decimal(s.count as nat),
        )
    }
}

/// The sample lines of the first `upto` series of a metric.
pub open spec fn samples(m: MetricView, upto: int) -> Seq<char>
    decreases upto,
{
    if upto <= 0 {
        Seq::<char>::empty()
    } else {
        samples(m, upto - 1) + series_lines(m, m.series[upto - 1])
    }
}

/// The two header lines of a metric.
pub open spec fn header(m: MetricView) -> Seq<char> {
    "# HELP "@ + m.name + " "@ + escaped(m.help, false) + "\n"@ + "# TYPE "@ + m.name + " "@
        + kind_word(m.kind) + "\n"@
}

/// The text of one metric: its header and the sample lines of its series.
pub open spec fn metric_text(m: MetricView) -> Seq<char> {
    header(m) + samples(m, m.series.len() as int)
}

/// The text of the first `upto` metrics.
pub open spec fn metrics_text(metrics: Seq<MetricView>, upto: int) -> Seq<char>
    decreases upto,
{
    if upto <= 0 {
        Seq::<char>::empty()
    } else {
        metrics_text(metrics, upto - 1) + metric_text(metrics[upto - 1])
    }
}

/// The exposition payload of a registry.
pub open spec fn payload(metrics: Seq<MetricView>) -> Seq<char> {
    metrics_text(metrics, metrics.len() as int)
}

/// Whether `s` holds no line feed.
pub open spec fn on_one_line(s: Seq<char>) -> bool {
    forall|i: int| 0 <= i < s.len() ==> #[trigger] s[i] != '\n'
}

/// Whether `l` is one whole line: it ends in a line feed and holds no other.
pub open spec fn is_line(l: Seq<char>) -> bool {
    l.len() > 0 && l.last() == '\n' && on_one_line(l.drop_last())
}

/// The `# HELP` line of a metric.
pub open spec fn help_line(m: MetricView) -> Seq<char> {
    "# HELP "@ + m.name + " "@ + escaped(m.help, false) + "\n"@
}

/// The `# TYPE` line of a metric.
pub open spec fn type_line(m: MetricView) -> Seq<char> {
    "# TYPE "@ + m.name + " "@ + kind_word(m.kind) + "\n"@
}

proof fn lemma_literals()
    ensures
        on_one_line("# HELP "@),
        on_one_line("# TYPE "@),
        on_one_line(" "@),
        on_one_line("counter"@),
        on_one_line("gauge"@),
        on_one_line("histogram"@),
        on_one_line("=\""@),
        on_one_line("\""@),
        on_one_line(","@),
        on_one_line("{"@),
        on_one_line("}"@),
        on_one_line("{le=\""@),
        on_one_line(",le=\""@),
        on_one_line("\"}"@),
        on_one_line("_bucket"@),
        on_one_line("_sum"@),
        on_one_line("_count"@),
        on_one_line("+Inf"@),
        "\n"@ == seq!['\n'],
{
    reveal_strlit("# HELP ");
    reveal_strlit("# TYPE ");
    reveal_strlit(" ");
    reveal_strlit("counter");
    reveal_strlit("gauge");
    reveal_strlit("histogram");
    reveal_strlit("=\"");
    reveal_strlit("\"");
    reveal_strlit(",");
    reveal_strlit("{");
    reveal_strlit("}");
    reveal_strlit("{le=\"");
    reveal_strlit(",le=\"");
    reveal_strlit("\"}");
    reveal_strlit("_bucket");
    reveal_strlit("_sum");
    reveal_strlit("_count");
    reveal_strlit("+Inf");
    reveal_strlit("\n");
    assert("\n"@ =~= seq!['\n']);
}

proof fn lemma_name_on_one_line(s: Seq<char>, metric: bool)
    requires
        valid_name(s, metric),
    ensures
        on_one_line(s),
{
}

proof fn lemma_numeral_on_one_line(s: Seq<char>)
    requires
        is_numeral(s),
    ensures
        on_one_line(s),
{
    assert forall|i: int| 0 <= i < s.len() implies #[trigger] s[i] != '\n' by {
        assert(is_digit_char(s[i]) || s[i] == '.');
    }
}

proof fn lemma_decimal_numeral(n: nat)
    ensures
        is_numeral(decimal(n)),
{
    lemma_decimal_digits(n);
    let s = decimal(n);
    assert(is_digit_char(s[0]));
    assert(is_digit_char(s.last()));
    assert forall|i: int, j: int| 0 <= i < j < s.len() && #[trigger] s[i] == '.' implies #[trigger] s[j]
        != '.' by {
        assert(is_digit_char(s[i]));
    }
}

proof fn lemma_pairs_on_one_line(names: Seq<Seq<char>>, values: Seq<Seq<char>>, upto: int)
    requires
        0 <= upto <= names.len(),
        names.len() == values.len(),
        forall|i: int| 0 <= i < names.len() ==> valid_name(#[trigger] names[i], false),
    ensures
        on_one_line(label_pairs(names, values, upto)),
    decreases upto,
{
    lemma_literals();
    if upto >= 1 {
        lemma_pairs_on_one_line(names, values, upto - 1);
        lemma_name_on_one_line(names[upto - 1], false);
        lemma_escaped_on_one_line(values[upto - 1], true);
        let value = escaped(values[upto - 1], true);
        assert(on_one_line(value)) by {
            assert forall|i: int| 0 <= i < value.len() implies #[trigger] value[i] != '\n' by {
                assert(value.contains(value[i]));
            }
        }
    }
}

/// Every line that the payload is built of is whole. For a valid metric
/// and a series that fits it: the two header lines, the sample line of a
/// counter or gauge, and each `_bucket`, `_sum` and `_count` line of a
/// histogram end in a line feed and hold no other, whatever the help text
/// and the label values are; and the value at the end of each sample line
/// is a numeral.
pub proof fn lemma_lines_whole(m: MetricView, s: SeriesView, k: int)
    requires
        m.wf(),
        m.fits(s),
    ensures
        header(m) == help_line(m) + type_line(m),
        is_line(help_line(m)),
        is_line(type_line(m)),
        is_numeral(decimal(s.count as nat)),
        is_numeral(fixed_point(s.sum as nat, m.places)),
        m.kind != MetricKind::Histogram ==> is_line(series_lines(m, s)),
        is_line(
            sample_line(
                m.name,
                "_bucket"@,
                bucket_block(m.label_names, s.labels, "+Inf"@),
                decimal(s.count as nat),
            ),
        ),
        is_line(
            sample_line(
                m.name,
                "_sum"@,
                label_block(m.label_names, s.labels),
                fixed_point(s.sum as nat, m.places),
            ),
        ),
        is_line(
            sample_line(
                m.name,
                "_count"@,
                label_block(m.label_names, s.labels),
                decimal(s.count as nat),
            ),
        ),
        0 <= k < m.bounds.len() ==> is_numeral(decimal(s.buckets[k] as nat)) && is_numeral(
            fixed_point(m.bounds[k] as nat, m.places),
        ) && is_line(
            sample_line(
                m.name,
                "_bucket"@,
                bucket_block(m.label_names, s.labels, fixed_point(m.bounds[k] as nat, m.places)),
                decimal(s.buckets[k] as nat),
            ),
        ),
{
    lemma_literals();
    lemma_name_on_one_line(m.name, true);
    lemma_pairs_on_one_line(m.label_names, s.labels, m.label_names.len() as int);
    lemma_escaped_on_one_line(m.help, false);
    let help = escaped(m.help, false);
    assert(on_one_line(help)) by {
        assert forall|i: int| 0 <= i < help.len() implies #[trigger] help[i] != '\n' by {
            assert(help.contains(help[i]));
        }
    }
    lemma_decimal_numeral(s.count as nat);
    lemma_fixed_point_numeral(s.sum as nat, m.places);
    lemma_numeral_on_one_line(decimal(s.count as nat));
    lemma_numeral_on_one_line(fixed_point(s.sum as nat, m.places));
    assert(header(m) =~= help_line(m) + type_line(m));
    let plain = label_block(m.label_names, s.labels);
    let inf = bucket_block(m.label_names, s.labels, "+Inf"@);
    assert(on_one_line(plain));
    assert(on_one_line(inf));
    lemma_sample_line(m.name, Seq::<char>::empty(), plain, decimal(s.count as nat));
    lemma_sample_line(m.name, "_bucket"@, inf, decimal(s.count as nat));
    lemma_sample_line(m.name, "_sum"@, plain, fixed_point(s.sum as nat, m.places));
    lemma_sample_line(m.name, "_count"@, plain, decimal(s.count as nat));
    assert(help_line(m) =~= ("# HELP "@ + m.name + " "@ + help).push('\n'));
    assert(help_line(m).drop_last() =~= "# HELP "@ + m.name + " "@ + help);
    assert(type_line(m).drop_last() =~= "# TYPE "@ + m.name + " "@ + kind_word(m.kind));
    if 0 <= k < m.bounds.len() {
        let bound = fixed_point(m.bounds[k] as nat, m.places);
        lemma_decimal_numeral(s.buckets[k] as nat);
        lemma_fixed_point_numeral(m.bounds[k] as nat, m.places);
        lemma_numeral_on_one_line(bound);
        lemma_numeral_on_one_line(decimal(s.buckets[k] as nat));
        let block = bucket_block(m.label_names, s.labels, bound);
        assert(on_one_line(block));
        lemma_sample_line(m.name, "_bucket"@, block, decimal(s.buckets[k] as nat));
    }
}

proof fn lemma_line(body: Seq<char>)
    ensures
        body.push('\n').drop_last() == body,
        body.push('\n').last() == '\n',
{
    assert(body.push('\n').drop_last() =~= body);
}

proof fn lemma_sample_line(name: Seq<char>, suffix: Seq<char>, block: Seq<char>, value: Seq<char>)
    requires
        on_one_line(name),
        on_one_line(suffix),
        on_one_line(block),
        on_one_line(value),
    ensures
        is_line(sample_line(name, suffix, block, value)),
{
    lemma_literals();
    let body = name + suffix + block + " "@ + value;
    let line = sample_line(name, suffix, block, value);
    assert(line =~= body.push('\n'));
    lemma_line(body);
    assert(on_one_line(body));
}

/// The content type of the exposition payload.
pub open spec fn payload_content_type() -> Seq<char> {
    "text/plain; version=0.0.4"@
}

/// The content type of the answer to a scrape that failed.
pub open spec fn failure_content_type() -> Seq<char> {
    "text/plain; charset=utf-8"@
}

/// The body of the answer to a scrape that failed.
pub open spec fn failure_body() -> Seq<char> {
    "Internal Server Error"@
}

/// A scrape could not be serialised.
#[derive(Debug, Clone)]
pub struct EncodeError {
    /// What went wrong, for the log.
    pub reason: String,
}

/// The answer to a scrape.
#[derive(Debug, Clone)]
pub struct ScrapeResponse {
    /// The status code: 200 or 500.
    pub status: u16,
    /// The value of the `Content-Type` header.
    pub content_type: String,
    /// The body.
    pub body: String,
}

/// The label value under which a scrape is counted: the status code of its
/// answer.
pub open spec fn scrape_code(ok: bool) -> Seq<char> {
    if ok {
        "200"@
    } else {
        "500"@
    }
}

/// The registry after a scrape was answered: the scrape is counted under
/// the status code of its answer.
pub open spec fn after_scrape(metrics: Seq<MetricView>, handles: HttpMetrics, ok: bool) -> Seq<
    MetricView,
> {
    incremented(metrics, handles.scrapes.index() as int, seq![scrape_code(ok)])
}

/// Answers a scrape from what serialising the registry gave: the payload
/// with status 200 and the content type of the exposition format, or status
/// 500 with a fixed body where serialising failed. Either way the scrape is
/// counted, under the status code, before the answer is returned.
pub fn respond(
    registry: &mut MetricRegistry,
    handles: &HttpMetrics,
    encoded: Result<String, EncodeError>,
) -> (response: ScrapeResponse)
    ensures
        final(registry)@ == after_scrape(old(registry)@, *handles, encoded is Ok),
        match encoded {
            Ok(text) => response.status == 200 && response.content_type@
                == payload_content_type() && response.body@ == text@,
            Err(_) => response.status == 500 && response.content_type@
                == failure_content_type() && response.body@ == failure_body(),
        },
{
    let mut code: Vec<String> = Vec::new();
    match encoded {
        Ok(text) => {
            code.push("200".to_owned());
            assert(code.deep_view() =~= seq![scrape_code(true)]);
            registry.increment(handles.scrapes, &code);
            ScrapeResponse {
                status: 200,
                content_type: "text/plain; version=0.0.4".to_owned(),
                body: text,
            }
        },
        Err(_) => {
            code.push("500".to_owned());
            assert(code.deep_view() =~= seq![scrape_code(false)]);
            registry.increment(handles.scrapes, &code);
            ScrapeResponse {
                status: 500,
                content_type: "text/plain; charset=utf-8".to_owned(),
                body: "Internal Server Error".to_owned(),
            }
        },
    }
}

/// Answers a scrape of `registry`: the payload of the registry as it stood
/// when the scrape came in, with status 200, and the scrape counted.
pub fn prometheus_handler(registry: &mut MetricRegistry, handles: &HttpMetrics) -> (response:
    ScrapeResponse)
    ensures
        final(registry)@ == after_scrape(old(registry)@, *handles, true),
        response.status == 200,
        response.content_type@ == payload_content_type(),
        response.body@ == payload(old(registry)@),
{
    let text = registry.snapshot();
    respond(registry, handles, Ok(text))
}

} // verus!
