//! The metric registry: named counters, gauges and histograms, each split
//! into one series per tuple of label values.

use vstd::prelude::*;
use vstd::string::*;
use crate::exposition::{
    bucket_block, bucket_lines, header, label_block, label_pair, label_pairs, metric_text,
    metrics_text, payload, sample_line, samples, series_lines,
};
use crate::text::{append_escaped, append_fixed_point, decimal, fixed_point};

verus! {

/// What a metric measures.
#[derive(Debug, Clone, Copy, PartialEq, Eq, Structural)]
pub enum MetricKind {
    /// A count that only grows.
    Counter,
    /// A count that is reported as a level.
    Gauge,
    /// A distribution over fixed buckets, with the sum and the number of
    /// the values observed.
    Histogram,
}

/// Why a metric was not registered.
#[derive(Debug, Clone, Copy, PartialEq, Eq, Structural)]
pub enum RegistryError {
    /// The metric's name is not a name of the exposition format.
    InvalidName,
    /// A metric of that name is registered already.
    DuplicateName,
    /// A label name is not a name of the exposition format, is `le` on a
    /// histogram, or occurs twice.
    InvalidLabel,
    /// Buckets were given for a metric that is no histogram, are not
    /// strictly ascending, or have more than 19 decimal places.
    InvalidBuckets,
}

/// The ticket that `register` hands out for a metric.
#[derive(Debug, Clone, Copy, PartialEq, Eq, Structural)]
pub struct Handle {
    index: usize,
}

impl Handle {
    /// The place of the metric in the order of registration.
    pub closed spec fn spec_index(self) -> usize {
        self.index
    }

    /// The place of the metric in the order of registration.
    #[verifier::when_used_as_spec(spec_index)]
    pub fn index(self) -> (index: usize)
        ensures
            index == self.index(),
    {
        self.index
    }
}

/// The upper bounds of a histogram's buckets. A bound `b` with `places`
/// decimal places stands for `b / 10^places` in the unit of the metric, and
/// so do the values that the histogram observes.
#[derive(Debug, Clone)]
pub struct Buckets {
    pub bounds: Vec<u64>,
    pub places: u8,
}

/// Bucket bounds as the contracts see them.
pub struct BucketsView {
    pub bounds: Seq<u64>,
    pub places: nat,
}

impl View for Buckets {
    type V = BucketsView;

    open spec fn view(&self) -> BucketsView {
        BucketsView { bounds: self.bounds@, places: self.places as nat }
    }
}

/// The buckets given to a registration as the contracts see them.
pub open spec fn given(buckets: Option<Buckets>) -> Option<BucketsView> {
    match buckets {
        Some(b) => Some(b@),
        None => None,
    }
}

/// One series of a metric as the contracts see it.
pub struct SeriesView {
    /// The label values, in the order of the metric's label names.
    pub labels: Seq<Seq<char>>,
    /// A counter's or gauge's value; a histogram's number of observations.
    pub count: u64,
    /// The sum of a histogram's observations.
    pub sum: u64,
    /// For each bound of a histogram, the observations at or below it.
    pub buckets: Seq<u64>,
}

/// One metric as the contracts see it.
pub struct MetricView {
    pub name: Seq<char>,
    pub help: Seq<char>,
    pub kind: MetricKind,
    pub label_names: Seq<Seq<char>>,
    pub bounds: Seq<u64>,
    pub places: nat,
    pub series: Seq<SeriesView>,
}

/// The first character of a name: an ASCII letter or an underscore; in a
/// metric's name a colon too.
pub open spec fn is_name_start(c: char, metric: bool) -> bool {
    ('a' <= c && c <= 'z') || ('A' <= c && c <= 'Z') || c == '_' || (metric && c == ':')
}

/// A later character of a name: as the first, or an ASCII digit.
pub open spec fn is_name_char(c: char, metric: bool) -> bool {
    is_name_start(c, metric) || ('0' <= c && c <= '9')
}

/// Whether `s` is a name of the exposition format: not empty, a name start
/// followed by name characters.
pub open spec fn valid_name(s: Seq<char>, metric: bool) -> bool {
    &&& s.len() > 0
    &&& is_name_start(s[0], metric)
    &&& forall|i: int| 0 <= i < s.len() ==> is_name_char(#[trigger] s[i], metric)
}

/// Whether the first `upto` characters of `s` are name characters.
pub open spec fn name_chars(s: Seq<char>, metric: bool, upto: int) -> bool
    decreases upto,
{
    upto <= 0 || (is_name_char(s[upto - 1], metric) && name_chars(s, metric, upto - 1))
}

/// A string is a name where it starts as one and [`name_chars`] holds of
/// all of it.
pub proof fn lemma_name_chars(s: Seq<char>, metric: bool, upto: int)
    requires
        name_chars(s, metric, upto),
    ensures
        forall|i: int| 0 <= i < upto ==> is_name_char(#[trigger] s[i], metric),
        s.len() > 0 && upto == s.len() && is_name_start(s[0], metric) ==> valid_name(s, metric),
    decreases upto,
{
    if upto > 0 {
        lemma_name_chars(s, metric, upto - 1);
    }
}

/// `a + b`, held to what a `u64` can store.
pub open spec fn sat_add(a: u64, b: u64) -> u64 {
    if a + b <= u64::MAX {
        (a + b) as u64
    } else {
        u64::MAX
    }
}

/// Whether each element of `s` is larger than the one before it.
pub open spec fn strictly_ascending(s: Seq<u64>) -> bool {
    forall|i: int, j: int| 0 <= i < j < s.len() ==> s[i] < s[j]
}

/// Whether no two elements of `s` are equal.
pub open spec fn pairwise_distinct(s: Seq<Seq<char>>) -> bool {
    forall|i: int, j: int| 0 <= i < j < s.len() ==> s[i] != s[j]
}

/// Whether the bucket counts are cumulative: none is larger than a later one
/// or than the number of observations.
pub open spec fn cumulative(buckets: Seq<u64>, count: u64) -> bool {
    &&& forall|i: int, j: int| 0 <= i <= j < buckets.len() ==> buckets[i] <= buckets[j]
    &&& forall|i: int| 0 <= i < buckets.len() ==> buckets[i] <= count
}

/// A series that has seen nothing yet.
pub open spec fn zero_series(labels: Seq<Seq<char>>, buckets: nat) -> SeriesView {
    SeriesView { labels, count: 0, sum: 0, buckets: Seq::new(buckets, |i: int| 0u64) }
}

impl SeriesView {
    /// The series after its count went up by one.
    pub open spec fn bumped(self) -> SeriesView {
        SeriesView { count: sat_add(self.count, 1), ..self }
    }

    /// The series after it observed `value`: one more observation, `value`
    /// more in the sum, and one more in each bucket whose bound `value` does
    /// not exceed.
    pub open spec fn observed(self, bounds: Seq<u64>, value: u64) -> SeriesView {
        SeriesView {
            labels: self.labels,
            count: sat_add(self.count, 1),
            sum: sat_add(self.sum, value),
            buckets: Seq::new(
                self.buckets.len(),
                |i: int|
                    if value <= bounds[i] {
                        sat_add(self.buckets[i], 1)
                    } else {
                        self.buckets[i]
                    },
            ),
        }
    }
}

impl MetricView {
    /// Whether the metric has a series for `labels`.
    pub open spec fn has_series(self, labels: Seq<Seq<char>>) -> bool {
        exists|i: int| 0 <= i < self.series.len() && (#[trigger] self.series[i]).labels == labels
    }

    /// The place of the series for `labels`, where there is one.
    pub open spec fn series_at(self, labels: Seq<Seq<char>>) -> int {
        choose|i: int| 0 <= i < self.series.len() && (#[trigger] self.series[i]).labels == labels
    }

    /// The series for `labels`; one that has seen nothing where the metric
    /// has none: a tuple of label values that was never used reads as zero.
    pub open spec fn series_for(self, labels: Seq<Seq<char>>) -> SeriesView {
        if self.has_series(labels) {
            self.series[self.series_at(labels)]
        } else {
            zero_series(labels, self.bounds.len())
        }
    }

    /// The counts of all series added up.
    pub open spec fn total(self) -> nat {
        total_count(self.series)
    }

    /// Whether the metric takes a tuple of label values of this length.
    pub open spec fn accepts(self, labels: Seq<Seq<char>>) -> bool {
        labels.len() == self.label_names.len()
    }

    /// The metric with `next` as the series for its labels, in the place of
    /// the series that was there or, where there was none, behind the others.
    pub open spec fn with_series(self, next: SeriesView) -> MetricView {
        if self.has_series(next.labels) {
            MetricView { series: self.series.update(self.series_at(next.labels), next), ..self }
        } else {
            MetricView { series: self.series.push(next), ..self }
        }
    }

    /// The metric after the count of the series for `labels` went up by one.
    pub open spec fn bumped(self, labels: Seq<Seq<char>>) -> MetricView {
        self.with_series(self.series_for(labels).bumped())
    }

    /// The metric after the series for `labels` observed `value`.
    pub open spec fn observed(self, labels: Seq<Seq<char>>, value: u64) -> MetricView {
        self.with_series(self.series_for(labels).observed(self.bounds, value))
    }

    /// Whether a series fits the metric: one value for each label name, one
    /// count for each bound, and the counts cumulative.
    pub open spec fn fits(self, s: SeriesView) -> bool {
        &&& s.labels.len() == self.label_names.len()
        &&& s.buckets.len() == self.bounds.len()
        &&& cumulative(s.buckets, s.count)
    }

    /// The validity of a metric.
    pub open spec fn wf(self) -> bool {
        &&& valid_name(self.name, true)
        &&& forall|i: int|
            0 <= i < self.label_names.len() ==> valid_name(#[trigger] self.label_names[i], false)
        &&& pairwise_distinct(self.label_names)
        &&& self.kind == MetricKind::Histogram ==> !self.label_names.contains("le"@)
        &&& self.kind != MetricKind::Histogram ==> self.bounds.len() == 0 && self.places == 0
        &&& strictly_ascending(self.bounds)
        &&& self.places <= 19
        &&& forall|i: int| 0 <= i < self.series.len() ==> self.fits(#[trigger] self.series[i])
        &&& forall|i: int, j: int|
            0 <= i < j < self.series.len() ==> (#[trigger] self.series[i]).labels != (
            #[trigger] self.series[j]).labels
        &&& self.label_names.len() == 0 ==> self.series.len() == 1
    }
}

/// The counts of `series` added up.
pub open spec fn total_count(series: Seq<SeriesView>) -> nat
    decreases series.len(),
{
    if series.len() == 0 {
        0
    } else {
        total_count(series.drop_last()) + series.last().count as nat
    }
}

/// The validity of a registry: each metric is valid and no name occurs twice.
pub open spec fn registry_wf(metrics: Seq<MetricView>) -> bool {
    &&& forall|i: int| 0 <= i < metrics.len() ==> (#[trigger] metrics[i]).wf()
    &&& forall|i: int, j: int|
        0 <= i < j < metrics.len() ==> (#[trigger] metrics[i]).name != (#[trigger] metrics[j]).name
}

/// Whether a metric of that name is registered.
pub open spec fn has_name(metrics: Seq<MetricView>, name: Seq<char>) -> bool {
    exists|i: int| 0 <= i < metrics.len() && (#[trigger] metrics[i]).name == name
}

/// Whether label names can be registered for a metric of this kind.
pub open spec fn labels_ok(kind: MetricKind, label_names: Seq<Seq<char>>) -> bool {
    &&& forall|i: int|
        0 <= i < label_names.len() ==> valid_name(#[trigger] label_names[i], false)
    &&& pairwise_distinct(label_names)
    &&& kind == MetricKind::Histogram ==> !label_names.contains("le"@)
}

/// Whether buckets can be registered for a metric of this kind.
pub open spec fn buckets_ok(kind: MetricKind, buckets: Option<BucketsView>) -> bool {
    match buckets {
        None => true,
        Some(b) => kind == MetricKind::Histogram && strictly_ascending(b.bounds) && b.places <= 19,
    }
}

/// The bucket bounds for durations: from 5 ms to 10 s, in microseconds.
pub open spec fn seconds_bounds() -> Seq<u64> {
    seq![
        5_000u64,
        10_000u64,
        25_000u64,
        50_000u64,
        100_000u64,
        250_000u64,
        500_000u64,
        1_000_000u64,
        2_500_000u64,
        5_000_000u64,
        10_000_000u64,
    ]
}

/// The bucket bounds for sizes, in bytes.
pub open spec fn bytes_bounds() -> Seq<u64> {
    seq![100u64, 500u64, 1_000u64, 5_000u64, 10_000u64, 50_000u64]
}

/// The buckets for durations in seconds, kept in microseconds.
pub open spec fn seconds_ladder() -> BucketsView {
    BucketsView { bounds: seconds_bounds(), places: 6 }
}

/// The buckets for sizes in bytes.
pub open spec fn bytes_ladder() -> BucketsView {
    BucketsView { bounds: bytes_bounds(), places: 0 }
}

/// The first reason for which a registration is refused, if there is one.
pub open spec fn register_error(
    metrics: Seq<MetricView>,
    name: Seq<char>,
    kind: MetricKind,
    label_names: Seq<Seq<char>>,
    buckets: Option<BucketsView>,
) -> Option<RegistryError> {
    if !valid_name(name, true) {
        Some(RegistryError::InvalidName)
    } else if has_name(metrics, name) {
        Some(RegistryError::DuplicateName)
    } else if !labels_ok(kind, label_names) {
        Some(RegistryError::InvalidLabel)
    } else if !buckets_ok(kind, buckets) {
        Some(RegistryError::InvalidBuckets)
    } else {
        None
    }
}

/// The metric that a registration adds. A histogram without buckets of its
/// own gets those for durations. A metric without labels has its one series
/// from the start.
pub open spec fn new_metric(
    name: Seq<char>,
    kind: MetricKind,
    help: Seq<char>,
    label_names: Seq<Seq<char>>,
    buckets: Option<BucketsView>,
) -> MetricView {
    let ladder = if kind != MetricKind::Histogram {
        BucketsView { bounds: Seq::<u64>::empty(), places: 0 }
    } else {
        match buckets {
            Some(b) => b,
            None => seconds_ladder(),
        }
    };
    let bounds = ladder.bounds;
    let places = ladder.places;
    MetricView {
        name,
        help,
        kind,
        label_names,
        bounds,
        places,
        series: if label_names.len() == 0 {
            seq![zero_series(Seq::<Seq<char>>::empty(), bounds.len())]
        } else {
            Seq::<SeriesView>::empty()
        },
    }
}

/// Whether `increment` applies: a counter or gauge is at `index`, and
/// `labels` has one value for each of its label names.
pub open spec fn counts_at(metrics: Seq<MetricView>, index: int, labels: Seq<Seq<char>>) -> bool {
    &&& 0 <= index < metrics.len()
    &&& metrics[index].kind != MetricKind::Histogram
    &&& metrics[index].accepts(labels)
}

/// Whether `observe` applies: a histogram is at `index`, and `labels` has
/// one value for each of its label names.
pub open spec fn observes_at(metrics: Seq<MetricView>, index: int, labels: Seq<Seq<char>>) -> bool {
    &&& 0 <= index < metrics.len()
    &&& metrics[index].kind == MetricKind::Histogram
    &&& metrics[index].accepts(labels)
}

/// The registry after `increment`: where it applies, the count of the series
/// for `labels` of the metric at `index` is up by one; where not, nothing
/// has changed.
pub open spec fn incremented(metrics: Seq<MetricView>, index: int, labels: Seq<Seq<char>>) -> Seq<
    MetricView,
> {
    if counts_at(metrics, index, labels) {
        metrics.update(index, metrics[index].bumped(labels))
    } else {
        metrics
    }
}

/// The registry after `observe`: where it applies, the series for `labels`
/// of the histogram at `index` has observed `value`; where not, nothing has
/// changed.
pub open spec fn observed(
    metrics: Seq<MetricView>,
    index: int,
    labels: Seq<Seq<char>>,
    value: u64,
) -> Seq<MetricView> {
    if observes_at(metrics, index, labels) {
        metrics.update(index, metrics[index].observed(labels, value))
    } else {
        metrics
    }
}

/// Tells whether `s` is a name of the exposition format.
pub fn is_valid_name(s: &str, metric: bool) -> (ok: bool)
    ensures
        ok == valid_name(s@, metric),
{
    let mut first = true;
    for c in it: s.chars()
        invariant
            it.seq() == s@,
            first == (it.index() == 0),
            it.index() > 0 ==> is_name_start(s@[0], metric),
            forall|i: int| 0 <= i < it.index() ==> is_name_char(#[trigger] s@[i], metric),
    {
        let start = ('a' <= c && c <= 'z') || ('A' <= c && c <= 'Z') || c == '_' || (metric && c
            == ':');
        if first {
            if !start {
                return false;
            }
        } else if !(start || ('0' <= c && c <= '9')) {
            assert(!is_name_char(s@[it.index()], metric));
            return false;
        }
        first = false;
    }
    !first
}

/// Tells whether two tuples of strings hold the same text.
pub fn same_strings(a: &Vec<String>, b: &Vec<String>) -> (same: bool)
    ensures
        same == (a.deep_view() == b.deep_view()),
{
    if a.len() != b.len() {
        assert(a.deep_view().len() != b.deep_view().len());
        return false;
    }
    let mut i: usize = 0;
    while i < a.len()
        invariant
            i <= a.len(),
            a.len() == b.len(),
            forall|j: int| 0 <= j < i ==> a@[j]@ == b@[j]@,
        decreases a.len() - i,
    {
        if a[i] != b[i] {
            assert(a.deep_view()[i as int] != b.deep_view()[i as int]);
            return false;
        }
        i = i + 1;
    }
    assert(a.deep_view() =~= b.deep_view());
    true
}

/// A copy of a tuple of strings.
pub fn copy_strings(a: &Vec<String>) -> (copy: Vec<String>)
    ensures
        copy.deep_view() == a.deep_view(),
{
    let mut copy: Vec<String> = Vec::new();
    let mut i: usize = 0;
    while i < a.len()
        invariant
            i <= a.len(),
            copy.len() == i,
            forall|j: int| 0 <= j < i ==> copy@[j]@ == a@[j]@,
        decreases a.len() - i,
    {
        copy.push(a[i].clone());
        i = i + 1;
    }
    assert(copy.deep_view() =~= a.deep_view());
    copy
}

struct Series {
    labels: Vec<String>,
    count: u64,
    sum: u64,
    buckets: Vec<u64>,
}

impl Series {
    spec fn view(&self) -> SeriesView {
        SeriesView {
            labels: self.labels.deep_view(),
            count: self.count,
            sum: self.sum,
            buckets: self.buckets@,
        }
    }

    fn zero(labels: Vec<String>, buckets: usize) -> (s: Series)
        ensures
            s@ == zero_series(labels.deep_view(), buckets as nat),
    {
        let mut counts: Vec<u64> = Vec::new();
        let mut i: usize = 0;
        while i < buckets
            invariant
                i <= buckets,
                counts@ == Seq::new(i as nat, |k: int| 0u64),
            decreases buckets - i,
        {
            counts.push(0);
            i = i + 1;
            assert(counts@ =~= Seq::new(i as nat, |k: int| 0u64));
        }
        Series { labels, count: 0, sum: 0, buckets: counts }
    }

    fn bump(&mut self)
        ensures
            final(self)@ == old(self)@.bumped(),
    {
        self.count = self.count.saturating_add(1);
    }

    fn observe(&mut self, bounds: &Vec<u64>, value: u64)
        requires
            old(self).buckets.len() == bounds.len(),
        ensures
            final(self)@ == old(self)@.observed(bounds@, value),
    {
        let ghost before = self@;
        let mut i: usize = 0;
        while i < self.buckets.len()
            invariant
                i <= self.buckets.len(),
                self.buckets.len() == bounds.len(),
                self.buckets.len() == before.buckets.len(),
                self.labels == old(self).labels,
                self.count == old(self).count,
                self.sum == old(self).sum,
                forall|k: int|
                    0 <= k < i ==> self.buckets@[k] == before.observed(bounds@, value).buckets[k],
                forall|k: int| i <= k < self.buckets.len() ==> self.buckets@[k] == before.buckets[k],
            decreases self.buckets.len() - i,
        {
            if value <= bounds[i] {
                let bumped = self.buckets[i].saturating_add(1);
                self.buckets.set(i, bumped);
            }
            i = i + 1;
        }
        self.count = self.count.saturating_add(1);
        self.sum = self.sum.saturating_add(value);
        assert(self.buckets@ =~= before.observed(bounds@, value).buckets);
    }
}

struct Metric {
    name: String,
    help: String,
    kind: MetricKind,
    label_names: Vec<String>,
    bounds: Vec<u64>,
    places: u8,
    series: Vec<Series>,
}

impl Metric {
    spec fn view(&self) -> MetricView {
        MetricView {
            name: self.name@,
            help: self.help@,
            kind: self.kind,
            label_names: self.label_names.deep_view(),
            bounds: self.bounds@,
            places: self.places as nat,
            series: Seq::new(self.series@.len(), |i: int| self.series@[i]@),
        }
    }

    /// The place of the series for `labels`.
    fn find(&self, labels: &Vec<String>) -> (found: Option<usize>)
        requires
            self@.wf(),
        ensures
            found is Some == self@.has_series(labels.deep_view()),
            found matches Some(i) ==> i == self@.series_at(labels.deep_view()) && i
                < self.series.len(),
    {
        let mut i: usize = 0;
        while i < self.series.len()
            invariant
                i <= self.series.len(),
                self@.wf(),
                forall|k: int| 0 <= k < i ==> (#[trigger] self@.series[k]).labels != labels.deep_view(),
            decreases self.series.len() - i,
        {
            if same_strings(&self.series[i].labels, labels) {
                proof {
                    let view = self@;
                    let wanted = labels.deep_view();
                    assert(view.series[i as int].labels == wanted);
                    let k = view.series_at(wanted);
                    assert(0 <= k < view.series.len() && view.series[k].labels == wanted);
                    if k < i {
                        assert(view.series[k].labels != view.series[i as int].labels);
                    } else if i < k {
                        assert(view.series[i as int].labels != view.series[k].labels);
                    }
                }
                return Some(i);
            }
            i = i + 1;
        }
        None
    }

    fn bump(&mut self, labels: &Vec<String>)
        requires
            old(self)@.wf(),
            old(self)@.accepts(labels.deep_view()),
        ensures
            final(self)@ == old(self)@.bumped(labels.deep_view()),
    {
        match self.find(labels) {
            Some(i) => {
                self.series[i].bump();
                assert(self@.series =~= old(self)@.series.update(
                    i as int,
                    old(self)@.series[i as int].bumped(),
                ));
            },
            None => {
                let mut fresh = Series::zero(copy_strings(labels), self.bounds.len());
                fresh.bump();
                self.series.push(fresh);
                assert(self@.series =~= old(self)@.series.push(fresh@));
            },
        }
    }

    fn observe(&mut self, labels: &Vec<String>, value: u64)
        requires
            old(self)@.wf(),
            old(self)@.accepts(labels.deep_view()),
        ensures
            final(self)@ == old(self)@.observed(labels.deep_view(), value),
    {
        match self.find(labels) {
            Some(i) => {
                self.series[i].observe(&self.bounds, value);
                assert(self@.series =~= old(self)@.series.update(
                    i as int,
                    old(self)@.series[i as int].observed(old(self)@.bounds, value),
                ));
            },
            None => {
                let mut fresh = Series::zero(copy_strings(labels), self.bounds.len());
                fresh.observe(&self.bounds, value);
                self.series.push(fresh);
                assert(self@.series =~= old(self)@.series.push(fresh@));
            },
        }
    }
}

/// Tells whether each element of `v` is larger than the one before it.
pub fn is_strictly_ascending(v: &Vec<u64>) -> (ok: bool)
    ensures
        ok == strictly_ascending(v@),
{
    if v.len() < 2 {
        return true;
    }
    let mut i: usize = 1;
    while i < v.len()
        invariant
            1 <= i <= v.len(),
            forall|a: int, b: int| 0 <= a < b < i ==> v@[a] < v@[b],
        decreases v.len() - i,
    {
        if v[i - 1] >= v[i] {
            assert(!(v@[i - 1] < v@[i as int]));
            return false;
        }
        assert forall|a: int, b: int| 0 <= a < b < i + 1 implies v@[a] < v@[b] by {
            if b == i && a < i - 1 {
                assert(v@[a] < v@[i - 1]);
            }
        }
        i = i + 1;
    }
    true
}

/// Tells whether `v` holds the text of `s`.
pub fn holds_string(v: &Vec<String>, s: &String) -> (found: bool)
    ensures
        found == v.deep_view().contains(s@),
{
    let mut i: usize = 0;
    while i < v.len()
        invariant
            i <= v.len(),
            forall|k: int| 0 <= k < i ==> v.deep_view()[k] != s@,
        decreases v.len() - i,
    {
        if v[i] == *s {
            assert(v.deep_view()[i as int] == s@);
            return true;
        }
        i = i + 1;
    }
    false
}

/// Tells whether no two strings of `v` hold the same text.
pub fn all_distinct(v: &Vec<String>) -> (ok: bool)
    ensures
        ok == pairwise_distinct(v.deep_view()),
{
    let mut j: usize = 0;
    while j < v.len()
        invariant
            j <= v.len(),
            forall|a: int, b: int| 0 <= a < b < j ==> v.deep_view()[a] != v.deep_view()[b],
        decreases v.len() - j,
    {
        let mut i: usize = 0;
        while i < j
            invariant
                i <= j < v.len(),
                forall|a: int| 0 <= a < i ==> v.deep_view()[a] != v.deep_view()[j as int],
            decreases j - i,
        {
            if v[i] == v[j] {
                assert(v.deep_view()[i as int] == v.deep_view()[j as int]);
                return false;
            }
            i = i + 1;
        }
        j = j + 1;
    }
    true
}

/// Tells whether each string of `v` is a label name of the exposition format.
pub fn all_label_names(v: &Vec<String>) -> (ok: bool)
    ensures
        ok == (forall|i: int|
            0 <= i < v.deep_view().len() ==> valid_name(#[trigger] v.deep_view()[i], false)),
{
    let mut i: usize = 0;
    while i < v.len()
        invariant
            i <= v.len(),
            forall|k: int| 0 <= k < i ==> valid_name(#[trigger] v.deep_view()[k], false),
        decreases v.len() - i,
    {
        if !is_valid_name(v[i].as_str(), false) {
            assert(!valid_name(v.deep_view()[i as int], false));
            return false;
        }
        i = i + 1;
    }
    true
}

impl Buckets {
    /// The buckets for durations in seconds, kept in microseconds: 0.005,
    /// 0.01, 0.025, 0.05, 0.1, 0.25, 0.5, 1, 2.5, 5 and 10 seconds.
    pub fn seconds() -> (b: Buckets)
        ensures
            b@ == seconds_ladder(),
    {
        let mut bounds: Vec<u64> = Vec::new();
        bounds.push(5_000);
        bounds.push(10_000);
        bounds.push(25_000);
        bounds.push(50_000);
        bounds.push(100_000);
        bounds.push(250_000);
        bounds.push(500_000);
        bounds.push(1_000_000);
        bounds.push(2_500_000);
        bounds.push(5_000_000);
        bounds.push(10_000_000);
        assert(bounds@ =~= seconds_bounds());
        Buckets { bounds, places: 6 }
    }

    /// The buckets for sizes in bytes: 100, 500, 1000, 5000, 10000 and 50000.
    pub fn bytes() -> (b: Buckets)
        ensures
            b@ == bytes_ladder(),
    {
        let mut bounds: Vec<u64> = Vec::new();
        bounds.push(100);
        bounds.push(500);
        bounds.push(1_000);
        bounds.push(5_000);
        bounds.push(10_000);
        bounds.push(50_000);
        assert(bounds@ =~= bytes_bounds());
        Buckets { bounds, places: 0 }
    }
}

/// Counting up keeps a metric valid.
pub proof fn lemma_bumped_wf(m: MetricView, labels: Seq<Seq<char>>)
    requires
        m.wf(),
        m.accepts(labels),
    ensures
        m.bumped(labels).wf(),
{
    let next = m.series_for(labels).bumped();
    lemma_series_for(m, labels);
    assert(m.fits(next));
    lemma_with_series_wf(m, next);
}

/// An observation keeps a metric valid: the bucket counts stay cumulative.
pub proof fn lemma_observed_wf(m: MetricView, labels: Seq<Seq<char>>, value: u64)
    requires
        m.wf(),
        m.accepts(labels),
    ensures
        m.observed(labels, value).wf(),
{
    let before = m.series_for(labels);
    let next = before.observed(m.bounds, value);
    lemma_series_for(m, labels);
    assert(cumulative(next.buckets, next.count)) by {
        assert forall|i: int, j: int| 0 <= i <= j < next.buckets.len() implies next.buckets[i]
            <= next.buckets[j] by {
            assert(before.buckets[i] <= before.buckets[j]);
            if i < j {
                assert(m.bounds[i] < m.bounds[j]);
            }
        }
        assert forall|i: int| 0 <= i < next.buckets.len() implies next.buckets[i]
            <= next.count by {
            assert(before.buckets[i] <= before.count);
        }
    }
    assert(m.fits(next));
    lemma_with_series_wf(m, next);
}

/// The series that a valid metric has for a tuple of label values fits the
/// metric and carries those values.
pub proof fn lemma_series_for(m: MetricView, labels: Seq<Seq<char>>)
    requires
        m.wf(),
        m.accepts(labels),
    ensures
        m.fits(m.series_for(labels)),
        m.series_for(labels).labels == labels,
        m.has_series(labels) ==> 0 <= m.series_at(labels) < m.series.len(),
{
    if m.has_series(labels) {
        let i = m.series_at(labels);
        assert(m.fits(m.series[i]));
    } else {
        let zero = zero_series(labels, m.bounds.len());
        assert(cumulative(zero.buckets, zero.count));
    }
}

proof fn lemma_with_series_wf(m: MetricView, next: SeriesView)
    requires
        m.wf(),
        m.fits(next),
    ensures
        m.with_series(next).wf(),
{
    let after = m.with_series(next);
    if m.has_series(next.labels) {
        let at = m.series_at(next.labels);
        assert forall|i: int| 0 <= i < after.series.len() implies after.fits(
            #[trigger] after.series[i],
        ) by {
            if i != at {
                assert(m.fits(m.series[i]));
            }
        }
        assert forall|i: int, j: int| 0 <= i < j < after.series.len() implies (
        #[trigger] after.series[i]).labels != (#[trigger] after.series[j]).labels by {
            assert(m.series[i].labels != m.series[j].labels);
            assert(after.series[i].labels == m.series[i].labels);
            assert(after.series[j].labels == m.series[j].labels);
        }
    } else {
        assert forall|i: int| 0 <= i < after.series.len() implies after.fits(
            #[trigger] after.series[i],
        ) by {
            if i < m.series.len() {
                assert(m.fits(m.series[i]));
            }
        }
        assert forall|i: int, j: int| 0 <= i < j < after.series.len() implies (
        #[trigger] after.series[i]).labels != (#[trigger] after.series[j]).labels by {
            if j < m.series.len() {
                assert(m.series[i].labels != m.series[j].labels);
            } else {
                assert(m.series[i].labels != next.labels);
            }
        }
        if m.label_names.len() == 0 {
            assert(m.series[0].labels =~= next.labels);
        }
    }
}

/// The metric that a registration adds is valid.
pub proof fn lemma_new_metric_wf(
    name: Seq<char>,
    kind: MetricKind,
    help: Seq<char>,
    label_names: Seq<Seq<char>>,
    buckets: Option<BucketsView>,
)
    requires
        valid_name(name, true),
        labels_ok(kind, label_names),
        buckets_ok(kind, buckets),
    ensures
        new_metric(name, kind, help, label_names, buckets).wf(),
{
    let m = new_metric(name, kind, help, label_names, buckets);
    if label_names.len() == 0 {
        let zero = zero_series(Seq::<Seq<char>>::empty(), m.bounds.len());
        assert(m.series[0] == zero);
        assert(cumulative(zero.buckets, zero.count));
    }
}

/// The registry: the metrics in the order in which they were registered.
pub struct MetricRegistry {
    metrics: Vec<Metric>,
}

impl View for MetricRegistry {
    type V = Seq<MetricView>;

    closed spec fn view(&self) -> Seq<MetricView> {
        Seq::new(self.metrics@.len(), |i: int| self.metrics@[i]@)
    }
}

/// The count of the series for `labels` of the metric at `index`; zero
/// where there is no such metric or no such series.
pub open spec fn count_of(metrics: Seq<MetricView>, index: int, labels: Seq<Seq<char>>) -> u64 {
    if 0 <= index < metrics.len() {
        metrics[index].series_for(labels).count
    } else {
        0
    }
}

/// The sum of the observations of the series for `labels` of the metric at
/// `index`; zero where there is no such metric or no such series.
pub open spec fn sum_of(metrics: Seq<MetricView>, index: int, labels: Seq<Seq<char>>) -> u64 {
    if 0 <= index < metrics.len() {
        metrics[index].series_for(labels).sum
    } else {
        0
    }
}

/// The bucket counts of the series for `labels` of the metric at `index`, one
/// for each bound; empty where there is no such metric.
pub open spec fn buckets_of(metrics: Seq<MetricView>, index: int, labels: Seq<Seq<char>>) -> Seq<
    u64,
> {
    if 0 <= index < metrics.len() {
        metrics[index].series_for(labels).buckets
    } else {
        Seq::<u64>::empty()
    }
}

/// The counts of all series of the metric at `index` added up.
pub open spec fn total_of(metrics: Seq<MetricView>, index: int) -> nat {
    if 0 <= index < metrics.len() {
        metrics[index].total()
    } else {
        0
    }
}

impl MetricRegistry {
    /// What holds of every registry: its metrics are valid and no name
    /// occurs twice.
    #[verifier::type_invariant]
    pub open spec fn valid(self) -> bool {
        registry_wf(self@)
    }

    /// A registry without metrics.
    pub fn new() -> (registry: Self)
        ensures
            registry@ == Seq::<MetricView>::empty(),
    {
        let registry = MetricRegistry { metrics: Vec::new() };
        assert(registry@ =~= Seq::<MetricView>::empty());
        registry
    }

    /// The number of metrics registered.
    pub fn len(&self) -> (n: usize)
        ensures
            n == self@.len(),
            registry_wf(self@),
    {
        proof {
            use_type_invariant(self);
        }
        self.metrics.len()
    }

    /// The handle of the metric called `name`, if one is registered.
    pub fn lookup(&self, name: &str) -> (found: Option<Handle>)
        ensures
            found is Some == has_name(self@, name@),
            found matches Some(h) ==> h.index() < self@.len() && self@[h.index() as int].name
                == name@,
    {
        let wanted = name.to_owned();
        let mut i: usize = 0;
        while i < self.metrics.len()
            invariant
                i <= self.metrics.len(),
                wanted@ == name@,
                forall|k: int| 0 <= k < i ==> (#[trigger] self@[k]).name != name@,
            decreases self.metrics.len() - i,
        {
            if self.metrics[i].name == wanted {
                assert(self@[i as int].name == name@);
                return Some(Handle { index: i });
            }
            i = i + 1;
        }
        None
    }

    /// Registers a metric and hands out its handle. A histogram without
    /// `buckets` gets those for durations. The registration is refused, and
    /// the registry left as it was, for the first of these reasons that
    /// holds: `name` is no metric name; a metric called `name` is registered;
    /// a label name is no label name, is `le` on a histogram, or occurs
    /// twice; `buckets` are given for a metric that is no histogram, are not
    /// strictly ascending, or have more than 19 decimal places.
    pub fn register(
        &mut self,
        name: &str,
        kind: MetricKind,
        help: &str,
        label_names: &Vec<String>,
        buckets: Option<Buckets>,
    ) -> (registered: Result<Handle, RegistryError>)
        ensures
            registry_wf(final(self)@),
            match register_error(
                old(self)@,
                name@,
                kind,
                label_names.deep_view(),
                given(buckets),
            ) {
                Some(e) => registered == Err::<Handle, RegistryError>(e) && final(self)@ == old(
                    self,
                )@,
                None => registered is Ok && registered->Ok_0.index() == old(self)@.len()
                    && final(self)@ == old(self)@.push(
                    new_metric(name@, kind, help@, label_names.deep_view(), given(buckets)),
                ),
            },
    {
        proof {
            use_type_invariant(&*self);
        }
        if !is_valid_name(name, true) {
            return Err(RegistryError::InvalidName);
        }
        if self.lookup(name).is_some() {
            return Err(RegistryError::DuplicateName);
        }
        let reserved = "le".to_owned();
        if !all_label_names(label_names) || !all_distinct(label_names) || (kind
            == MetricKind::Histogram && holds_string(label_names, &reserved)) {
            return Err(RegistryError::InvalidLabel);
        }
        let ghost asked = given(buckets);
        let (bounds, places) = match buckets {
            Some(b) => {
                if kind != MetricKind::Histogram || !is_strictly_ascending(&b.bounds) || b.places
                    > 19 {
                    return Err(RegistryError::InvalidBuckets);
                }
                (b.bounds, b.places)
            },
            None => {
                if kind == MetricKind::Histogram {
                    let ladder = Buckets::seconds();
                    (ladder.bounds, ladder.places)
                } else {
                    (Vec::new(), 0u8)
                }
            },
        };
        let mut series: Vec<Series> = Vec::new();
        if label_names.len() == 0 {
            let no_labels: Vec<String> = Vec::new();
            assert(no_labels.deep_view() =~= Seq::<Seq<char>>::empty());
            series.push(Series::zero(no_labels, bounds.len()));
        }
        let metric = Metric {
            name: name.to_owned(),
            help: help.to_owned(),
            kind,
            label_names: copy_strings(label_names),
            bounds,
            places,
            series,
        };
        proof {
            let added = new_metric(name@, kind, help@, label_names.deep_view(), asked);
            assert(metric@.series =~= added.series);
            assert(metric@ == added);
            lemma_new_metric_wf(name@, kind, help@, label_names.deep_view(), asked);
        }
        let index = self.metrics.len();
        let mut metrics: Vec<Metric> = Vec::new();
        std::mem::swap(&mut metrics, &mut self.metrics);
        metrics.push(metric);
        proof {
            let after = Seq::new(metrics@.len(), |i: int| metrics@[i]@);
            assert(after =~= old(self)@.push(metric@));
            assert(registry_wf(after));
        }
        self.metrics = metrics;
        Ok(Handle { index })
    }

    /// Counts one more for the series for `label_values` of the counter or
    /// gauge behind `handle`. Does nothing where `handle` is not of this
    /// registry, where the metric is a histogram, or where `label_values`
    /// has not one value for each label name.
    pub fn increment(&mut self, handle: Handle, label_values: &Vec<String>)
        ensures
            registry_wf(final(self)@),
            final(self)@ == incremented(
                old(self)@,
                handle.index() as int,
                label_values.deep_view(),
            ),
    {
        proof {
            use_type_invariant(&*self);
        }
        let index = handle.index;
        if index >= self.metrics.len() {
            return ;
        }
        if self.metrics[index].kind == MetricKind::Histogram || self.metrics[index].label_names.len()
            != label_values.len() {
            return ;
        }
        let mut metrics: Vec<Metric> = Vec::new();
        std::mem::swap(&mut metrics, &mut self.metrics);
        proof {
            assert(metrics@[index as int]@ == old(self)@[index as int]);
            lemma_bumped_wf(old(self)@[index as int], label_values.deep_view());
        }
        metrics[index].bump(label_values);
        proof {
            let after = Seq::new(metrics@.len(), |i: int| metrics@[i]@);
            assert(after =~= old(self)@.update(
                index as int,
                old(self)@[index as int].bumped(label_values.deep_view()),
            ));
            lemma_update_wf(old(self)@, index as int, after[index as int]);
        }
        self.metrics = metrics;
    }

    /// Records `value` in the series for `label_values` of the histogram
    /// behind `handle`. Does nothing where `handle` is not of this registry,
    /// where the metric is no histogram, or where `label_values` has not one
    /// value for each label name.
    pub fn observe(&mut self, handle: Handle, label_values: &Vec<String>, value: u64)
        ensures
            registry_wf(final(self)@),
            final(self)@ == observed(
                old(self)@,
                handle.index() as int,
                label_values.deep_view(),
                value,
            ),
    {
        proof {
            use_type_invariant(&*self);
        }
        let index = handle.index;
        if index >= self.metrics.len() {
            return ;
        }
        if self.metrics[index].kind != MetricKind::Histogram || self.metrics[index].label_names.len()
            != label_values.len() {
            return ;
        }
        let mut metrics: Vec<Metric> = Vec::new();
        std::mem::swap(&mut metrics, &mut self.metrics);
        proof {
            assert(metrics@[index as int]@ == old(self)@[index as int]);
            lemma_observed_wf(old(self)@[index as int], label_values.deep_view(), value);
        }
        metrics[index].observe(label_values, value);
        proof {
            let after = Seq::new(metrics@.len(), |i: int| metrics@[i]@);
            assert(after =~= old(self)@.update(
                index as int,
                old(self)@[index as int].observed(label_values.deep_view(), value),
            ));
            lemma_update_wf(old(self)@, index as int, after[index as int]);
        }
        self.metrics = metrics;
    }

    /// The count of the series for `label_values` of the metric behind
    /// `handle`: a counter's or gauge's value, a histogram's number of
    /// observations. Zero where there is no such metric or no such series.
    pub fn count(&self, handle: Handle, label_values: &Vec<String>) -> (count: u64)
        ensures
            count == count_of(self@, handle.index() as int, label_values.deep_view()),
    {
        proof {
            use_type_invariant(self);
        }
        if handle.index >= self.metrics.len() {
            return 0;
        }
        assert(self.metrics@[handle.index as int]@ == self@[handle.index as int]);
        match self.metrics[handle.index].find(label_values) {
            Some(i) => self.metrics[handle.index].series[i].count,
            None => 0,
        }
    }

    /// The sum of the observations of the series for `label_values` of the
    /// histogram behind `handle`. Zero where there is no such metric or no
    /// such series.
    pub fn sum(&self, handle: Handle, label_values: &Vec<String>) -> (sum: u64)
        ensures
            sum == sum_of(self@, handle.index() as int, label_values.deep_view()),
    {
        proof {
            use_type_invariant(self);
        }
        if handle.index >= self.metrics.len() {
            return 0;
        }
        assert(self.metrics@[handle.index as int]@ == self@[handle.index as int]);
        match self.metrics[handle.index].find(label_values) {
            Some(i) => self.metrics[handle.index].series[i].sum,
            None => 0,
        }
    }

    /// The bucket counts of the series for `label_values` of the histogram
    /// behind `handle`, one for each bound: the observations at or below it.
    /// All zero where there is no such series, empty where there is no such
    /// metric.
    pub fn buckets(&self, handle: Handle, label_values: &Vec<String>) -> (counts: Vec<u64>)
        ensures
            counts@ == buckets_of(self@, handle.index() as int, label_values.deep_view()),
    {
        proof {
            use_type_invariant(self);
        }
        let mut counts: Vec<u64> = Vec::new();
        if handle.index >= self.metrics.len() {
            return counts;
        }
        let metric = &self.metrics[handle.index];
        assert(metric@ == self@[handle.index as int]);
        let found = metric.find(label_values);
        let mut k: usize = 0;
        while k < metric.bounds.len()
            invariant
                k <= metric.bounds.len(),
                counts.len() == k,
                metric@.wf(),
                found matches Some(i) ==> i < metric.series.len() && metric.series@[i as int].buckets.len()
                    == metric.bounds.len(),
                forall|b: int|
                    0 <= b < k ==> counts@[b] == (match found {
                        Some(i) => metric.series@[i as int].buckets@[b],
                        None => 0u64,
                    }),
            decreases metric.bounds.len() - k,
        {
            let c: u64 = match found {
                Some(i) => metric.series[i].buckets[k],
                None => 0,
            };
            counts.push(c);
            k = k + 1;
        }
        assert(counts@ =~= buckets_of(self@, handle.index() as int, label_values.deep_view()));
        counts
    }

    /// The counts of all series of the metric behind `handle` added up; zero
    /// where there is no such metric.
    pub fn total(&self, handle: Handle) -> (total: u128)
        ensures
            total == total_of(self@, handle.index() as int),
    {
        if handle.index >= self.metrics.len() {
            return 0;
        }
        let metric = &self.metrics[handle.index];
        assert(metric@ == self@[handle.index as int]);
        let mut total: u128 = 0;
        let mut i: usize = 0;
        while i < metric.series.len()
            invariant
                i <= metric.series.len(),
                total == total_count(metric@.series.take(i as int)),
                total <= i * u64::MAX,
            decreases metric.series.len() - i,
        {
            proof {
                assert(metric@.series.take(i + 1).drop_last() =~= metric@.series.take(i as int));
                assert(i * u64::MAX + u64::MAX <= usize::MAX * u64::MAX + u64::MAX)
                    by (nonlinear_arith)
                    requires
                        i <= usize::MAX,
                ;
                assert((i + 1) * u64::MAX == i * u64::MAX + u64::MAX) by (nonlinear_arith);
            }
            total = total + metric.series[i].count as u128;
            i = i + 1;
        }
        assert(metric@.series.take(i as int) =~= metric@.series);
        total
    }
}

proof fn lemma_update_wf(metrics: Seq<MetricView>, index: int, next: MetricView)
    requires
        registry_wf(metrics),
        0 <= index < metrics.len(),
        next.wf(),
        next.name == metrics[index].name,
    ensures
        registry_wf(metrics.update(index, next)),
{
    let after = metrics.update(index, next);
    assert forall|i: int, j: int| 0 <= i < j < after.len() implies (#[trigger] after[i]).name != (
    #[trigger] after[j]).name by {
        assert(metrics[i].name != metrics[j].name);
    }
}

/// In a valid metric each series is the one found for its own labels.
pub proof fn lemma_series_at(m: MetricView, i: int)
    requires
        m.wf(),
        0 <= i < m.series.len(),
    ensures
        m.has_series(m.series[i].labels),
        m.series_at(m.series[i].labels) == i,
        m.series_for(m.series[i].labels) == m.series[i],
{
    let labels = m.series[i].labels;
    let k = m.series_at(labels);
    assert(0 <= k < m.series.len() && m.series[k].labels == labels);
    if k < i {
        assert(m.series[k].labels != m.series[i].labels);
    } else if i < k {
        assert(m.series[i].labels != m.series[k].labels);
    }
}

proof fn lemma_total_update(series: Seq<SeriesView>, i: int, next: SeriesView)
    requires
        0 <= i < series.len(),
    ensures
        total_count(series.update(i, next)) == total_count(series) - series[i].count + next.count,
    decreases series.len(),
{
    let after = series.update(i, next);
    if i == series.len() - 1 {
        assert(after.drop_last() =~= series.drop_last());
    } else {
        lemma_total_update(series.drop_last(), i, next);
        assert(after.drop_last() =~= series.drop_last().update(i, next));
    }
}

/// Putting a series in place changes that series and no other: the metric
/// then has `next` for its labels and what it had before for all others, and
/// the counts add up to what they did, less the old count of that series,
/// plus its new one.
pub proof fn lemma_with_series(m: MetricView, next: SeriesView, other: Seq<Seq<char>>)
    requires
        m.wf(),
        m.fits(next),
    ensures
        m.with_series(next).series_for(next.labels) == next,
        other != next.labels ==> m.with_series(next).series_for(other) == m.series_for(other),
        m.with_series(next).total() == m.total() - m.series_for(next.labels).count + next.count,
{
    let after = m.with_series(next);
    lemma_with_series_wf(m, next);
    if m.has_series(next.labels) {
        let at = m.series_at(next.labels);
        lemma_series_at(after, at);
        lemma_total_update(m.series, at, next);
        if other != next.labels {
            if m.has_series(other) {
                let o = m.series_at(other);
                assert(after.series[o] == m.series[o]);
                lemma_series_at(after, o);
            } else if after.has_series(other) {
                let o = after.series_at(other);
                assert(m.series[o].labels == other);
            }
        }
    } else {
        let at = m.series.len() as int;
        lemma_series_at(after, at);
        assert(after.series.drop_last() =~= m.series);
        if other != next.labels {
            if m.has_series(other) {
                let o = m.series_at(other);
                assert(after.series[o] == m.series[o]);
                lemma_series_at(after, o);
            } else if after.has_series(other) {
                let o = after.series_at(other);
                assert(m.series[o].labels == other);
            }
        }
    }
}

proof fn lemma_total_bounds(series: Seq<SeriesView>, i: int)
    requires
        0 <= i < series.len(),
    ensures
        series[i].count <= total_count(series),
    decreases series.len(),
{
    if i < series.len() - 1 {
        lemma_total_bounds(series.drop_last(), i);
    }
}

/// No series counts more than all series of its metric together.
pub proof fn lemma_count_within_total(m: MetricView, labels: Seq<Seq<char>>)
    ensures
        m.series_for(labels).count <= m.total(),
{
    if m.has_series(labels) {
        lemma_total_bounds(m.series, m.series_at(labels));
    }
}

/// Updating a series keeps the definition of the metric.
pub proof fn lemma_definition_kept(m: MetricView, next: SeriesView)
    ensures
        m.with_series(next).name == m.name,
        m.with_series(next).help == m.help,
        m.with_series(next).kind == m.kind,
        m.with_series(next).label_names == m.label_names,
        m.with_series(next).bounds == m.bounds,
        m.with_series(next).places == m.places,
{
}

/// What `increment` does to the counts: where it applies, the series for
/// `labels` of the metric at `index` counts one more, held to what a `u64`
/// can store, and the counts of that metric add up to one more unless that
/// series was full. Every other series of every metric reads as before, no
/// count ever goes down, and the registry stays valid.
pub proof fn lemma_incremented(
    metrics: Seq<MetricView>,
    index: int,
    labels: Seq<Seq<char>>,
    other_index: int,
    other: Seq<Seq<char>>,
)
    requires
        registry_wf(metrics),
    ensures
        registry_wf(incremented(metrics, index, labels)),
        incremented(metrics, index, labels).len() == metrics.len(),
        counts_at(metrics, index, labels) ==> count_of(
            incremented(metrics, index, labels),
            index,
            labels,
        ) == sat_add(count_of(metrics, index, labels), 1),
        counts_at(metrics, index, labels) && count_of(metrics, index, labels) < u64::MAX
            ==> total_of(incremented(metrics, index, labels), index) == total_of(metrics, index)
            + 1,
        0 <= other_index < metrics.len() && (other_index != index || other != labels)
            ==> metrics[other_index].series_for(other) == incremented(
            metrics,
            index,
            labels,
        )[other_index].series_for(other),
        count_of(incremented(metrics, index, labels), other_index, other) >= count_of(
            metrics,
            other_index,
            other,
        ),
{
    if counts_at(metrics, index, labels) {
        let m = metrics[index];
        let next = m.series_for(labels).bumped();
        lemma_series_for(m, labels);
        lemma_bumped_wf(m, labels);
        lemma_update_wf(metrics, index, m.bumped(labels));
        lemma_with_series(m, next, other);
    }
}

/// What `observe` does to a histogram: where it applies, the series for
/// `labels` of the metric at `index` has one more observation, `value` more
/// in its sum, and one more in each bucket whose bound `value` does not
/// exceed, all held to what a `u64` can store. Every other series of every
/// metric reads as before, and the registry stays valid.
pub proof fn lemma_observed(
    metrics: Seq<MetricView>,
    index: int,
    labels: Seq<Seq<char>>,
    value: u64,
    other_index: int,
    other: Seq<Seq<char>>,
)
    requires
        registry_wf(metrics),
    ensures
        registry_wf(observed(metrics, index, labels, value)),
        observed(metrics, index, labels, value).len() == metrics.len(),
        observes_at(metrics, index, labels) ==> observed(
            metrics,
            index,
            labels,
            value,
        )[index].series_for(labels) == metrics[index].series_for(labels).observed(
            metrics[index].bounds,
            value,
        ),
        0 <= other_index < metrics.len() && (other_index != index || other != labels)
            ==> metrics[other_index].series_for(other) == observed(
            metrics,
            index,
            labels,
            value,
        )[other_index].series_for(other),
{
    if observes_at(metrics, index, labels) {
        let m = metrics[index];
        let next = m.series_for(labels).observed(m.bounds, value);
        lemma_series_for(m, labels);
        lemma_observed_wf(m, labels, value);
        lemma_update_wf(metrics, index, m.observed(labels, value));
        assert(m.fits(next)) by {
            lemma_with_series_fits(m, next);
        }
        lemma_with_series(m, next, other);
    }
}

proof fn lemma_with_series_fits(m: MetricView, next: SeriesView)
    requires
        m.wf(),
        next.labels.len() == m.label_names.len(),
        m.with_series(next).wf(),
    ensures
        m.fits(next),
{
    let after = m.with_series(next);
    if m.has_series(next.labels) {
        let at = m.series_at(next.labels);
        assert(after.fits(after.series[at]));
    } else {
        assert(after.fits(after.series[m.series.len() as int]));
    }
}

/// `n`, held to what a `u64` can store.
pub open spec fn held(n: nat) -> u64 {
    if n <= u64::MAX {
        n as u64
    } else {
        u64::MAX
    }
}

/// The series after it observed `values` one after the other.
pub open spec fn observed_all(s: SeriesView, bounds: Seq<u64>, values: Seq<u64>) -> SeriesView
    decreases values.len(),
{
    if values.len() == 0 {
        s
    } else {
        observed_all(s, bounds, values.drop_last()).observed(bounds, values.last())
    }
}

/// The number of values among `values` that do not exceed `bound`.
pub open spec fn at_most(values: Seq<u64>, bound: u64) -> nat
    decreases values.len(),
{
    if values.len() == 0 {
        0
    } else {
        at_most(values.drop_last(), bound) + (if values.last() <= bound {
            1nat
        } else {
            0nat
        })
    }
}

/// `values` added up.
pub open spec fn sum_all(values: Seq<u64>) -> nat
    decreases values.len(),
{
    if values.len() == 0 {
        0
    } else {
        sum_all(values.drop_last()) + values.last() as nat
    }
}

/// A histogram series is its observations told by buckets: after any run
/// of observations a fresh series holds their number as its count, their sum
/// as its sum, and in each bucket the number of observations that do not
/// exceed the bucket's bound, each held to what a `u64` can store.
pub proof fn lemma_histogram_tells_observations(
    labels: Seq<Seq<char>>,
    bounds: Seq<u64>,
    values: Seq<u64>,
)
    ensures
        observed_all(zero_series(labels, bounds.len()), bounds, values).labels == labels,
        observed_all(zero_series(labels, bounds.len()), bounds, values).count == held(
            values.len(),
        ),
        observed_all(zero_series(labels, bounds.len()), bounds, values).sum == held(
            sum_all(values),
        ),
        observed_all(zero_series(labels, bounds.len()), bounds, values).buckets.len()
            == bounds.len(),
        forall|i: int|
            0 <= i < bounds.len() ==> (#[trigger] observed_all(
                zero_series(labels, bounds.len()),
                bounds,
                values,
            ).buckets[i]) == held(at_most(values, bounds[i])),
    decreases values.len(),
{
    if values.len() > 0 {
        lemma_histogram_tells_observations(labels, bounds, values.drop_last());
    }
}

/// The bucket counts of every series of a valid registry are cumulative: a
/// bucket never holds more than a later one, and none holds more than the
/// number of observations, which is the count of the unbounded last bucket.
pub proof fn lemma_buckets_cumulative(
    metrics: Seq<MetricView>,
    index: int,
    labels: Seq<Seq<char>>,
)
    requires
        registry_wf(metrics),
        0 <= index < metrics.len(),
        metrics[index].accepts(labels),
    ensures
        cumulative(
            metrics[index].series_for(labels).buckets,
            metrics[index].series_for(labels).count,
        ),
        metrics[index].series_for(labels).buckets.len() == metrics[index].bounds.len(),
{
    lemma_series_for(metrics[index], labels);
}

/// Appends the labels of a sample, separated by commas.
fn write_label_pairs(out: &mut String, names: &Vec<String>, values: &Vec<String>)
    requires
        names.len() == values.len(),
    ensures
        final(out)@ == old(out)@ + label_pairs(
            names.deep_view(),
            values.deep_view(),
            names.len() as int,
        ),
{
    let ghost before = out@;
    let mut i: usize = 0;
    while i < names.len()
        invariant
            i <= names.len(),
            names.len() == values.len(),
            out@ == before + label_pairs(names.deep_view(), values.deep_view(), i as int),
        decreases names.len() - i,
    {
        let ghost so_far = out@;
        if i > 0 {
            out.append(",");
        }
        out.append(names[i].as_str());
        out.append("=\"");
        append_escaped(out, values[i].as_str(), true);
        out.append("\"");
        i = i + 1;
        proof {
            let pair = label_pair(names.deep_view()[i - 1], values.deep_view()[i - 1]);
            if i == 1 {
                assert(so_far =~= before);
                assert(out@ =~= before + pair);
            } else {
                assert(out@ =~= so_far + ","@ + pair);
                assert(out@ =~= before + (label_pairs(
                    names.deep_view(),
                    values.deep_view(),
                    i - 1,
                ) + ","@ + pair));
            }
        }
    }
}

/// Appends what follows a sample's name: the label block or, for a bucket
/// with the bound `bound`, the bucket block.
fn write_block(out: &mut String, names: &Vec<String>, values: &Vec<String>, bound: Option<&str>)
    requires
        names.len() == values.len(),
    ensures
        final(out)@ == old(out)@ + (match bound {
            None => label_block(names.deep_view(), values.deep_view()),
            Some(b) => bucket_block(names.deep_view(), values.deep_view(), b@),
        }),
{
    let ghost before = out@;
    let ghost pairs = label_pairs(names.deep_view(), values.deep_view(), names.len() as int);
    match bound {
        None => {
            if names.len() > 0 {
                out.append("{");
                write_label_pairs(out, names, values);
                out.append("}");
                assert(out@ =~= before + ("{"@ + pairs + "}"@));
            } else {
                assert(out@ =~= before + Seq::<char>::empty());
            }
        },
        Some(b) => {
            if names.len() > 0 {
                out.append("{");
                write_label_pairs(out, names, values);
                out.append(",le=\"");
                out.append(b);
                out.append("\"}");
                assert(out@ =~= before + ("{"@ + pairs + ",le=\""@ + b@ + "\"}"@));
            } else {
                out.append("{le=\"");
                out.append(b);
                out.append("\"}");
                assert(out@ =~= before + ("{le=\""@ + b@ + "\"}"@));
            }
        },
    }
}

/// Appends one sample line.
fn write_sample(
    out: &mut String,
    name: &str,
    suffix: &str,
    names: &Vec<String>,
    values: &Vec<String>,
    bound: Option<&str>,
    value: u64,
    places: u8,
)
    requires
        names.len() == values.len(),
        places <= 19,
    ensures
        final(out)@ == old(out)@ + sample_line(
            name@,
            suffix@,
            match bound {
                None => label_block(names.deep_view(), values.deep_view()),
                Some(b) => bucket_block(names.deep_view(), values.deep_view(), b@),
            },
            fixed_point(value as nat, places as nat),
        ),
{
    let ghost before = out@;
    out.append(name);
    out.append(suffix);
    write_block(out, names, values, bound);
    out.append(" ");
    append_fixed_point(out, value, places);
    out.append("\n");
    proof {
        let block = match bound {
            None => label_block(names.deep_view(), values.deep_view()),
            Some(b) => bucket_block(names.deep_view(), values.deep_view(), b@),
        };
        assert(out@ =~= before + (name@ + suffix@ + block + " "@ + fixed_point(
            value as nat,
            places as nat,
        ) + "\n"@));
    }
}

/// With no decimal places the fixed-point numeral is the decimal numeral.
pub proof fn lemma_fixed_point_whole(n: nat)
    ensures
        fixed_point(n, 0) == decimal(n),
{
    assert(crate::text::pow10(0) == 1);
}

impl Metric {
    /// Appends the sample lines of the series at `i`.
    fn write_series(&self, out: &mut String, i: usize)
        requires
            self@.wf(),
            i < self.series.len(),
        ensures
            final(out)@ == old(out)@ + series_lines(self@, self@.series[i as int]),
    {
        let ghost before = out@;
        let ghost m = self@;
        let ghost sv = self@.series[i as int];
        let series = &self.series[i];
        assert(series@ == sv);
        assert(m.fits(sv));
        proof {
            lemma_fixed_point_whole(series.count as nat);
        }
        if self.kind == MetricKind::Histogram {
            let mut k: usize = 0;
            while k < self.bounds.len()
                invariant
                    k <= self.bounds.len(),
                    self@ == m,
                    series@ == sv,
                    m.wf(),
                    m.fits(sv),
                    series.labels.len() == self.label_names.len(),
                    series.buckets.len() == self.bounds.len(),
                    out@ == before + bucket_lines(m, sv, k as int),
                decreases self.bounds.len() - k,
            {
                let mut bound = String::new();
                append_fixed_point(&mut bound, self.bounds[k], self.places);
                assert(bound@ =~= fixed_point(m.bounds[k as int] as nat, m.places));
                proof {
                    lemma_fixed_point_whole(series.buckets[k as int] as nat);
                }
                write_sample(
                    out,
                    self.name.as_str(),
                    "_bucket",
                    &self.label_names,
                    &series.labels,
                    Some(bound.as_str()),
                    series.buckets[k],
                    0,
                );
                k = k + 1;
                assert(out@ =~= before + bucket_lines(m, sv, k as int));
            }
            write_sample(
                out,
                self.name.as_str(),
                "_bucket",
                &self.label_names,
                &series.labels,
                Some("+Inf"),
                series.count,
                0,
            );
            write_sample(
                out,
                self.name.as_str(),
                "_sum",
                &self.label_names,
                &series.labels,
                None,
                series.sum,
                self.places,
            );
            write_sample(
                out,
                self.name.as_str(),
                "_count",
                &self.label_names,
                &series.labels,
                None,
                series.count,
                0,
            );
            assert(out@ =~= before + series_lines(m, sv));
        } else {
            write_sample(
                out,
                self.name.as_str(),
                "",
                &self.label_names,
                &series.labels,
                None,
                series.count,
                0,
            );
            proof {
                reveal_strlit("");
                assert(""@ =~= Seq::<char>::empty());
            }
        }
    }

    /// Appends the header lines and the sample lines of the metric.
    fn write(&self, out: &mut String)
        requires
            self@.wf(),
        ensures
            final(out)@ == old(out)@ + metric_text(self@),
    {
        let ghost before = out@;
        out.append("# HELP ");
        out.append(self.name.as_str());
        out.append(" ");
        append_escaped(out, self.help.as_str(), false);
        out.append("\n");
        out.append("# TYPE ");
        out.append(self.name.as_str());
        out.append(" ");
        match self.kind {
            MetricKind::Counter => out.append("counter"),
            MetricKind::Gauge => out.append("gauge"),
            MetricKind::Histogram => out.append("histogram"),
        }
        out.append("\n");
        assert(out@ =~= before + header(self@));
        let mut i: usize = 0;
        while i < self.series.len()
            invariant
                i <= self.series.len(),
                self@.wf(),
                out@ == before + header(self@) + samples(self@, i as int),
            decreases self.series.len() - i,
        {
            self.write_series(out, i);
            i = i + 1;
            assert(out@ =~= before + header(self@) + samples(self@, i as int));
        }
        assert(out@ =~= before + metric_text(self@));
    }
}

impl MetricRegistry {
    /// The exposition payload of the registry as it stands.
    pub fn snapshot(&self) -> (text: String)
        ensures
            text@ == payload(self@),
    {
        proof {
            use_type_invariant(self);
        }
        let mut out = String::new();
        let mut i: usize = 0;
        while i < self.metrics.len()
            invariant
                i <= self.metrics.len(),
                registry_wf(self@),
                out@ == metrics_text(self@, i as int),
            decreases self.metrics.len() - i,
        {
            assert(self.metrics@[i as int]@ == self@[i as int]);
            self.metrics[i].write(&mut out);
            i = i + 1;
        }
        out
    }
}

} // verus!
