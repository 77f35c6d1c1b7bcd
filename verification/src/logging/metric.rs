//! Metric log shaping: the display name of a metric, `name[key:value,...]`.
use crate::text::{push_char, push_str, string_of};
use vstd::prelude::*;

verus! {

/// A metric's identity: its name and its tags in key order.
pub struct MetricId {
    pub name: String,
    pub tags: Vec<(String, String)>,
}

/// `key:value` for each tag, joined by commas.
pub open spec fn spec_tags_text(tags: Seq<(String, String)>) -> Seq<char>
    decreases tags.len(),
{
    if tags.len() == 0 {
        Seq::empty()
    } else {
        let rest = spec_tags_text(tags.drop_last());
        let t = tags.last();
        let sep = if tags.len() > 1 { seq![','] } else { Seq::<char>::empty() };
        rest + sep + t.0@ + seq![':'] + t.1@
    }
}

/// The text of a single tag is `key:value`, with no comma.
pub proof fn lemma_tags_text_one(t: (String, String))
    ensures
        spec_tags_text(seq![t]) == t.0@ + seq![':'] + t.1@,
{
    assert(seq![t].drop_last() =~= Seq::<(String, String)>::empty());
    assert(spec_tags_text(Seq::<(String, String)>::empty()) == Seq::<char>::empty());
    assert(spec_tags_text(seq![t]) =~= t.0@ + seq![':'] + t.1@);
}

/// Adding a tag after one or more others appends exactly a comma, its key, a colon and its
/// value to the text of the tags: each tag after the first is preceded by one comma.
pub proof fn lemma_tags_text_push(tags: Seq<(String, String)>, t: (String, String))
    requires
        tags.len() >= 1,
    ensures
        spec_tags_text(tags.push(t)) == spec_tags_text(tags) + seq![','] + t.0@ + seq![':'] + t.1@,
{
    assert(tags.push(t).drop_last() =~= tags);
    assert(spec_tags_text(tags.push(t)) =~= spec_tags_text(tags) + seq![','] + t.0@ + seq![':'] + t.1@);
}

/// The display name of a metric: its name, followed by its tags in brackets when it has any.
pub open spec fn spec_metric_name(name: Seq<char>, tags: Seq<(String, String)>) -> Seq<char> {
    if tags.len() == 0 {
        name
    } else {
        name + seq!['['] + spec_tags_text(tags) + seq![']']
    }
}

/// The display name of a metric, `name[key:value,...]`.
pub fn metric_name(id: &MetricId) -> (r: String)
    ensures
        r@ == spec_metric_name(id.name@, id.tags@),
{
    let mut name = string_of(id.name.as_str());
    if id.tags.len() > 0 {
        push_char(&mut name, '[');
        let ghost start = name@;
        let mut i: usize = 0;
        while i < id.tags.len()
            invariant
                i <= id.tags.len(),
                name@ == start + spec_tags_text(id.tags@.take(i as int)),
            decreases id.tags.len() - i,
        {
            if i > 0 {
                push_char(&mut name, ',');
            }
            push_str(&mut name, id.tags[i].0.as_str());
            push_char(&mut name, ':');
            push_str(&mut name, id.tags[i].1.as_str());
            proof {
                let t = id.tags@.take(i + 1);
                assert(t.drop_last() =~= id.tags@.take(i as int));
                assert(t.last() == id.tags@[i as int]);
                assert(name@ =~= start + spec_tags_text(t));
            }
            i = i + 1;
        }
        assert(id.tags@.take(i as int) =~= id.tags@);
        push_char(&mut name, ']');
        assert(name@ =~= spec_metric_name(id.name@, id.tags@));
    }
    name
}

/// How often metrics are logged, in seconds.
pub const LOG_INTERVAL_SECS: u64 = 30;

/// The kinds of metric a registry holds.
#[derive(Debug, Clone, Copy, PartialEq, Eq, Structural)]
pub enum MetricKind {
    Counter,
    Meter,
    Gauge,
    Histogram,
    Timer,
}

/// The `metricType` of a metric log entry of each kind.
pub open spec fn spec_metric_type(kind: MetricKind) -> Seq<char> {
    match kind {
        MetricKind::Counter => "counter"@,
        MetricKind::Meter => "meter"@,
        MetricKind::Gauge => "gauge"@,
        MetricKind::Histogram => "histogram"@,
        MetricKind::Timer => "timer"@,
    }
}

/// The keys of the values of a metric log entry of each kind, in the order they are set.
pub open spec fn spec_value_keys(kind: MetricKind) -> Seq<Seq<char>> {
    match kind {
        MetricKind::Counter => seq!["count"@],
        MetricKind::Meter => seq!["count"@, "1m"@],
        MetricKind::Gauge => seq!["value"@],
        MetricKind::Histogram => seq!["max"@, "p95"@, "p99"@, "p999"@, "count"@],
        MetricKind::Timer => seq!["max"@, "p95"@, "p99"@, "p999"@, "count"@, "1m"@],
    }
}

/// The `metricType` of a metric log entry of this kind.
pub fn metric_type(kind: MetricKind) -> (r: &'static str)
    ensures
        r@ == spec_metric_type(kind),
{
    match kind {
        MetricKind::Counter => "counter",
        MetricKind::Meter => "meter",
        MetricKind::Gauge => "gauge",
        MetricKind::Histogram => "histogram",
        MetricKind::Timer => "timer",
    }
}

/// The keys of the values that a metric log entry of this kind carries, in order.
pub fn value_keys(kind: MetricKind) -> (r: Vec<&'static str>)
    ensures
        r@.len() == spec_value_keys(kind).len(),
        forall|i: int| 0 <= i < r@.len() ==> #[trigger] r@[i]@ == spec_value_keys(kind)[i],
{
    match kind {
        MetricKind::Counter => vec!["count"],
        MetricKind::Meter => vec!["count", "1m"],
        MetricKind::Gauge => vec!["value"],
        MetricKind::Histogram => vec!["max", "p95", "p99", "p999", "count"],
        MetricKind::Timer => vec!["max", "p95", "p99", "p999", "count", "1m"],
    }
}

/// Whole units of a thousandth, rounded toward zero as integer division does.
pub open spec fn thousandths(n: int) -> int {
    if n >= 0 {
        n / 1000
    } else {
        -((-n) / 1000)
    }
}

/// A timer's largest sample in microseconds: its nanoseconds divided by a thousand, the
/// remainder dropped.
pub fn timer_max_micros(max_nanos: i64) -> (r: i64)
    ensures
        r == thousandths(max_nanos as int),
{
    if max_nanos >= 0 {
        ((max_nanos as u64) / 1000) as i64
    } else {
        let m: u128 = ((0i128 - max_nanos as i128) as u128) / 1000;
        (0i128 - m as i128) as i64
    }
}

} // verus!
