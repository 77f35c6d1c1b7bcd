//! Shaping finished trace spans into trace log spans: microsecond times in the `SafeLong`
//! range, and the annotations that mark each kind of span.
use crate::api::annotation::{Annotation, SAFE_LONG_MAX, in_safe_long_range};
use crate::api::endpoint::Endpoint;
use crate::api::span::Span;
use crate::text::string_of;
use vstd::prelude::*;

verus! {

/// The kind of a span, as zipkin reports it.
#[derive(Debug, Clone, Copy, PartialEq, Eq, Structural)]
pub enum SpanKind {
    Client,
    Server,
    Producer,
    Consumer,
    /// A kind this library does not annotate.
    Other,
}

/// A number as a `SafeLong`, when it is in range.
///
/// Wraps `conjure_object::SafeLong::try_from(u128)`, which the crate's source defines as
/// `i64::try_from(n)` followed by `SafeLong::new`, which accepts values up to 2^53 - 1; the
/// contract claims `Some(n)` exactly for `n <= 2^53 - 1`.
#[verifier::external_body]
fn safe_long_from_u128(n: u128) -> (r: Option<i64>)
    ensures
        r == if n <= SAFE_LONG_MAX as u128 { Some(n as i64) } else { None },
{
    conjure_object::SafeLong::try_from(n).ok().map(i64::from)
}

/// The microseconds of a duration in the `SafeLong` range; out of range, 0.
pub open spec fn spec_dur2micros(nanos: int) -> i64 {
    if nanos / 1000 <= SAFE_LONG_MAX { (nanos / 1000) as i64 } else { 0 }
}

/// The microseconds from the Unix epoch of a time in the `SafeLong` range; before the epoch or
/// out of range, 0.
pub open spec fn spec_time2micros(t: int) -> i64 {
    if t >= 0 { spec_dur2micros(t) } else { 0 }
}

/// The microseconds of a duration given in nanoseconds, as a `SafeLong`; 0 when out of range.
pub fn dur2micros(nanos: u128) -> (r: i64)
    ensures
        r == spec_dur2micros(nanos as int),
        in_safe_long_range(r as int),
{
    match safe_long_from_u128(nanos / 1000) {
        Some(v) => v,
        None => 0,
    }
}

/// The microseconds from the Unix epoch of a time given in nanoseconds, as a `SafeLong`; 0
/// before the epoch or when out of range.
pub fn time2micros(t: i128) -> (r: i64)
    ensures
        r == spec_time2micros(t as int),
        in_safe_long_range(r as int),
{
    if t >= 0 {
        dur2micros(t as u128)
    } else {
        0
    }
}

/// The annotations that mark a span of the given kind, as (microseconds, value) pairs: a
/// client span is sent (`cs`) at its start and receives (`cr`) at its end, a server span
/// receives (`sr`) and sends (`ss`), a producer sends a message (`ms`), a consumer receives
/// one (`mr`), and a span of no kind is local (`lc`).
pub open spec fn spec_kind_annotations(kind: Option<SpanKind>, start: i128, duration: u128) -> Seq<(i64, Seq<char>)> {
    let ts = spec_time2micros(start as int);
    let end = spec_time2micros(start + duration);
    match kind {
        Some(SpanKind::Client) => seq![(ts, seq!['c', 's']), (end, seq!['c', 'r'])],
        Some(SpanKind::Server) => seq![(ts, seq!['s', 'r']), (end, seq!['s', 's'])],
        Some(SpanKind::Producer) => seq![(ts, seq!['m', 's'])],
        Some(SpanKind::Consumer) => seq![(ts, seq!['m', 'r'])],
        Some(SpanKind::Other) => seq![],
        None => seq![(ts, seq!['l', 'c'])],
    }
}

/// Whether an annotation value marks the start of a span: a client sends, a server receives,
/// a message is sent or received, or a local span begins.
pub open spec fn marks_start(v: Seq<char>) -> bool {
    v == seq!['c', 's'] || v == seq!['s', 'r'] || v == seq!['m', 's'] || v == seq!['m', 'r'] || v == seq!['l', 'c']
}

/// Whether an annotation value marks the end of a span: a client receives its answer, a
/// server sends its own.
pub open spec fn marks_end(v: Seq<char>) -> bool {
    v == seq!['c', 'r'] || v == seq!['s', 's']
}

/// The annotations of a span's kind are stamped with its times: every start mark (`cs`, `sr`,
/// `ms`, `mr`, `lc`) with the span's start and every end mark (`cr`, `ss`) with its end. Each
/// kind but `Other` has its start mark first; a client or server span has its end mark
/// second and no more; the others have one annotation, `Other` none. When the end is in the
/// `SafeLong` range, the annotations come in time order.
pub proof fn lemma_kind_annotations_times(kind: Option<SpanKind>, start: i128, duration: u128)
    ensures
        ({
            let a = spec_kind_annotations(kind, start, duration);
            let ts = spec_time2micros(start as int);
            let end = spec_time2micros(start + duration);
            &&& forall|i: int| 0 <= i < a.len() && marks_start(#[trigger] a[i].1) ==> a[i].0 == ts
            &&& forall|i: int| 0 <= i < a.len() && marks_end(#[trigger] a[i].1) ==> a[i].0 == end
            &&& forall|i: int| 0 <= i < a.len() ==> marks_start(#[trigger] a[i].1) || marks_end(a[i].1)
            &&& (kind != Some(SpanKind::Other) ==> a.len() >= 1 && a[0].0 == ts && marks_start(a[0].1))
            &&& (kind == Some(SpanKind::Other) ==> a.len() == 0)
            &&& (kind == Some(SpanKind::Client) || kind == Some(SpanKind::Server) ==> a.len() == 2 && a[1].0 == end && marks_end(a[1].1))
            &&& (!(kind == Some(SpanKind::Client) || kind == Some(SpanKind::Server)) ==> a.len() <= 1)
            &&& (kind == Some(SpanKind::Client) ==> a[0].1 == seq!['c', 's'] && a[1].1 == seq!['c', 'r'])
            &&& (kind == Some(SpanKind::Server) ==> a[0].1 == seq!['s', 'r'] && a[1].1 == seq!['s', 's'])
            &&& (kind == Some(SpanKind::Producer) ==> a[0].1 == seq!['m', 's'])
            &&& (kind == Some(SpanKind::Consumer) ==> a[0].1 == seq!['m', 'r'])
            &&& (kind == None::<SpanKind> ==> a[0].1 == seq!['l', 'c'])
            &&& ((start + duration) / 1000 <= SAFE_LONG_MAX ==> forall|i: int, j: int| 0 <= i < j < a.len() ==> #[trigger] a[i].0 <= #[trigger] a[j].0)
        }),
{
    let a = spec_kind_annotations(kind, start, duration);
    let ts = spec_time2micros(start as int);
    let end = spec_time2micros(start + duration);
    assert(seq!['c', 's'] != seq!['c', 'r'] && seq!['s', 'r'] != seq!['s', 's']) by {
        assert(seq!['c', 's'][1] != seq!['c', 'r'][1]);
        assert(seq!['s', 'r'][1] != seq!['s', 's'][1]);
    }
    assert(!marks_start(seq!['c', 'r'])) by {
        assert(seq!['c', 'r'][1] != seq!['c', 's'][1]);
        assert(seq!['c', 'r'][0] != seq!['s', 'r'][0]);
        assert(seq!['c', 'r'][0] != seq!['m', 's'][0]);
        assert(seq!['c', 'r'][0] != seq!['m', 'r'][0]);
        assert(seq!['c', 'r'][0] != seq!['l', 'c'][0]);
    }
    assert(!marks_start(seq!['s', 's'])) by {
        assert(seq!['s', 's'][0] != seq!['c', 's'][0]);
        assert(seq!['s', 's'][1] != seq!['s', 'r'][1]);
        assert(seq!['s', 's'][0] != seq!['m', 's'][0]);
        assert(seq!['s', 's'][0] != seq!['m', 'r'][0]);
        assert(seq!['s', 's'][0] != seq!['l', 'c'][0]);
    }
    assert(!marks_end(seq!['c', 's']) && !marks_end(seq!['s', 'r']) && !marks_end(seq!['m', 's'])
        && !marks_end(seq!['m', 'r']) && !marks_end(seq!['l', 'c'])) by {
        assert(seq!['c', 's'][1] != seq!['c', 'r'][1]);
        assert(seq!['c', 's'][0] != seq!['s', 's'][0]);
        assert(seq!['s', 'r'][0] != seq!['c', 'r'][0]);
        assert(seq!['s', 'r'][1] != seq!['s', 's'][1]);
        assert(seq!['m', 's'][0] != seq!['c', 'r'][0]);
        assert(seq!['m', 's'][0] != seq!['s', 's'][0]);
        assert(seq!['m', 'r'][0] != seq!['c', 'r'][0]);
        assert(seq!['m', 'r'][0] != seq!['s', 's'][0]);
        assert(seq!['l', 'c'][0] != seq!['c', 'r'][0]);
        assert(seq!['l', 'c'][0] != seq!['s', 's'][0]);
    }
    if (start + duration) / 1000 <= SAFE_LONG_MAX {
        assert(ts <= end) by {
            if start >= 0 {
                assert(start / 1000 <= (start + duration) / 1000) by (nonlinear_arith)
                    requires start >= 0, duration >= 0;
            }
        }
    }
}

/// A finished span as the tracer reports it. Times are nanoseconds from the Unix epoch.
pub struct RawSpan {
    pub trace_id: String,
    pub id: String,
    pub name: Option<String>,
    pub parent_id: Option<String>,
    pub timestamp: i128,
    pub duration: u128,
    pub kind: Option<SpanKind>,
    pub service_name: Option<String>,
    pub ipv4: Option<String>,
    pub ipv6: Option<String>,
    pub annotations: Vec<(i128, String)>,
    pub tags: Vec<(String, String)>,
}

/// The text of an optional name, or `unknown`.
pub open spec fn or_unknown(s: Option<String>) -> Seq<char> {
    match s {
        Some(x) => x@,
        None => seq!['u', 'n', 'k', 'n', 'o', 'w', 'n'],
    }
}

fn name_or_unknown(s: &Option<String>) -> (r: String)
    ensures
        r@ == or_unknown(*s),
{
    match s {
        Some(x) => string_of(x.as_str()),
        None => {
            proof {
                reveal_strlit("unknown");
            }
            string_of("unknown")
        },
    }
}

/// The (microseconds, value) pairs of annotations.
pub open spec fn annotation_pairs(a: Seq<Annotation>) -> Seq<(i64, Seq<char>)> {
    a.map_values(|x: Annotation| (x.spec_timestamp(), x.spec_value()))
}

fn push_annotation(v: &mut Vec<Annotation>, ts: i64, value: &str, endpoint: &Endpoint)
    requires
        in_safe_long_range(ts as int),
    ensures
        annotation_pairs(final(v)@) == annotation_pairs(old(v)@).push((ts, value@)),
        forall|i: int| 0 <= i < old(v)@.len() ==> final(v)@[i] == old(v)@[i],
        final(v)@.len() == old(v)@.len() + 1,
        final(v)@.last().spec_endpoint().spec_service_name() == endpoint.spec_service_name(),
        final(v)@.last().spec_endpoint().spec_ipv4() == endpoint.spec_ipv4(),
        final(v)@.last().spec_endpoint().spec_ipv6() == endpoint.spec_ipv6(),
{
    v.push(Annotation::new(ts, value, endpoint.copy()));
    assert(annotation_pairs(final(v)@) =~= annotation_pairs(old(v)@).push((ts, value@)));
}

/// Whether `t` plus `d` nanoseconds is a time a `SystemTime` can hold (within 2^63 seconds of
/// the epoch).
pub open spec fn time_after_fits(t: i128, d: u128) -> bool {
    t + d < 0x8000_0000_0000_0000 * 1_000_000_000
}

/// The trace log span of a finished span: times in microseconds as `SafeLong`s, `unknown` for
/// a missing name, the annotations of its kind followed by its own, all stamped with the local
/// endpoint, and its tags.
pub fn report_span(raw: RawSpan) -> (r: Span)
    requires
        time_after_fits(raw.timestamp, raw.duration),
        raw.timestamp >= -0x8000_0000_0000_0000 * 1_000_000_000,
    ensures
        r.wf(),
        r.trace_id@ == raw.trace_id@,
        r.id@ == raw.id@,
        r.name@ == or_unknown(raw.name),
        opt_str(r.parent_id) == opt_str(raw.parent_id),
        r.timestamp == spec_time2micros(raw.timestamp as int),
        r.duration == spec_dur2micros(raw.duration as int),
        annotation_pairs(r.annotations@) == spec_kind_annotations(raw.kind, raw.timestamp, raw.duration)
            + raw.annotations@.map_values(|a: (i128, String)| (spec_time2micros(a.0 as int), a.1@)),
        forall|i: int| 0 <= i < r.annotations@.len() ==> {
            &&& (#[trigger] r.annotations@[i]).spec_endpoint().spec_service_name() == or_unknown(raw.service_name)
            &&& r.annotations@[i].spec_endpoint().spec_ipv4() == opt_str(raw.ipv4)
            &&& r.annotations@[i].spec_endpoint().spec_ipv6() == opt_str(raw.ipv6)
        },
        r.tags@ == raw.tags@,
        raw.kind != Some(SpanKind::Other) ==> r.annotations@[0].spec_timestamp() == r.timestamp
            && marks_start(r.annotations@[0].spec_value()),
        raw.kind == Some(SpanKind::Client) || raw.kind == Some(SpanKind::Server) ==> r.annotations@[1].spec_timestamp()
            == spec_time2micros(raw.timestamp + raw.duration) && marks_end(r.annotations@[1].spec_value()),
{
    let timestamp = time2micros(raw.timestamp);
    let duration = dur2micros(raw.duration);
    let service_name = name_or_unknown(&raw.service_name);
    let endpoint = Endpoint::builder().service_name(service_name.as_str()).ipv4(raw.ipv4).ipv6(raw.ipv6).build();
    let end = time2micros(raw.timestamp + raw.duration as i128);
    let mut annotations: Vec<Annotation> = Vec::new();
    proof {
        reveal_strlit("cs");
        reveal_strlit("cr");
        reveal_strlit("sr");
        reveal_strlit("ss");
        reveal_strlit("ms");
        reveal_strlit("mr");
        reveal_strlit("lc");
    }
    match raw.kind {
        Some(SpanKind::Client) => {
            push_annotation(&mut annotations, timestamp, "cs", &endpoint);
            push_annotation(&mut annotations, end, "cr", &endpoint);
        },
        Some(SpanKind::Server) => {
            push_annotation(&mut annotations, timestamp, "sr", &endpoint);
            push_annotation(&mut annotations, end, "ss", &endpoint);
        },
        Some(SpanKind::Producer) => {
            push_annotation(&mut annotations, timestamp, "ms", &endpoint);
        },
        Some(SpanKind::Consumer) => {
            push_annotation(&mut annotations, timestamp, "mr", &endpoint);
        },
        Some(SpanKind::Other) => {},
        None => {
            push_annotation(&mut annotations, timestamp, "lc", &endpoint);
        },
    }
    proof {
        assert("cs"@ =~= seq!['c', 's']);
        assert("cr"@ =~= seq!['c', 'r']);
        assert("sr"@ =~= seq!['s', 'r']);
        assert("ss"@ =~= seq!['s', 's']);
        assert("ms"@ =~= seq!['m', 's']);
        assert("mr"@ =~= seq!['m', 'r']);
        assert("lc"@ =~= seq!['l', 'c']);
        assert(annotation_pairs(Seq::<Annotation>::empty()) =~= Seq::<(i64, Seq<char>)>::empty());
    }
    let ghost kind_part = annotation_pairs(annotations@);
    assert(kind_part =~= spec_kind_annotations(raw.kind, raw.timestamp, raw.duration));
    let ghost prefix = annotations@;
    let mut i: usize = 0;
    while i < raw.annotations.len()
        invariant
            i <= raw.annotations.len(),
            annotation_pairs(annotations@) =~= kind_part + raw.annotations@.take(i as int).map_values(|a: (i128, String)| (spec_time2micros(a.0 as int), a.1@)),
            forall|j: int| 0 <= j < annotations@.len() ==> {
                &&& (#[trigger] annotations@[j]).spec_endpoint().spec_service_name() == endpoint.spec_service_name()
                &&& annotations@[j].spec_endpoint().spec_ipv4() == endpoint.spec_ipv4()
                &&& annotations@[j].spec_endpoint().spec_ipv6() == endpoint.spec_ipv6()
            },
        decreases raw.annotations.len() - i,
    {
        let (t, v) = &raw.annotations[i];
        let ts = time2micros(*t);
        push_annotation(&mut annotations, ts, v.as_str(), &endpoint);
        assert(raw.annotations@.take(i + 1) =~= raw.annotations@.take(i as int).push(raw.annotations@[i as int]));
        i = i + 1;
    }
    assert(raw.annotations@.take(i as int) =~= raw.annotations@);
    proof {
        lemma_kind_annotations_times(raw.kind, raw.timestamp, raw.duration);
        if raw.kind != Some(SpanKind::Other) {
            assert(annotation_pairs(annotations@)[0] == kind_part[0]);
        }
        if raw.kind == Some(SpanKind::Client) || raw.kind == Some(SpanKind::Server) {
            assert(annotation_pairs(annotations@)[1] == kind_part[1]);
        }
    }
    Span {
        trace_id: raw.trace_id,
        id: raw.id,
        name: name_or_unknown(&raw.name),
        parent_id: raw.parent_id,
        timestamp,
        duration,
        annotations,
        tags: raw.tags,
    }
}

/// The characters of an optional string.
pub open spec fn opt_str(s: Option<String>) -> Option<Seq<char>> {
    crate::api::endpoint::opt_view(s)
}

} // verus!
