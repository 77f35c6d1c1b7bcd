//! How log records are laid out for a serializer: the fields in order, which of them are
//! written and which skipped, and how many fields the serializer is told to expect.
use vstd::prelude::*;

verus! {

/// What a serializer does with one field of a record.
#[derive(Debug, Clone, Copy, PartialEq, Eq, Structural)]
pub enum FieldStep {
    Write,
    Skip,
}

/// The number of fields that are present.
pub open spec fn count_present(present: Seq<bool>) -> nat
    decreases present.len(),
{
    if present.len() == 0 {
        0
    } else {
        count_present(present.drop_last()) + if present.last() { 1nat } else { 0nat }
    }
}

/// Whether `steps` writes each present field and skips each absent one.
pub open spec fn follows(present: Seq<bool>, steps: Seq<FieldStep>) -> bool {
    &&& steps.len() == present.len()
    &&& forall|i: int|
        0 <= i < present.len() ==> #[trigger] steps[i] == if present[i] {
            FieldStep::Write
        } else {
            FieldStep::Skip
        }
}

/// The layout of a record whose fields, in order, are present or not: each present field is
/// written and each absent one skipped, and the serializer is told to expect as many fields
/// as are written.
pub fn field_plan(present: &[bool]) -> (r: (usize, Vec<FieldStep>))
    ensures
        r.0 == count_present(present@),
        follows(present@, r.1@),
{
    let mut count: usize = 0;
    let mut steps: Vec<FieldStep> = Vec::new();
    let mut i: usize = 0;
    while i < present.len()
        invariant
            i <= present@.len(),
            count == count_present(present@.take(i as int)),
            count <= i,
            follows(present@.take(i as int), steps@),
        decreases present@.len() - i,
    {
        assert(present@.take(i + 1).drop_last() =~= present@.take(i as int));
        if present[i] {
            count = count + 1;
            steps.push(FieldStep::Write);
        } else {
            steps.push(FieldStep::Skip);
        }
        i = i + 1;
    }
    assert(present@.take(i as int) =~= present@);
    (count, steps)
}

/// The fields of a trace log entry, in the order they are written.
pub open spec fn trace_log_v1_names() -> Seq<Seq<char>> {
    seq!["type"@, "time"@, "uid"@, "sid"@, "tokenId"@, "unsafeParams"@, "span"@]
}

/// The fields of a trace log entry, in the order they are written.
pub fn trace_log_v1_fields() -> (r: Vec<&'static str>)
    ensures
        r@.len() == trace_log_v1_names().len(),
        forall|i: int| 0 <= i < r@.len() ==> #[trigger] r@[i]@ == trace_log_v1_names()[i],
{
    vec!["type", "time", "uid", "sid", "tokenId", "unsafeParams", "span"]
}

/// The layout of a trace log entry: its type, time and span are always written; its user,
/// session and token ids when set, and its unsafe parameters when there are any.
pub fn trace_log_v1_plan(has_uid: bool, has_sid: bool, has_token_id: bool, has_unsafe_params: bool) -> (r: (usize, Vec<FieldStep>))
    ensures
        ({
            let present = seq![true, true, has_uid, has_sid, has_token_id, has_unsafe_params, true];
            &&& r.0 == count_present(present)
            &&& follows(present, r.1@)
        }),
        r.0 == 3 + (if has_uid { 1int } else { 0 }) + (if has_sid { 1int } else { 0 }) + (if has_token_id { 1int } else { 0 }) + (if has_unsafe_params { 1int } else { 0 }),
{
    let present = [true, true, has_uid, has_sid, has_token_id, has_unsafe_params, true];
    let r = field_plan(present.as_slice());
    proof {
        let p = present@;
        reveal_with_fuel(count_present, 8);
        assert(p.drop_last() =~= seq![true, true, has_uid, has_sid, has_token_id, has_unsafe_params]);
        assert(p.drop_last().drop_last() =~= seq![true, true, has_uid, has_sid, has_token_id]);
        assert(p.drop_last().drop_last().drop_last() =~= seq![true, true, has_uid, has_sid]);
        assert(p.drop_last().drop_last().drop_last().drop_last() =~= seq![true, true, has_uid]);
        assert(p.drop_last().drop_last().drop_last().drop_last().drop_last() =~= seq![true, true]);
        assert(seq![true, true].drop_last() =~= seq![true]);
        assert(seq![true].drop_last() =~= Seq::<bool>::empty());
    }
    r
}

/// The fields of an event log entry, in the order they are written.
pub open spec fn event_log_v1_names() -> Seq<Seq<char>> {
    seq![
        "type"@,
        "time"@,
        "eventName"@,
        "eventType"@,
        "values"@,
        "uid"@,
        "sid"@,
        "tokenId"@,
        "orgId"@,
        "unsafeParams"@,
    ]
}

/// The fields of an event log entry, in the order they are written.
pub fn event_log_v1_fields() -> (r: Vec<&'static str>)
    ensures
        r@.len() == event_log_v1_names().len(),
        forall|i: int| 0 <= i < r@.len() ==> #[trigger] r@[i]@ == event_log_v1_names()[i],
{
    vec!["type", "time", "eventName", "eventType", "values", "uid", "sid", "tokenId", "orgId", "unsafeParams"]
}

/// The layout of an event log entry: its type, time, name and type are always written; its
/// values and unsafe parameters when there are any, and its ids when set.
pub fn event_log_v1_plan(
    has_values: bool,
    has_uid: bool,
    has_sid: bool,
    has_token_id: bool,
    has_org_id: bool,
    has_unsafe_params: bool,
) -> (r: (usize, Vec<FieldStep>))
    ensures
        ({
            let present = seq![
                true,
                true,
                true,
                true,
                has_values,
                has_uid,
                has_sid,
                has_token_id,
                has_org_id,
                has_unsafe_params,
            ];
            &&& r.0 == count_present(present)
            &&& follows(present, r.1@)
        }),
{
    let present = [true, true, true, true, has_values, has_uid, has_sid, has_token_id, has_org_id, has_unsafe_params];
    let r = field_plan(present.as_slice());
    assert(present@ =~= seq![true, true, true, true, has_values, has_uid, has_sid, has_token_id, has_org_id, has_unsafe_params]);
    r
}

/// The fields of a span, in the order they are written.
pub fn span_fields() -> (r: Vec<&'static str>)
    ensures
        r@.len() == 8,
{
    vec!["traceId", "id", "name", "parentId", "timestamp", "duration", "annotations", "tags"]
}

/// The layout of a span: its ids, name, timestamp and duration are always written; its
/// parent id when set, and its annotations and tags when there are any.
pub fn span_plan(has_parent_id: bool, has_annotations: bool, has_tags: bool) -> (r: (usize, Vec<FieldStep>))
    ensures
        ({
            let present = seq![true, true, true, has_parent_id, true, true, has_annotations, has_tags];
            &&& r.0 == count_present(present)
            &&& follows(present, r.1@)
        }),
{
    let present = [true, true, true, has_parent_id, true, true, has_annotations, has_tags];
    let r = field_plan(present.as_slice());
    assert(present@ =~= seq![true, true, true, has_parent_id, true, true, has_annotations, has_tags]);
    r
}

} // verus!
