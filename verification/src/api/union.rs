//! Decoding of the union envelope: a map that holds a `type` key whose value names a
//! variant, and a key with that variant's name whose value is the variant's payload,
//! in either order and with nothing else.
//!
//! The decoder is a state machine. The caller reads the map: it performs each action
//! that the decoder asks for (read the next key, read the tag as a string, decode the
//! payload of a variant) and hands back what it read as the next event.
use crate::text::str_eq;
use vstd::prelude::*;

verus! {

/// Why a union envelope was refused.
#[derive(Debug, PartialEq, Eq)]
pub enum UnionError {
    /// The `type` field is missing.
    MissingType,
    /// The tag names a variant whose field is missing.
    MissingValue(usize),
    /// A field or tag names variant `found` where variant `expected` was named before.
    WrongVariant { found: usize, expected: usize },
    /// A key other than `type` follows the payload that came first.
    NotTypeKey(String),
    /// A key or tag that names no variant.
    UnknownVariant(String),
    /// More fields than the tag and the payload.
    TooManyFields,
}

/// Where the decoder stands in the map.
#[derive(Debug, Clone, Copy, PartialEq, Eq)]
pub enum UnionDecoder {
    /// Nothing read yet.
    Start,
    /// The `type` key came first: its value, the tag, is next.
    Tag,
    /// The tag named this variant: the key of its payload is next.
    KeyAfterTag(usize),
    /// The key matched the tag: the payload of this variant is next.
    ValueAfterTag(usize),
    /// The key of this variant came first: its payload is next.
    ValueFirst(usize),
    /// The payload came first: the `type` key is next.
    TypeKey(usize),
    /// The `type` key followed the payload: the tag is next.
    TagAfterValue(usize),
    /// The envelope is complete: no key may follow.
    Trailing(usize),
    /// The decoder has finished or failed.
    Done,
}

/// What the caller read.
#[derive(Debug)]
pub enum UnionEvent {
    /// The next key of the map, or `None` at its end.
    Key(Option<String>),
    /// The value of the `type` field, as a string.
    Tag(String),
    /// The payload was decoded.
    Value,
}

/// What the caller is to do next.
#[derive(Debug, PartialEq, Eq)]
pub enum UnionAction {
    /// Read the next key of the map.
    ReadKey,
    /// Read the value of the `type` field as a string.
    ReadTag,
    /// Decode the value of the current field as the payload of this variant.
    ReadValue(usize),
    /// The map is a well-formed envelope of this variant.
    Finish(usize),
    /// The map is refused.
    Fail(UnionError),
}

/// The key that holds the tag.
pub open spec fn type_key() -> Seq<char> {
    seq!['t', 'y', 'p', 'e']
}

/// Whether `i` is the first position whose name is `k`.
pub open spec fn is_first(names: Seq<&str>, k: Seq<char>, i: int) -> bool {
    &&& 0 <= i < names.len()
    &&& names[i]@ == k
    &&& forall|j: int| 0 <= j < i ==> names[j]@ != k
}

/// The variant that `k` names: the first with that name.
pub open spec fn spec_find(names: Seq<&str>, k: Seq<char>) -> Option<usize> {
    if exists|i: int| is_first(names, k, i) {
        Some((choose|i: int| is_first(names, k, i)) as usize)
    } else {
        None
    }
}

/// Whether no two variants share a name.
pub open spec fn distinct_names(names: Seq<&str>) -> bool {
    forall|i: int, j: int| 0 <= i < j < names.len() ==> names[i]@ != names[j]@
}

/// The variant that `k` names, if any.
pub fn find_variant(names: &[&str], k: &str) -> (r: Option<usize>)
    ensures
        r == spec_find(names@, k@),
{
    let mut i: usize = 0;
    while i < names.len()
        invariant
            i <= names@.len(),
            forall|j: int| 0 <= j < i ==> names@[j]@ != k@,
        decreases names@.len() - i,
    {
        if str_eq(names[i], k) {
            assert(is_first(names@, k@, i as int));
            let ghost c = choose|c: int| is_first(names@, k@, c);
            assert(c == i) by {
                if c < i {
                } else if c > i {
                    assert(names@[i as int]@ != k@);
                }
            }
            return Some(i);
        }
        i = i + 1;
    }
    None
}

impl UnionDecoder {
    /// The decoder before the first key.
    pub fn new() -> (r: UnionDecoder)
        ensures
            r == UnionDecoder::Start,
    {
        UnionDecoder::Start
    }

    /// Whether the decoder expects this event: the one that answers its last action.
    pub open spec fn accepts(self, e: UnionEvent) -> bool {
        match self {
            UnionDecoder::Start | UnionDecoder::KeyAfterTag(_) | UnionDecoder::TypeKey(_)
            | UnionDecoder::Trailing(_) => e is Key,
            UnionDecoder::Tag | UnionDecoder::TagAfterValue(_) => e is Tag,
            UnionDecoder::ValueAfterTag(_) | UnionDecoder::ValueFirst(_) => e is Value,
            UnionDecoder::Done => false,
        }
    }

    /// The next state and action after `e`.
    pub open spec fn spec_step(self, names: Seq<&str>, e: UnionEvent) -> (UnionDecoder, UnionAction) {
        match (self, e) {
            (UnionDecoder::Start, UnionEvent::Key(None)) => (UnionDecoder::Done, UnionAction::Fail(UnionError::MissingType)),
            (UnionDecoder::Start, UnionEvent::Key(Some(k))) => if k@ == type_key() {
                (UnionDecoder::Tag, UnionAction::ReadTag)
            } else {
                match spec_find(names, k@) {
                    Some(v) => (UnionDecoder::ValueFirst(v), UnionAction::ReadValue(v)),
                    None => (UnionDecoder::Done, UnionAction::Fail(UnionError::UnknownVariant(k))),
                }
            },
            (UnionDecoder::Tag, UnionEvent::Tag(t)) => match spec_find(names, t@) {
                Some(v) => (UnionDecoder::KeyAfterTag(v), UnionAction::ReadKey),
                None => (UnionDecoder::Done, UnionAction::Fail(UnionError::UnknownVariant(t))),
            },
            (UnionDecoder::KeyAfterTag(v), UnionEvent::Key(None)) => (UnionDecoder::Done, UnionAction::Fail(UnionError::MissingValue(v))),
            (UnionDecoder::KeyAfterTag(v), UnionEvent::Key(Some(k))) => match spec_find(names, k@) {
                Some(w) => if w == v {
                    (UnionDecoder::ValueAfterTag(v), UnionAction::ReadValue(v))
                } else {
                    (UnionDecoder::Done, UnionAction::Fail(UnionError::WrongVariant { found: w, expected: v }))
                },
                None => (UnionDecoder::Done, UnionAction::Fail(UnionError::UnknownVariant(k))),
            },
            (UnionDecoder::ValueAfterTag(v), UnionEvent::Value) => (
                UnionDecoder::Trailing(v),
                UnionAction::ReadKey,
            ),
            (UnionDecoder::ValueFirst(v), UnionEvent::Value) => (
                UnionDecoder::TypeKey(v),
                UnionAction::ReadKey,
            ),
            (UnionDecoder::TypeKey(v), UnionEvent::Key(None)) => (UnionDecoder::Done, UnionAction::Fail(UnionError::MissingType)),
            (UnionDecoder::TypeKey(v), UnionEvent::Key(Some(k))) => if k@ == type_key() {
                (UnionDecoder::TagAfterValue(v), UnionAction::ReadTag)
            } else {
                (UnionDecoder::Done, UnionAction::Fail(UnionError::NotTypeKey(k)))
            },
            (UnionDecoder::TagAfterValue(v), UnionEvent::Tag(t)) => match spec_find(names, t@) {
                Some(w) => if w == v {
                    (UnionDecoder::Trailing(v), UnionAction::ReadKey)
                } else {
                    (UnionDecoder::Done, UnionAction::Fail(UnionError::WrongVariant { found: w, expected: v }))
                },
                None => (UnionDecoder::Done, UnionAction::Fail(UnionError::UnknownVariant(t))),
            },
            (UnionDecoder::Trailing(v), UnionEvent::Key(None)) => (
                UnionDecoder::Done,
                UnionAction::Finish(v),
            ),
            (UnionDecoder::Trailing(v), UnionEvent::Key(Some(k))) => if k@ == type_key()
                || spec_find(names, k@) is Some {
                (UnionDecoder::Done, UnionAction::Fail(UnionError::TooManyFields))
            } else {
                (UnionDecoder::Done, UnionAction::Fail(UnionError::UnknownVariant(k)))
            },
            _ => (UnionDecoder::Done, UnionAction::Fail(UnionError::TooManyFields)),
        }
    }

    /// Takes one event: the answer to the last action.
    pub fn step(self, names: &[&str], e: UnionEvent) -> (r: (UnionDecoder, UnionAction))
        requires
            self.accepts(e),
        ensures
            r == self.spec_step(names@, e),
    {
        proof {
            reveal_strlit("type");
            assert("type"@ =~= type_key());
        }
        match (self, e) {
            (UnionDecoder::Start, UnionEvent::Key(None)) => (
                UnionDecoder::Done,
                UnionAction::Fail(UnionError::MissingType),
            ),
            (UnionDecoder::Start, UnionEvent::Key(Some(k))) => {
                if str_eq(k.as_str(), "type") {
                    (UnionDecoder::Tag, UnionAction::ReadTag)
                } else {
                    match find_variant(names, k.as_str()) {
                        Some(v) => (UnionDecoder::ValueFirst(v), UnionAction::ReadValue(v)),
                        None => (
                            UnionDecoder::Done,
                            UnionAction::Fail(UnionError::UnknownVariant(k)),
                        ),
                    }
                }
            },
            (UnionDecoder::Tag, UnionEvent::Tag(t)) => match find_variant(names, t.as_str()) {
                Some(v) => (UnionDecoder::KeyAfterTag(v), UnionAction::ReadKey),
                None => (UnionDecoder::Done, UnionAction::Fail(UnionError::UnknownVariant(t))),
            },
            (UnionDecoder::KeyAfterTag(v), UnionEvent::Key(None)) => (
                UnionDecoder::Done,
                UnionAction::Fail(UnionError::MissingValue(v)),
            ),
            (UnionDecoder::KeyAfterTag(v), UnionEvent::Key(Some(k))) => match find_variant(
                names,
                k.as_str(),
            ) {
                Some(w) => if w == v {
                    (UnionDecoder::ValueAfterTag(v), UnionAction::ReadValue(v))
                } else {
                    (
                        UnionDecoder::Done,
                        UnionAction::Fail(UnionError::WrongVariant { found: w, expected: v }),
                    )
                },
                None => (UnionDecoder::Done, UnionAction::Fail(UnionError::UnknownVariant(k))),
            },
            (UnionDecoder::ValueAfterTag(v), UnionEvent::Value) => (
                UnionDecoder::Trailing(v),
                UnionAction::ReadKey,
            ),
            (UnionDecoder::ValueFirst(v), UnionEvent::Value) => (
                UnionDecoder::TypeKey(v),
                UnionAction::ReadKey,
            ),
            (UnionDecoder::TypeKey(v), UnionEvent::Key(None)) => (
                UnionDecoder::Done,
                UnionAction::Fail(UnionError::MissingType),
            ),
            (UnionDecoder::TypeKey(v), UnionEvent::Key(Some(k))) => {
                if str_eq(k.as_str(), "type") {
                    (UnionDecoder::TagAfterValue(v), UnionAction::ReadTag)
                } else {
                    (UnionDecoder::Done, UnionAction::Fail(UnionError::NotTypeKey(k)))
                }
            },
            (UnionDecoder::TagAfterValue(v), UnionEvent::Tag(t)) => match find_variant(
                names,
                t.as_str(),
            ) {
                Some(w) => if w == v {
                    (UnionDecoder::Trailing(v), UnionAction::ReadKey)
                } else {
                    (
                        UnionDecoder::Done,
                        UnionAction::Fail(UnionError::WrongVariant { found: w, expected: v }),
                    )
                },
                None => (UnionDecoder::Done, UnionAction::Fail(UnionError::UnknownVariant(t))),
            },
            (UnionDecoder::Trailing(v), UnionEvent::Key(None)) => (
                UnionDecoder::Done,
                UnionAction::Finish(v),
            ),
            (UnionDecoder::Trailing(v), UnionEvent::Key(Some(k))) => {
                if str_eq(k.as_str(), "type") || find_variant(names, k.as_str()).is_some() {
                    (UnionDecoder::Done, UnionAction::Fail(UnionError::TooManyFields))
                } else {
                    (UnionDecoder::Done, UnionAction::Fail(UnionError::UnknownVariant(k)))
                }
            },
            _ => (UnionDecoder::Done, UnionAction::Fail(UnionError::TooManyFields)),
        }
    }
}

/// The action that answers the last of `es`, fed in order to a decoder in state `s`;
/// `None` when there are no events or the decoder refuses one of them.
pub open spec fn run(names: Seq<&str>, s: UnionDecoder, es: Seq<UnionEvent>) -> Option<UnionAction>
    decreases es.len(),
{
    if es.len() == 0 || !s.accepts(es[0]) {
        None
    } else {
        let (s2, a) = s.spec_step(names, es[0]);
        if es.len() == 1 {
            Some(a)
        } else {
            run(names, s2, es.drop_first())
        }
    }
}

/// Whether `e` is the key `k`.
pub open spec fn is_key(e: UnionEvent, k: Seq<char>) -> bool {
    e matches UnionEvent::Key(Some(x)) && x@ == k
}

/// Whether `e` is the tag `t`.
pub open spec fn is_tag(e: UnionEvent, t: Seq<char>) -> bool {
    e matches UnionEvent::Tag(x) && x@ == t
}

/// The events of the envelope `{"type": v, v: payload}`.
pub open spec fn tag_first(names: Seq<&str>, v: int, es: Seq<UnionEvent>) -> bool {
    &&& es.len() == 5
    &&& is_key(es[0], type_key())
    &&& is_tag(es[1], names[v]@)
    &&& is_key(es[2], names[v]@)
    &&& es[3] is Value
    &&& es[4] == UnionEvent::Key(None)
}

/// The events of the envelope `{v: payload, "type": v}`.
pub open spec fn value_first(names: Seq<&str>, v: int, es: Seq<UnionEvent>) -> bool {
    &&& es.len() == 5
    &&& is_key(es[0], names[v]@)
    &&& es[1] is Value
    &&& is_key(es[2], type_key())
    &&& is_tag(es[3], names[v]@)
    &&& es[4] == UnionEvent::Key(None)
}

/// Some position holds the first occurrence of a name that occurs at `i`.
proof fn lemma_first_exists(names: Seq<&str>, k: Seq<char>, i: int)
    requires
        0 <= i < names.len(),
        names[i]@ == k,
    ensures
        exists|c: int| is_first(names, k, c),
    decreases i,
{
    if exists|l: int| 0 <= l < i && names[l]@ == k {
        let l = choose|l: int| 0 <= l < i && names[l]@ == k;
        lemma_first_exists(names, k, l);
    } else {
        assert(is_first(names, k, i));
    }
}

/// What the first variant of a name is.
pub proof fn lemma_find(names: Seq<&str>, k: Seq<char>)
    requires
        names.len() <= usize::MAX,
    ensures
        spec_find(names, k) matches Some(i) ==> i < names.len() && names[i as int]@ == k,
        spec_find(names, k) is None ==> forall|i: int| 0 <= i < names.len() ==> names[i]@ != k,
        distinct_names(names) ==> forall|i: int|
            0 <= i < names.len() && #[trigger] names[i]@ == k ==> spec_find(names, k) == Some(
                i as usize,
            ),
{
    if exists|i: int| is_first(names, k, i) {
        let c = choose|i: int| is_first(names, k, i);
        assert(is_first(names, k, c));
    } else {
        assert forall|i: int| 0 <= i < names.len() implies names[i]@ != k by {
            if names[i]@ == k {
                lemma_first_exists(names, k, i);
            }
        }
    }
}

/// A union of variant `v` tagged first is decoded as `v`: the tag, the key of the same
/// variant, its payload, and the end of the map.
pub proof fn lemma_tag_first_accepted(
    names: Seq<&str>,
    v: usize,
    type_field: String,
    tag: String,
    key: String,
)
    requires
        names.len() <= usize::MAX,
        distinct_names(names),
        v < names.len(),
        type_field@ == type_key(),
        tag@ == names[v as int]@,
        key@ == names[v as int]@,
    ensures
        run(
            names,
            UnionDecoder::Start,
            seq![
                UnionEvent::Key(Some(type_field)),
                UnionEvent::Tag(tag),
                UnionEvent::Key(Some(key)),
                UnionEvent::Value,
                UnionEvent::Key(None),
            ],
        ) == Some(UnionAction::Finish(v)),
{
    lemma_find(names, names[v as int]@);
    reveal_with_fuel(run, 6);
    let es = seq![
        UnionEvent::Key(Some(type_field)),
        UnionEvent::Tag(tag),
        UnionEvent::Key(Some(key)),
        UnionEvent::Value,
        UnionEvent::Key(None),
    ];
    assert(es.drop_first().drop_first().drop_first().drop_first() =~= seq![UnionEvent::Key(None)]);
    assert(es.drop_first().drop_first().drop_first() =~= seq![UnionEvent::Value, UnionEvent::Key(None)]);
}

/// A union of variant `v` whose payload comes before the tag is decoded as `v`, unless
/// the variant is itself named `type`.
pub proof fn lemma_value_first_accepted(
    names: Seq<&str>,
    v: usize,
    key: String,
    type_field: String,
    tag: String,
)
    requires
        names.len() <= usize::MAX,
        distinct_names(names),
        v < names.len(),
        names[v as int]@ != type_key(),
        key@ == names[v as int]@,
        type_field@ == type_key(),
        tag@ == names[v as int]@,
    ensures
        run(
            names,
            UnionDecoder::Start,
            seq![
                UnionEvent::Key(Some(key)),
                UnionEvent::Value,
                UnionEvent::Key(Some(type_field)),
                UnionEvent::Tag(tag),
                UnionEvent::Key(None),
            ],
        ) == Some(UnionAction::Finish(v)),
{
    lemma_find(names, names[v as int]@);
    reveal_with_fuel(run, 6);
    let es = seq![
        UnionEvent::Key(Some(key)),
        UnionEvent::Value,
        UnionEvent::Key(Some(type_field)),
        UnionEvent::Tag(tag),
        UnionEvent::Key(None),
    ];
    assert(es.drop_first().drop_first().drop_first().drop_first() =~= seq![UnionEvent::Key(None)]);
    assert(es.drop_first().drop_first().drop_first() =~= seq![UnionEvent::Tag(tag), UnionEvent::Key(None)]);
}

/// Only a well-formed envelope is accepted: when a map is decoded as variant `v`, it held
/// exactly the tag naming `v` and the payload of `v`, in one order or the other.
pub proof fn lemma_accepted_is_envelope(names: Seq<&str>, es: Seq<UnionEvent>, v: usize)
    requires
        names.len() <= usize::MAX,
        run(names, UnionDecoder::Start, es) == Some(UnionAction::Finish(v)),
    ensures
        v < names.len(),
        tag_first(names, v as int, es) || value_first(names, v as int, es),
{
    let es1 = es.drop_first();
    let es2 = es1.drop_first();
    let es3 = es2.drop_first();
    let es4 = es3.drop_first();
    let es5 = es4.drop_first();
    reveal_with_fuel(run, 6);
    if es.len() > 0 {
        lemma_find(names, match es[0] { UnionEvent::Key(Some(k)) => k@, _ => Seq::empty() });
    }
    if es.len() > 1 {
        assert(es1[0] == es[1]);
        lemma_find(names, match es[1] { UnionEvent::Tag(t) => t@, _ => Seq::empty() });
    }
    if es.len() > 2 {
        assert(es2[0] == es[2]);
        lemma_find(names, match es[2] { UnionEvent::Key(Some(k)) => k@, _ => Seq::empty() });
    }
    if es.len() > 3 {
        assert(es3[0] == es[3]);
        lemma_find(names, match es[3] { UnionEvent::Tag(t) => t@, _ => Seq::empty() });
    }
    if es.len() > 4 {
        assert(es4[0] == es[4]);
    }
    if es.len() > 5 {
        assert(es5[0] == es[5]);
    }
}

/// The actions that answer each of `es`, fed in order to a decoder in state `s`, up to the
/// first event it refuses.
pub open spec fn actions(names: Seq<&str>, s: UnionDecoder, es: Seq<UnionEvent>) -> Seq<UnionAction>
    decreases es.len(),
{
    if es.len() == 0 || !s.accepts(es[0]) {
        Seq::empty()
    } else {
        let (s2, a) = s.spec_step(names, es[0]);
        seq![a] + actions(names, s2, es.drop_first())
    }
}

/// What a union of variant `v` serializes to, read back in either order, decodes the same
/// way: the payload is read once, as the payload of `v`, and the map is accepted as `v`,
/// whether the tag comes before the payload or after it (for a variant not itself named
/// `type`).
pub proof fn lemma_envelope_round_trip(
    names: Seq<&str>,
    v: usize,
    type_field: String,
    tag: String,
    key: String,
)
    requires
        names.len() <= usize::MAX,
        distinct_names(names),
        v < names.len(),
        names[v as int]@ != type_key(),
        type_field@ == type_key(),
        tag@ == names[v as int]@,
        key@ == names[v as int]@,
    ensures
        actions(
            names,
            UnionDecoder::Start,
            seq![
                UnionEvent::Key(Some(type_field)),
                UnionEvent::Tag(tag),
                UnionEvent::Key(Some(key)),
                UnionEvent::Value,
                UnionEvent::Key(None),
            ],
        ) == seq![
            UnionAction::ReadTag,
            UnionAction::ReadKey,
            UnionAction::ReadValue(v),
            UnionAction::ReadKey,
            UnionAction::Finish(v),
        ],
        actions(
            names,
            UnionDecoder::Start,
            seq![
                UnionEvent::Key(Some(key)),
                UnionEvent::Value,
                UnionEvent::Key(Some(type_field)),
                UnionEvent::Tag(tag),
                UnionEvent::Key(None),
            ],
        ) == seq![
            UnionAction::ReadValue(v),
            UnionAction::ReadKey,
            UnionAction::ReadTag,
            UnionAction::ReadKey,
            UnionAction::Finish(v),
        ],
{
    lemma_find(names, names[v as int]@);
    reveal_with_fuel(actions, 6);
    let e1 = seq![
        UnionEvent::Key(Some(type_field)),
        UnionEvent::Tag(tag),
        UnionEvent::Key(Some(key)),
        UnionEvent::Value,
        UnionEvent::Key(None),
    ];
    let e2 = seq![
        UnionEvent::Key(Some(key)),
        UnionEvent::Value,
        UnionEvent::Key(Some(type_field)),
        UnionEvent::Tag(tag),
        UnionEvent::Key(None),
    ];
    assert(e1.drop_first() =~= seq![e1[1], e1[2], e1[3], e1[4]]);
    assert(e1.drop_first().drop_first() =~= seq![e1[2], e1[3], e1[4]]);
    assert(e1.drop_first().drop_first().drop_first() =~= seq![e1[3], e1[4]]);
    assert(e1.drop_first().drop_first().drop_first().drop_first() =~= seq![e1[4]]);
    assert(seq![e1[4]].drop_first() =~= Seq::<UnionEvent>::empty());
    assert(e2.drop_first() =~= seq![e2[1], e2[2], e2[3], e2[4]]);
    assert(e2.drop_first().drop_first() =~= seq![e2[2], e2[3], e2[4]]);
    assert(e2.drop_first().drop_first().drop_first() =~= seq![e2[3], e2[4]]);
    assert(e2.drop_first().drop_first().drop_first().drop_first() =~= seq![e2[4]]);
    let r1 = actions(names, UnionDecoder::Start, e1);
    let r2 = actions(names, UnionDecoder::Start, e2);
    assert(r1 =~= seq![
        UnionAction::ReadTag,
        UnionAction::ReadKey,
        UnionAction::ReadValue(v),
        UnionAction::ReadKey,
        UnionAction::Finish(v),
    ]);
    assert(r2 =~= seq![
        UnionAction::ReadValue(v),
        UnionAction::ReadKey,
        UnionAction::ReadTag,
        UnionAction::ReadKey,
        UnionAction::Finish(v),
    ]);
}

} // verus!
