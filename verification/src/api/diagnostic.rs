use crate::api::thread_dump_v1::ThreadDumpV1;
use crate::api::union::{
    actions, distinct_names, lemma_envelope_round_trip, type_key, UnionAction, UnionDecoder, UnionEvent,
};
use conjure_object::Any;
use vstd::prelude::*;

verus! {

/// A diagnostic of a named type whose value has no schema.
#[derive(Debug, PartialEq, Eq, PartialOrd, Ord, Hash)]
pub struct GenericDiagnostic {
    diagnostic_type: String,
    value: Any,
}

impl GenericDiagnostic {
    pub closed spec fn spec_diagnostic_type(&self) -> Seq<char> {
        self.diagnostic_type@
    }

    pub closed spec fn spec_value(&self) -> Any {
        self.value
    }

    /// Constructs a new instance of the type.
    pub fn new(diagnostic_type: String, value: Any) -> (r: GenericDiagnostic)
        ensures
            r.spec_diagnostic_type() == diagnostic_type@,
            r.spec_value() == value,
    {
        GenericDiagnostic { diagnostic_type, value }
    }

    /// The type of the diagnostic.
    pub fn diagnostic_type(&self) -> (r: &str)
        ensures
            r@ == self.spec_diagnostic_type(),
    {
        self.diagnostic_type.as_str()
    }

    /// The diagnostic itself.
    pub fn value(&self) -> (r: &Any)
        ensures
            *r == self.spec_value(),
    {
        &self.value
    }
}

/// A diagnostic: one of its variants.
#[derive(Debug, PartialEq, Eq, PartialOrd, Ord, Hash)]
pub enum Diagnostic {
    Generic(GenericDiagnostic),
    ThreadDump(ThreadDumpV1),
}

/// The variants of [`Diagnostic`], by which its envelope is tagged.
#[derive(Debug, Clone, Copy, PartialEq, Eq, Structural)]
pub enum DiagnosticVariant {
    Generic,
    ThreadDump,
}

/// The names of the variants of [`Diagnostic`], by position.
pub open spec fn diagnostic_names() -> Seq<Seq<char>> {
    seq!["generic"@, "threadDump"@]
}

/// The names of the variants of [`Diagnostic`], in the order of [`DiagnosticVariant::from_index`].
pub fn diagnostic_variant_names() -> (r: Vec<&'static str>)
    ensures
        r@.len() == 2,
        forall|i: int| 0 <= i < 2 ==> #[trigger] r@[i]@ == diagnostic_names()[i],
        distinct_names(r@),
{
    proof {
        reveal_strlit("generic");
        reveal_strlit("threadDump");
    }
    let r = vec!["generic", "threadDump"];
    assert(r@[0]@ != r@[1]@) by {
        assert(r@[0]@[0] != r@[1]@[0]);
    }
    r
}

impl DiagnosticVariant {
    /// The position of the variant among the names.
    pub open spec fn index(self) -> int {
        match self {
            DiagnosticVariant::Generic => 0,
            DiagnosticVariant::ThreadDump => 1,
        }
    }

    /// The variant at a position among the names.
    pub fn from_index(i: usize) -> (r: DiagnosticVariant)
        requires
            i < 2,
        ensures
            r.index() == i,
    {
        if i == 0 {
            DiagnosticVariant::Generic
        } else {
            DiagnosticVariant::ThreadDump
        }
    }

    /// The tag of the variant.
    pub fn as_str(&self) -> (r: &'static str)
        ensures
            r@ == diagnostic_names()[self.index()],
    {
        match self {
            DiagnosticVariant::Generic => "generic",
            DiagnosticVariant::ThreadDump => "threadDump",
        }
    }
}

impl Diagnostic {
    /// The variant of the diagnostic.
    pub open spec fn spec_variant(&self) -> DiagnosticVariant {
        match self {
            Diagnostic::Generic(_) => DiagnosticVariant::Generic,
            Diagnostic::ThreadDump(_) => DiagnosticVariant::ThreadDump,
        }
    }

    /// The variant of the diagnostic.
    pub fn variant(&self) -> (r: DiagnosticVariant)
        ensures
            r == self.spec_variant(),
    {
        match self {
            Diagnostic::Generic(_) => DiagnosticVariant::Generic,
            Diagnostic::ThreadDump(_) => DiagnosticVariant::ThreadDump,
        }
    }
}

/// A diagnostic serializes to its variant's tag under `type` and its payload under that
/// tag; read back in either order, the map decodes as the same variant, its payload read
/// once as that variant's payload.
pub proof fn lemma_diagnostic_round_trip(
    d: Diagnostic,
    names: Seq<&str>,
    type_field: String,
    tag: String,
    key: String,
)
    requires
        names.len() == 2,
        forall|i: int| 0 <= i < 2 ==> #[trigger] names[i]@ == diagnostic_names()[i],
        type_field@ == type_key(),
        tag@ == diagnostic_names()[d.spec_variant().index()],
        key@ == tag@,
    ensures
        ({
            let v = d.spec_variant().index() as usize;
            &&& actions(
                names,
                UnionDecoder::Start,
                seq![
                    UnionEvent::Key(Some(type_field)),
                    UnionEvent::Tag(tag),
                    UnionEvent::Key(Some(key)),
                    UnionEvent::Value,
                    UnionEvent::Key(None),
                ],
            ) == seq![
                UnionAction::ReadTag,
                UnionAction::ReadKey,
                UnionAction::ReadValue(v),
                UnionAction::ReadKey,
                UnionAction::Finish(v),
            ]
            &&& actions(
                names,
                UnionDecoder::Start,
                seq![
                    UnionEvent::Key(Some(key)),
                    UnionEvent::Value,
                    UnionEvent::Key(Some(type_field)),
                    UnionEvent::Tag(tag),
                    UnionEvent::Key(None),
                ],
            ) == seq![
                UnionAction::ReadValue(v),
                UnionAction::ReadKey,
                UnionAction::ReadTag,
                UnionAction::ReadKey,
                UnionAction::Finish(v),
            ]
        }),
{
    reveal_strlit("generic");
    reveal_strlit("threadDump");
    let v = d.spec_variant().index();
    assert(names[0]@ == diagnostic_names()[0]);
    assert(names[1]@ == diagnostic_names()[1]);
    assert(names[0]@ != names[1]@) by {
        assert(names[0]@[0] != names[1]@[0]);
    }
    assert(names[v]@ != type_key()) by {
        assert(names[v]@.len() != type_key().len());
    }
    lemma_envelope_round_trip(names, v as usize, type_field, tag, key);
}

} // verus!
