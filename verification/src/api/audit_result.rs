use crate::api::plain::parse_enum_error;
use crate::text::str_eq;
use conjure_object::plain::ParseEnumError;
use vstd::prelude::*;

verus! {

/// The outcome of an audited event.
#[derive(Debug, Clone, PartialEq, Eq, Structural, PartialOrd, Ord, Hash)]
pub enum AuditResult {
    Success,
    Error,
    Unauthorized,
    /// A result that has not yet been finalized. It may be missing fields from resultParams, and it is expected that a non-partial log should occur in the future with the same event ID.
    Partial,
}

impl AuditResult {
    /// The plain text form of the variant.
    pub open spec fn spec_text(self) -> Seq<char> {
        match self {
            AuditResult::Success => "SUCCESS"@,
            AuditResult::Error => "ERROR"@,
            AuditResult::Unauthorized => "UNAUTHORIZED"@,
            AuditResult::Partial => "PARTIAL"@,
        }
    }

    /// Returns the string representation of the enum.
    pub fn as_str(&self) -> (r: &str)
        ensures
            r@ == self.spec_text(),
    {
        match self {
            AuditResult::Success => "SUCCESS",
            AuditResult::Error => "ERROR",
            AuditResult::Unauthorized => "UNAUTHORIZED",
            AuditResult::Partial => "PARTIAL",
        }
    }

    /// Parses the plain text form of a variant; any other text is an error.
    pub fn from_plain_text(v: &str) -> (r: Result<AuditResult, ParseEnumError>)
        ensures
            r is Ok <==> exists|p: AuditResult| p.spec_text() == v@,
            r matches Ok(p) ==> p.spec_text() == v@,
    {
        proof {
            reveal_strlit("SUCCESS");
            reveal_strlit("ERROR");
            reveal_strlit("UNAUTHORIZED");
            reveal_strlit("PARTIAL");
        }
        if str_eq(v, "SUCCESS") {
            assert(AuditResult::Success.spec_text() == v@);
            Ok(AuditResult::Success)
        } else if str_eq(v, "ERROR") {
            assert(AuditResult::Error.spec_text() == v@);
            Ok(AuditResult::Error)
        } else if str_eq(v, "UNAUTHORIZED") {
            assert(AuditResult::Unauthorized.spec_text() == v@);
            Ok(AuditResult::Unauthorized)
        } else if str_eq(v, "PARTIAL") {
            assert(AuditResult::Partial.spec_text() == v@);
            Ok(AuditResult::Partial)
        } else {
            proof {
                assert forall|p: AuditResult| p.spec_text() != v@ by {
                    match p {
                        AuditResult::Success => {},
                        AuditResult::Error => {},
                        AuditResult::Unauthorized => {},
                        AuditResult::Partial => {},
                    }
                }
            }
            Err(parse_enum_error())
        }
    }

    /// The text form of a variant reads back as that variant.
    pub proof fn lemma_text_round_trip(p: AuditResult, q: AuditResult)
        ensures
            p.spec_text() == q.spec_text() <==> p == q,
    {
        reveal_strlit("SUCCESS");
        reveal_strlit("ERROR");
        reveal_strlit("UNAUTHORIZED");
        reveal_strlit("PARTIAL");
        if p != q {
            assert(p.spec_text()[0] != q.spec_text()[0]);
        }
    }
}

impl std::str::FromStr for AuditResult {
    type Err = ParseEnumError;

    fn from_str(v: &str) -> (r: Result<AuditResult, ParseEnumError>)
        ensures
            r is Ok <==> exists|p: AuditResult| p.spec_text() == v@,
            r matches Ok(p) ==> p.spec_text() == v@,
    {
        AuditResult::from_plain_text(v)
    }
}

} // verus!
