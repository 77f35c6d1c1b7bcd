use crate::api::plain::parse_enum_error;
use crate::text::str_eq;
use conjure_object::plain::ParseEnumError;
use vstd::prelude::*;

verus! {

/// Whether an audited event was produced by a server or by a client.
#[derive(Debug, Clone, PartialEq, Eq, Structural, PartialOrd, Ord, Hash)]
pub enum AuditProducer {
    Server,
    Client,
}

impl AuditProducer {
    /// The plain text form of the variant.
    pub open spec fn spec_text(self) -> Seq<char> {
        match self {
            AuditProducer::Server => "SERVER"@,
            AuditProducer::Client => "CLIENT"@,
        }
    }

    /// Returns the string representation of the enum.
    pub fn as_str(&self) -> (r: &str)
        ensures
            r@ == self.spec_text(),
    {
        match self {
            AuditProducer::Server => "SERVER",
            AuditProducer::Client => "CLIENT",
        }
    }

    /// Parses the plain text form of a variant; any other text is an error.
    pub fn from_plain_text(v: &str) -> (r: Result<AuditProducer, ParseEnumError>)
        ensures
            r is Ok <==> exists|p: AuditProducer| p.spec_text() == v@,
            r matches Ok(p) ==> p.spec_text() == v@,
    {
        proof {
            reveal_strlit("SERVER");
            reveal_strlit("CLIENT");
        }
        if str_eq(v, "SERVER") {
            assert(AuditProducer::Server.spec_text() == v@);
            Ok(AuditProducer::Server)
        } else if str_eq(v, "CLIENT") {
            assert(AuditProducer::Client.spec_text() == v@);
            Ok(AuditProducer::Client)
        } else {
            proof {
                assert forall|p: AuditProducer| p.spec_text() != v@ by {
                    match p {
                        AuditProducer::Server => {},
                        AuditProducer::Client => {},
                    }
                }
            }
            Err(parse_enum_error())
        }
    }

    /// The text form of a variant reads back as that variant.
    pub proof fn lemma_text_round_trip(p: AuditProducer, q: AuditProducer)
        ensures
            p.spec_text() == q.spec_text() <==> p == q,
    {
        reveal_strlit("SERVER");
        reveal_strlit("CLIENT");
        if p != q {
            assert(p.spec_text()[0] != q.spec_text()[0]);
        }
    }
}

impl std::str::FromStr for AuditProducer {
    type Err = ParseEnumError;

    fn from_str(v: &str) -> (r: Result<AuditProducer, ParseEnumError>)
        ensures
            r is Ok <==> exists|p: AuditProducer| p.spec_text() == v@,
            r matches Ok(p) ==> p.spec_text() == v@,
    {
        AuditProducer::from_plain_text(v)
    }
}

} // verus!
