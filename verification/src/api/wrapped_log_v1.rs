use crate::api::endpoint::{opt_as_str, opt_str_view, opt_view};
use vstd::prelude::*;

verus! {

/// Wraps a log entry with entity information. The payload is the wrapped entry.
#[derive(Debug, Clone, PartialEq, Eq, PartialOrd, Ord, Hash)]
pub struct WrappedLogV1<P> {
    type_: String,
    payload: Box<P>,
    entity_name: String,
    entity_version: String,
    service: Option<String>,
    service_id: Option<String>,
    stack: Option<String>,
    stack_id: Option<String>,
}

impl<P> WrappedLogV1<P> {
    pub closed spec fn spec_type(&self) -> Seq<char> {
        self.type_@
    }

    pub closed spec fn spec_payload(&self) -> P {
        *self.payload
    }

    pub closed spec fn spec_entity_name(&self) -> Seq<char> {
        self.entity_name@
    }

    pub closed spec fn spec_entity_version(&self) -> Seq<char> {
        self.entity_version@
    }

    pub closed spec fn spec_service(&self) -> Option<Seq<char>> {
        opt_view(self.service)
    }

    pub closed spec fn spec_service_id(&self) -> Option<Seq<char>> {
        opt_view(self.service_id)
    }

    pub closed spec fn spec_stack(&self) -> Option<Seq<char>> {
        opt_view(self.stack)
    }

    pub closed spec fn spec_stack_id(&self) -> Option<Seq<char>> {
        opt_view(self.stack_id)
    }

    /// A wrapped entry with no service or stack information.
    pub fn new(type_: String, payload: P, entity_name: String, entity_version: String) -> (r: Self)
        ensures
            r.spec_type() == type_@,
            r.spec_payload() == payload,
            r.spec_entity_name() == entity_name@,
            r.spec_entity_version() == entity_version@,
            r.spec_service() is None,
            r.spec_service_id() is None,
            r.spec_stack() is None,
            r.spec_stack_id() is None,
    {
        WrappedLogV1 {
            type_,
            payload: Box::new(payload),
            entity_name,
            entity_version,
            service: None,
            service_id: None,
            stack: None,
            stack_id: None,
        }
    }

    /// "wrapped.1"
    pub fn type_(&self) -> (r: &str)
        ensures
            r@ == self.spec_type(),
    {
        self.type_.as_str()
    }

    pub fn payload(&self) -> (r: &P)
        ensures
            *r == self.spec_payload(),
    {
        &*self.payload
    }

    /// Artifact part of entity's maven coordinate
    pub fn entity_name(&self) -> (r: &str)
        ensures
            r@ == self.spec_entity_name(),
    {
        self.entity_name.as_str()
    }

    pub fn entity_version(&self) -> (r: &str)
        ensures
            r@ == self.spec_entity_version(),
    {
        self.entity_version.as_str()
    }

    /// Defaults to the wrapped log producer's Skylab service name.
    pub fn service(&self) -> (r: Option<&str>)
        ensures
            opt_str_view(r) == self.spec_service(),
    {
        opt_as_str(&self.service)
    }

    /// Defaults to the wrapped log producer's Skylab service ID.
    pub fn service_id(&self) -> (r: Option<&str>)
        ensures
            opt_str_view(r) == self.spec_service_id(),
    {
        opt_as_str(&self.service_id)
    }

    /// Defaults to the wrapped log producer's Skylab stack name.
    pub fn stack(&self) -> (r: Option<&str>)
        ensures
            opt_str_view(r) == self.spec_stack(),
    {
        opt_as_str(&self.stack)
    }

    /// Defaults to the wrapped log producer's Skylab stack ID.
    pub fn stack_id(&self) -> (r: Option<&str>)
        ensures
            opt_str_view(r) == self.spec_stack_id(),
    {
        opt_as_str(&self.stack_id)
    }
}

} // verus!
