use crate::text::string_of;
use vstd::prelude::*;

verus! {

/// The service and machine that produced an annotation.
#[derive(Debug, Clone, PartialEq, Eq, PartialOrd, Ord, Hash)]
pub struct Endpoint {
    service_name: String,
    ipv4: Option<String>,
    ipv6: Option<String>,
}

/// The first stage of building an [`Endpoint`]: the service name is still to be set.
pub struct EndpointBuilder;

/// The last stage of building an [`Endpoint`]: the addresses may be set.
pub struct EndpointComplete {
    service_name: String,
    ipv4: Option<String>,
    ipv6: Option<String>,
}

/// A copy of an optional string.
pub fn copy_opt_string(s: &Option<String>) -> (r: Option<String>)
    ensures
        r matches Some(x) <==> s is Some,
        r matches Some(x) ==> x@ == s.unwrap()@,
{
    match s {
        Some(x) => Some(string_of(x.as_str())),
        None => None,
    }
}

/// The characters of an optional string.
pub open spec fn opt_view(s: Option<String>) -> Option<Seq<char>> {
    match s {
        Some(x) => Some(x@),
        None => None,
    }
}

/// The characters of an optional borrowed string.
pub open spec fn opt_str_view(s: Option<&str>) -> Option<Seq<char>> {
    match s {
        Some(x) => Some(x@),
        None => None,
    }
}

/// Borrows the string inside an optional string.
pub fn opt_as_str(s: &Option<String>) -> (r: Option<&str>)
    ensures
        opt_str_view(r) == opt_view(*s),
{
    match s {
        Some(x) => Some(x.as_str()),
        None => None,
    }
}

impl EndpointBuilder {
    /// Sets the name of the service.
    pub fn service_name(self, service_name: &str) -> (r: EndpointComplete)
        ensures
            r.spec_service_name() == service_name@,
            r.spec_ipv4() is None,
            r.spec_ipv6() is None,
    {
        EndpointComplete { service_name: string_of(service_name), ipv4: None, ipv6: None }
    }
}

impl EndpointComplete {
    pub closed spec fn spec_service_name(&self) -> Seq<char> {
        self.service_name@
    }

    pub closed spec fn spec_ipv4(&self) -> Option<Seq<char>> {
        opt_view(self.ipv4)
    }

    pub closed spec fn spec_ipv6(&self) -> Option<Seq<char>> {
        opt_view(self.ipv6)
    }

    /// Sets the IPv4 address.
    pub fn ipv4(self, ipv4: Option<String>) -> (r: EndpointComplete)
        ensures
            r.spec_service_name() == self.spec_service_name(),
            r.spec_ipv4() == opt_view(ipv4),
            r.spec_ipv6() == self.spec_ipv6(),
    {
        EndpointComplete { service_name: self.service_name, ipv4, ipv6: self.ipv6 }
    }

    /// Sets the IPv6 address.
    pub fn ipv6(self, ipv6: Option<String>) -> (r: EndpointComplete)
        ensures
            r.spec_service_name() == self.spec_service_name(),
            r.spec_ipv4() == self.spec_ipv4(),
            r.spec_ipv6() == opt_view(ipv6),
    {
        EndpointComplete { service_name: self.service_name, ipv4: self.ipv4, ipv6 }
    }

    /// The endpoint.
    pub fn build(self) -> (r: Endpoint)
        ensures
            r.spec_service_name() == self.spec_service_name(),
            r.spec_ipv4() == self.spec_ipv4(),
            r.spec_ipv6() == self.spec_ipv6(),
    {
        Endpoint { service_name: self.service_name, ipv4: self.ipv4, ipv6: self.ipv6 }
    }
}

impl Endpoint {
    pub closed spec fn spec_service_name(&self) -> Seq<char> {
        self.service_name@
    }

    pub closed spec fn spec_ipv4(&self) -> Option<Seq<char>> {
        opt_view(self.ipv4)
    }

    pub closed spec fn spec_ipv6(&self) -> Option<Seq<char>> {
        opt_view(self.ipv6)
    }

    /// Starts building an endpoint.
    pub fn builder() -> EndpointBuilder {
        EndpointBuilder
    }

    /// Constructs a new instance of the type.
    pub fn new(service_name: &str) -> (r: Endpoint)
        ensures
            r.spec_service_name() == service_name@,
            r.spec_ipv4() is None,
            r.spec_ipv6() is None,
    {
        Self::builder().service_name(service_name).build()
    }

    /// Name of the service that generated the annotation
    pub fn service_name(&self) -> (r: &str)
        ensures
            r@ == self.spec_service_name(),
    {
        self.service_name.as_str()
    }

    /// IPv4 address of the machine that generated this annotation (`xxx.xxx.xxx.xxx`)
    pub fn ipv4(&self) -> (r: Option<&str>)
        ensures
            r matches Some(x) <==> self.spec_ipv4() is Some,
            r matches Some(x) ==> x@ == self.spec_ipv4().unwrap(),
    {
        match &self.ipv4 {
            Some(x) => Some(x.as_str()),
            None => None,
        }
    }

    /// IPv6 address of the machine that generated this annotation (standard hextet form)
    pub fn ipv6(&self) -> (r: Option<&str>)
        ensures
            r matches Some(x) <==> self.spec_ipv6() is Some,
            r matches Some(x) ==> x@ == self.spec_ipv6().unwrap(),
    {
        match &self.ipv6 {
            Some(x) => Some(x.as_str()),
            None => None,
        }
    }

    /// A copy of the endpoint.
    pub fn copy(&self) -> (r: Endpoint)
        ensures
            r.spec_service_name() == self.spec_service_name(),
            r.spec_ipv4() == self.spec_ipv4(),
            r.spec_ipv6() == self.spec_ipv6(),
    {
        Endpoint {
            service_name: string_of(self.service_name.as_str()),
            ipv4: copy_opt_string(&self.ipv4),
            ipv6: copy_opt_string(&self.ipv6),
        }
    }
}

} // verus!
