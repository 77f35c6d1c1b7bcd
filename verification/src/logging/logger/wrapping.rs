//! Wrapping each log entry with the product it came from.
use crate::api::wrapped_log_v1::WrappedLogV1;
use crate::text::string_of;
use vstd::prelude::*;

verus! {

/// The `type` of a wrapped log entry.
pub open spec fn spec_wrapped_type() -> Seq<char> {
    "wrapped.1"@
}

/// Wraps every entry it sends on with the product's name and version.
pub struct WrappingAppender<S> {
    inner: S,
    product_name: String,
    product_version: String,
}

impl<S> WrappingAppender<S> {
    pub closed spec fn spec_inner(&self) -> S {
        self.inner
    }

    pub closed spec fn spec_product_name(&self) -> Seq<char> {
        self.product_name@
    }

    pub closed spec fn spec_product_version(&self) -> Seq<char> {
        self.product_version@
    }

    /// An appender over `inner` for the product with this name and version.
    pub fn new(inner: S, product_name: &str, product_version: &str) -> (r: Self)
        ensures
            r.spec_inner() == inner,
            r.spec_product_name() == product_name@,
            r.spec_product_version() == product_version@,
    {
        WrappingAppender {
            inner,
            product_name: string_of(product_name),
            product_version: string_of(product_version),
        }
    }

    /// The sink that receives the wrapped entries.
    pub fn inner(&self) -> (r: &S)
        ensures
            *r == self.spec_inner(),
    {
        &self.inner
    }

    /// The sink that receives the wrapped entries.
    pub fn inner_mut(&mut self) -> (r: &mut S)
        ensures
            *r == old(self).spec_inner(),
            final(self).spec_inner() == *final(r),
            final(self).spec_product_name() == old(self).spec_product_name(),
            final(self).spec_product_version() == old(self).spec_product_version(),
    {
        &mut self.inner
    }

    /// The entry that is sent on for `payload`: of type `wrapped.1`, naming the product as
    /// its entity, with no service or stack information.
    pub fn wrap<P>(&self, payload: P) -> (r: WrappedLogV1<P>)
        ensures
            r.spec_type() == spec_wrapped_type(),
            r.spec_payload() == payload,
            r.spec_entity_name() == self.spec_product_name(),
            r.spec_entity_version() == self.spec_product_version(),
            r.spec_service() is None,
            r.spec_service_id() is None,
            r.spec_stack() is None,
            r.spec_stack_id() is None,
    {
        proof {
            reveal_strlit("wrapped.1");
        }
        WrappedLogV1::new(
            string_of("wrapped.1"),
            payload,
            string_of(self.product_name.as_str()),
            string_of(self.product_version.as_str()),
        )
    }
}

} // verus!
