//! A configured principal, as it is kept between calls.
use vstd::prelude::*;
use candid::Principal;

verus! {

/// candid's Principal, carried through as an opaque value.
#[verifier::external_type_specification]
#[verifier::external_body]
pub struct ExPrincipal(Principal);

/// A principal that may not be configured yet.
pub struct StoredPrincipal {
    principal: Option<Principal>,
}

impl StoredPrincipal {
    pub closed spec fn view(&self) -> Option<Principal> {
        self.principal
    }

    /// Holds `principal`.
    pub fn new(principal: Principal) -> (r: StoredPrincipal)
        ensures
            r.view() == Some(principal),
    {
        StoredPrincipal { principal: Some(principal) }
    }

    /// Holds nothing.
    pub fn unset() -> (r: StoredPrincipal)
        ensures
            r.view() is None,
    {
        StoredPrincipal { principal: None }
    }

    /// The principal held, if any.
    pub fn get_principal(&self) -> (r: Option<Principal>)
        ensures
            r == self.view(),
    {
        self.principal
    }
}

} // verus!
