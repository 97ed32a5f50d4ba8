//! Request authorization data: who is calling and what they may do. The
//! web-framework request hook that produces these lives with the
//! application.

use vstd::prelude::*;

verus! {

/// The authenticated caller of a request together with its permissions.
pub struct Authorization<Principle, Permissions> {
    principle: Principle,
    permissions: Permissions,
}

impl<P, Q> Authorization<P, Q> {
    /// The caller.
    pub closed spec fn spec_principle(&self) -> P {
        self.principle
    }

    /// What the caller may do.
    pub closed spec fn spec_permissions(&self) -> Q {
        self.permissions
    }

    pub fn new(principle: P, permissions: Q) -> (r: Self)
        ensures
            r.spec_principle() == principle,
            r.spec_permissions() == permissions,
    {
        Authorization { principle, permissions }
    }

    pub fn principle(&self) -> (r: &P)
        ensures
            *r == self.spec_principle(),
    {
        &self.principle
    }

    pub fn permissions(&self) -> (r: &Q)
        ensures
            *r == self.spec_permissions(),
    {
        &self.permissions
    }
}

/// An authenticated caller, identified by some id.
pub trait Principle {
    type Id;

    fn id(&self) -> Self::Id;
}

/// What a caller is allowed to do.
pub trait Permissions {
    fn has_permission(&self, permission: &str) -> bool;

    fn has_all_permission(&self, permission: &[&str]) -> bool;
}

/// An authorization failure.
#[derive(Debug)]
pub struct AuthError;

} // verus!
