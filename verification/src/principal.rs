//! Identities of callers and service instances.
//!
//! A principal is modelled as a plain numeric identity: the logic of this
//! library only ever compares identities for equality, stores them, and
//! derives other values from them.

use vstd::prelude::*;

verus! {

/// The identity of a caller or of a service instance.
#[derive(Clone, Copy, PartialEq, Eq, Structural, Debug, Hash, PartialOrd, Ord)]
pub struct PrincipalId {
    pub raw: u64,
}

impl PrincipalId {
    /// The distinguished anonymous identity.
    pub fn anonymous() -> (r: PrincipalId)
        ensures
            r.raw == 0,
    {
        PrincipalId { raw: 0 }
    }

    pub fn new(raw: u64) -> (r: PrincipalId)
        ensures
            r.raw == raw,
    {
        PrincipalId { raw }
    }

    pub open spec fn is_anonymous_spec(self) -> bool {
        self.raw == 0
    }

    pub fn is_anonymous(&self) -> (r: bool)
        ensures
            r == self.is_anonymous_spec(),
    {
        self.raw == 0
    }
}

} // verus!
