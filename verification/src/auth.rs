//! Principals and the authorization capability consumed by every mutating
//! entry point.

use vstd::prelude::*;

verus! {

/// An identity capable of authorizing actions: an invoice owner, the pool
/// admin, a depositor or a borrower. The substrate resolves real account
/// addresses to principals; the ledgers only ever compare them for identity.
#[derive(Clone, Copy, PartialEq, Eq, Structural, Debug)]
pub struct Principal(pub u64);

/// The authorization capability for one call: the principals that have
/// approved the current transaction, as established by the substrate's
/// signature checks before the entry point runs. Entry points consult the
/// gate before mutating any state and abort when the required principal has
/// not approved.
pub struct AuthorizationGate {
    approved: Vec<Principal>,
}

impl AuthorizationGate {
    /// Whether `p` has approved the current call.
    pub closed spec fn spec_approves(self, p: Principal) -> bool {
        self.approved@.contains(p)
    }

    /// A gate for a call that no principal has approved.
    pub fn deny_all() -> (g: AuthorizationGate)
        ensures
            forall|p: Principal| !g.spec_approves(p),
    {
        AuthorizationGate { approved: Vec::new() }
    }

    /// A gate for a call approved by exactly the given principals.
    pub fn approving(approved: Vec<Principal>) -> (g: AuthorizationGate)
        ensures
            forall|p: Principal| g.spec_approves(p) <==> approved@.contains(p),
    {
        AuthorizationGate { approved }
    }

    /// Whether `p` has approved the current call.
    pub fn approves(&self, p: Principal) -> (b: bool)
        ensures
            b == self.spec_approves(p),
    {
        let mut i: usize = 0;
        while i < self.approved.len()
            invariant
                i <= self.approved.len(),
                forall|j: int| 0 <= j < i ==> self.approved@[j] != p,
            decreases self.approved.len() - i,
        {
            if self.approved[i] == p {
                return true;
            }
            i = i + 1;
        }
        false
    }
}

} // verus!
