use vstd::prelude::*;
use crate::cell::Peer;
use crate::error::{err, is_err_of, ErrKind, Error};

verus! {

/// The relays a circuit goes through, first hop first.
pub struct CircuitPlan {
    /// The hops.
    pub hops: Vec<Peer>,
}

/// The state of a circuit: its plan, the local peer and its secret key, and whether its
/// channel to the first hop was started.
pub struct CircuitCore {
    plan: CircuitPlan,
    local_peer: Peer,
    secret_key: Vec<u8>,
    started: bool,
}

impl CircuitCore {
    /// A plan has at least two hops.
    #[verifier::type_invariant]
    spec fn wf(&self) -> bool {
        self.plan.hops@.len() >= 2
    }

    /// The number of hops of the plan.
    pub closed spec fn hop_count(&self) -> nat {
        self.plan.hops@.len()
    }

    /// The hop at `i` in the plan.
    pub closed spec fn hop(&self, i: int) -> Peer {
        self.plan.hops@[i]
    }

    /// The local peer.
    pub closed spec fn spec_local_peer(&self) -> Peer {
        self.local_peer
    }

    /// Whether the channel to the first hop was started.
    pub closed spec fn spec_started(&self) -> bool {
        self.started
    }

    /// The secret key of the local peer.
    pub closed spec fn spec_secret_key(&self) -> Seq<u8> {
        self.secret_key@
    }

    /// A circuit that is not started yet; a plan of fewer than two hops is refused as an
    /// illegal argument.
    pub fn new(plan: CircuitPlan, local_peer: Peer, secret_key: Vec<u8>) -> (r: Result<CircuitCore, Error>)
        ensures
            plan.hops@.len() < 2 <==> r is Err,
            r matches Err(e) ==> is_err_of(e, ErrKind::IllegalArgument, "circuit plan must have at least 2 hops"@),
            r matches Ok(c) ==> {
                &&& c.hop_count() == plan.hops@.len()
                &&& forall|i: int| 0 <= i < plan.hops@.len() ==> c.hop(i) == plan.hops@[i]
                &&& c.spec_local_peer() == local_peer
                &&& c.spec_secret_key() == secret_key@
                &&& !c.spec_started()
            },
    {
        if plan.hops.len() < 2 {
            return Err(err(ErrKind::IllegalArgument, "circuit plan must have at least 2 hops"));
        }
        Ok(CircuitCore { plan, local_peer, secret_key, started: false })
    }

    /// The hop the circuit's channel connects to.
    pub fn first_hop(&self) -> (r: &Peer)
        ensures
            *r == self.hop(0),
    {
        proof {
            use_type_invariant(self);
        }
        &self.plan.hops[0]
    }

    /// The local peer.
    pub fn local_peer(&self) -> (r: &Peer)
        ensures
            *r == self.spec_local_peer(),
    {
        &self.local_peer
    }

    /// The secret key of the local peer.
    pub fn secret_key(&self) -> (r: &[u8])
        ensures
            r@ == self.spec_secret_key(),
    {
        self.secret_key.as_slice()
    }

    /// Records that the channel to the first hop was started.
    pub fn set_started(&mut self)
        ensures
            final(self).spec_started(),
            final(self).hop_count() == old(self).hop_count(),
            forall|i: int| #![auto] final(self).hop(i) == old(self).hop(i),
            final(self).spec_local_peer() == old(self).spec_local_peer(),
            final(self).spec_secret_key() == old(self).spec_secret_key(),
    {
        proof {
            use_type_invariant(&*self);
        }
        self.started = true;
    }

    /// Whether the channel to the first hop was started.
    pub fn is_started(&self) -> (r: bool)
        ensures
            r == self.spec_started(),
    {
        self.started
    }

    /// Encrypted bytes go through the circuit only once it is started (else an illegal
    /// state).
    pub fn check_started(&self) -> (r: Result<(), Error>)
        ensures
            r is Ok <==> self.spec_started(),
            r matches Err(e) ==> is_err_of(e, ErrKind::IllegalState, "circuit not started yet"@),
    {
        if self.started {
            Ok(())
        } else {
            Err(err(ErrKind::IllegalState, "circuit not started yet"))
        }
    }
}

} // verus!
