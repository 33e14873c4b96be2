//! The commitment registry: a one-shot binding of commitment to owning
//! identity. Any identity may claim a free commitment for itself, provided
//! it proves control of itself to the host; a commitment once bound is bound
//! for good, and a second claim of it is refused whoever makes it.

use vstd::prelude::*;

use crate::kv::{lemma_map_of_absent, lemma_map_of_found, lemma_map_of_push, map_of};
use crate::types::{commitment_eq, Address, Commitment, Error, Event};

verus! {

/// What registering `registrant` under `commitment` does to the registry
/// `regs`: nothing when the commitment is already bound, a new binding
/// otherwise. The second component tells whether the claim succeeded.
pub open spec fn spec_register(
    regs: Map<Seq<u8>, Seq<u8>>,
    commitment: Seq<u8>,
    registrant: Seq<u8>,
) -> (Map<Seq<u8>, Seq<u8>>, bool) {
    if regs.contains_key(commitment) {
        (regs, false)
    } else {
        (regs.insert(commitment, registrant), true)
    }
}

/// The identity a commitment is bound to, if any.
pub open spec fn spec_owner_of(regs: Map<Seq<u8>, Seq<u8>>, commitment: Seq<u8>) -> Option<
    Seq<u8>,
> {
    if regs.contains_key(commitment) {
        Some(regs[commitment])
    } else {
        None
    }
}

/// A successful registration binds the commitment to its registrant for
/// good: the lookup then yields exactly that identity, and a later claim of
/// the same commitment, by any identity, is refused and changes nothing.
pub proof fn lemma_registration_is_permanent(
    regs: Map<Seq<u8>, Seq<u8>>,
    c: Seq<u8>,
    a: Seq<u8>,
    b: Seq<u8>,
)
    requires
        spec_register(regs, c, a).1,
    ensures
        ({
            let regs1 = spec_register(regs, c, a).0;
            &&& spec_owner_of(regs1, c) == Some(a)
            &&& !spec_register(regs1, c, b).1
            &&& spec_register(regs1, c, b).0 == regs1
            &&& spec_owner_of(spec_register(regs1, c, b).0, c) == Some(a)
        }),
{
}

/// The commitment registry itself: the commitment-to-identity bindings made
/// so far, most recent last.
pub struct Registration {
    entries: Vec<(Commitment, Address)>,
}

impl Registration {
    /// The bindings the registry holds, read as a map from commitment to
    /// owner identity.
    pub closed spec fn commitments(self) -> Map<Seq<u8>, Seq<u8>> {
        map_of(self.entries@)
    }

    /// An empty registry: no commitment is bound.
    pub fn new() -> (r: Self)
        ensures
            r.commitments() == Map::<Seq<u8>, Seq<u8>>::empty(),
    {
        Registration { entries: Vec::new() }
    }

    /// Bind `commitment` to the caller's own identity. The caller must have
    /// proven control of that identity to the host; `caller_proven` carries
    /// the host's verdict. Refused when the commitment is already bound.
    /// On success the new binding is announced.
    pub fn register(&mut self, caller: &Address, caller_proven: bool, commitment: &Commitment)
        -> (r: Result<Event, Error>)
        ensures
            !caller_proven ==> r == Err::<Event, Error>(Error::NotAuthorized) && *final(self)
                == *old(self),
            caller_proven ==> ({
                let (regs1, fresh) = spec_register(old(self).commitments(), commitment@, caller@);
                &&& final(self).commitments() == regs1
                &&& fresh ==> r == Ok::<Event, Error>(
                    Event::Registered { commitment: *commitment, owner: *caller },
                )
                &&& !fresh ==> r == Err::<Event, Error>(Error::AlreadyRegistered) && *final(self)
                    == *old(self)
            }),
    {
        if !caller_proven {
            return Err(Error::NotAuthorized);
        }
        if self.lookup(commitment).is_some() {
            return Err(Error::AlreadyRegistered);
        }
        self.entries.push((*commitment, *caller));
        proof {
            lemma_map_of_push(old(self).entries@, *commitment, *caller);
        }
        Ok(Event::Registered { commitment: *commitment, owner: *caller })
    }

    /// The identity a commitment is bound to; absence is an answer, not a
    /// failure.
    pub fn get_owner(&self, commitment: &Commitment) -> (r: Option<Address>)
        ensures
            r is Some <==> self.commitments().contains_key(commitment@),
            r matches Some(a) ==> a@ == self.commitments()[commitment@],
    {
        self.lookup(commitment)
    }

    /// Scan the bindings, most recent first, for the commitment.
    fn lookup(&self, commitment: &Commitment) -> (r: Option<Address>)
        ensures
            r is Some <==> self.commitments().contains_key(commitment@),
            r matches Some(a) ==> a@ == self.commitments()[commitment@],
    {
        let mut i: usize = self.entries.len();
        while i > 0
            invariant
                i <= self.entries.len(),
                forall|j: int|
                    i <= j < self.entries@.len() ==> self.entries@[j].0@ != commitment@,
            decreases i,
        {
            i = i - 1;
            if commitment_eq(&self.entries[i].0, commitment) {
                proof {
                    lemma_map_of_found(self.entries@, i as int, commitment@);
                }
                return Some(self.entries[i].1);
            }
        }
        proof {
            lemma_map_of_absent(self.entries@, commitment@);
        }
        None
    }
}

} // verus!
