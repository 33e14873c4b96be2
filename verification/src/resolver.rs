//! The resolver table: a mutable routing table from commitment to a wallet
//! address and an optional memo. Unlike the commitment registry it carries
//! no authorization and no duplicate check: anyone may bind a commitment,
//! and a later binding silently replaces an earlier one. Looking a
//! commitment up fails with a typed error when no entry exists.

use vstd::prelude::*;

use crate::kv::{
    lemma_map_of_absent, lemma_map_of_found, lemma_map_of_push, lemma_map_of_update, map_of,
    unique_keys,
};
use crate::types::{commitment_eq, Address, Commitment, Error, ResolveEntry};

verus! {

/// What binding `commitment` to `(wallet, memo)` does to the table: the
/// commitment now routes there, whatever it did before.
pub open spec fn spec_register_resolver(
    table: Map<Seq<u8>, (Seq<u8>, Option<u64>)>,
    commitment: Seq<u8>,
    wallet: Seq<u8>,
    memo: Option<u64>,
) -> Map<Seq<u8>, (Seq<u8>, Option<u64>)> {
    table.insert(commitment, (wallet, memo))
}

/// What looking `commitment` up returns: the stored pair, or `NotFound`
/// when no binding exists.
pub open spec fn spec_resolve(
    table: Map<Seq<u8>, (Seq<u8>, Option<u64>)>,
    commitment: Seq<u8>,
) -> Result<(Seq<u8>, Option<u64>), Error> {
    if table.contains_key(commitment) {
        Ok(table[commitment])
    } else {
        Err(Error::NotFound)
    }
}

/// The last write wins: after two bindings of the same commitment, it
/// resolves to the later pair, and the earlier pair is gone.
pub proof fn lemma_resolver_last_write_wins(
    table: Map<Seq<u8>, (Seq<u8>, Option<u64>)>,
    c: Seq<u8>,
    w1: Seq<u8>,
    memo1: Option<u64>,
    w2: Seq<u8>,
    memo2: Option<u64>,
)
    ensures
        ({
            let t1 = spec_register_resolver(table, c, w1, memo1);
            let t2 = spec_register_resolver(t1, c, w2, memo2);
            &&& spec_resolve(t1, c) == Ok::<(Seq<u8>, Option<u64>), Error>((w1, memo1))
            &&& spec_resolve(t2, c) == Ok::<(Seq<u8>, Option<u64>), Error>((w2, memo2))
        }),
{
}

/// Resolution fails, and fails with `NotFound`, exactly for the commitments
/// that hold no entry; and an entry for a commitment appears exactly when a
/// binding names that commitment, never to disappear again.
pub proof fn lemma_resolve_not_found_iff_never_bound(
    table: Map<Seq<u8>, (Seq<u8>, Option<u64>)>,
    c: Seq<u8>,
    c2: Seq<u8>,
    wallet: Seq<u8>,
    memo: Option<u64>,
)
    ensures
        spec_resolve(table, c) is Err <==> !table.contains_key(c),
        spec_resolve(table, c) is Err ==> spec_resolve(table, c) == Err::<
            (Seq<u8>, Option<u64>),
            Error,
        >(Error::NotFound),
        spec_register_resolver(table, c2, wallet, memo).contains_key(c) <==> (
        table.contains_key(c) || c2 == c),
{
}

/// The resolver table itself: one entry per bound commitment.
pub struct Resolver {
    entries: Vec<(Commitment, ResolveEntry)>,
}

impl Resolver {
    /// The bindings the table holds, read as a map from commitment to the
    /// pair of wallet and memo.
    pub closed spec fn resolutions(self) -> Map<Seq<u8>, (Seq<u8>, Option<u64>)> {
        map_of(self.entries@)
    }

    /// Each bound commitment is held by exactly one entry.
    pub closed spec fn wf(self) -> bool {
        unique_keys(self.entries@)
    }

    /// An empty table: nothing resolves.
    pub fn new() -> (r: Self)
        ensures
            r.wf(),
            r.resolutions() == Map::<Seq<u8>, (Seq<u8>, Option<u64>)>::empty(),
    {
        Resolver { entries: Vec::new() }
    }

    /// Bind `commitment` to `(wallet, memo)`, replacing whatever it was
    /// bound to before. No authorization and no duplicate check: the table
    /// is a deliberately permissive routing table, and the last write wins.
    pub fn register_resolver(
        &mut self,
        commitment: &Commitment,
        wallet: &Address,
        memo: Option<u64>,
    )
        requires
            old(self).wf(),
        ensures
            final(self).wf(),
            final(self).resolutions() == spec_register_resolver(
                old(self).resolutions(),
                commitment@,
                wallet@,
                memo,
            ),
    {
        let entry = ResolveEntry { wallet: *wallet, memo };
        let found = self.find(commitment);
        match found {
            Some(i) => {
                self.entries.set(i, (*commitment, entry));
                proof {
                    lemma_map_of_update(old(self).entries@, i as int, *commitment, entry);
                    let s0 = old(self).entries@;
                    let s1 = self.entries@;
                    // The replaced entry keeps its key, so no duplicate appears.
                    assert forall|a: int, b: int|
                        0 <= a < b < s1.len() implies s1[a].0@ != s1[b].0@ by {
                        assert(s0[a].0@ != s0[b].0@);
                        assert(a != i as int ==> s1[a] == s0[a]);
                        assert(b != i as int ==> s1[b] == s0[b]);
                    };
                }
            },
            None => {
                self.entries.push((*commitment, entry));
                proof {
                    lemma_map_of_push(old(self).entries@, *commitment, entry);
                    let s0 = old(self).entries@;
                    let s1 = self.entries@;
                    // The commitment was bound nowhere, so appending it keeps
                    // the keys distinct.
                    assert forall|a: int, b: int|
                        0 <= a < b < s1.len() implies s1[a].0@ != s1[b].0@ by {
                        assert(s1[a] == s0[a]);
                        assert(b < s0.len() ==> s1[b] == s0[b]);
                    };
                }
            },
        }
    }

    /// The pair a commitment routes to; a commitment never bound is a typed
    /// `NotFound` failure, for the caller to inspect.
    pub fn resolve(&self, commitment: &Commitment) -> (r: Result<ResolveEntry, Error>)
        ensures
            r matches Ok(e) ==> spec_resolve(self.resolutions(), commitment@) == Ok::<
                (Seq<u8>, Option<u64>),
                Error,
            >(e@),
            r matches Err(e) ==> spec_resolve(self.resolutions(), commitment@) == Err::<
                (Seq<u8>, Option<u64>),
                Error,
            >(e),
    {
        match self.find(commitment) {
            Some(i) => {
                proof {
                    lemma_map_of_found(self.entries@, i as int, commitment@);
                }
                Ok(self.entries[i].1)
            },
            None => Err(Error::NotFound),
        }
    }

    /// Scan the table, most recent entry first, for the commitment.
    fn find(&self, commitment: &Commitment) -> (r: Option<usize>)
        ensures
            r matches Some(i) ==> i < self.entries@.len() && self.entries@[i as int].0@
                == commitment@ && (forall|j: int|
                i < j < self.entries@.len() ==> self.entries@[j].0@ != commitment@),
            r is None ==> !self.resolutions().contains_key(commitment@) && (forall|j: int|
                0 <= j < self.entries@.len() ==> self.entries@[j].0@ != commitment@),
    {
        let mut i: usize = self.entries.len();
        while i > 0
            invariant
                i <= self.entries.len(),
                forall|j: int|
                    i <= j < self.entries@.len() ==> self.entries@[j].0@ != commitment@,
            decreases i,
        {
            i = i - 1;
            if commitment_eq(&self.entries[i].0, commitment) {
                return Some(i);
            }
        }
        proof {
            lemma_map_of_absent(self.entries@, commitment@);
        }
        None
    }
}

} // verus!
