//! The owner gate and the address book. A single owner identity is stored
//! exactly once; every address-book mutation first proves that the call
//! comes from that owner. The book flags addresses as known, designates at
//! most one known address as the current master, and attaches a label to
//! each stellar address at most once.

use vstd::prelude::*;

use crate::kv::{lemma_map_of_absent, lemma_map_of_found, lemma_map_of_push, map_of};
use crate::types::{address_eq, Address, AddressMetadata, Error, Event};

verus! {

/// The owner gate's verdict on a call: it passes only when an owner is
/// stored, the caller is that owner, and the caller proved control of its
/// identity to the host.
pub open spec fn spec_require_owner(
    owner: Option<Seq<u8>>,
    caller: Seq<u8>,
    caller_proven: bool,
) -> Result<(), Error> {
    if owner is None {
        Err(Error::NotInitialized)
    } else if owner != Some(caller) {
        Err(Error::NotOwner)
    } else if !caller_proven {
        Err(Error::NotAuthorized)
    } else {
        Ok(())
    }
}

/// What storing the owner does: it sticks on the first call and is refused,
/// leaving the stored owner as it was, on every later one. The second
/// component tells whether the call succeeded.
pub open spec fn spec_init(owner: Option<Seq<u8>>, candidate: Seq<u8>) -> (
    Option<Seq<u8>>,
    bool,
) {
    if owner is None {
        (Some(candidate), true)
    } else {
        (owner, false)
    }
}

/// What designating `address` as master does, once the owner gate has
/// passed: refused when the address was never flagged as known; otherwise
/// the previous master, if any, is dropped and `address` takes its place.
pub open spec fn spec_set_master(
    known: Set<Seq<u8>>,
    master: Option<Seq<u8>>,
    address: Seq<u8>,
) -> (Option<Seq<u8>>, bool) {
    if known.contains(address) {
        (Some(address), true)
    } else {
        (master, false)
    }
}

/// What adding a stellar address entry does, once the owner gate has
/// passed: refused when the address already carries an entry, whatever the
/// new label; otherwise the label is stored.
pub open spec fn spec_add_stellar(
    stellar: Map<Seq<u8>, Seq<char>>,
    address: Seq<u8>,
    label: Seq<char>,
) -> (Map<Seq<u8>, Seq<char>>, bool) {
    if stellar.contains_key(address) {
        (stellar, false)
    } else {
        (stellar.insert(address, label), true)
    }
}

/// The owner is stored exactly once: the first call sticks, a second call
/// fails, and the owner it leaves behind is still the first one.
pub proof fn lemma_init_is_one_shot(a: Seq<u8>, b: Seq<u8>)
    ensures
        ({
            let first = spec_init(None, a);
            let second = spec_init(first.0, b);
            &&& first.1
            &&& first.0 == Some(a)
            &&& !second.1
            &&& second.0 == Some(a)
        }),
{
}

/// Designating a master needs a known address and replaces the previous
/// master wholesale: after a success the master is the new address and the
/// old one is no longer returned; on an unknown address the call fails and
/// the master stands.
pub proof fn lemma_master_is_single_slot(
    known: Set<Seq<u8>>,
    master: Option<Seq<u8>>,
    a1: Seq<u8>,
    a2: Seq<u8>,
)
    ensures
        ({
            let first = spec_set_master(known, master, a1);
            let second = spec_set_master(known, first.0, a2);
            &&& !known.contains(a1) ==> !first.1 && first.0 == master
            &&& known.contains(a1) ==> first.1 && first.0 == Some(a1)
            &&& (known.contains(a1) && known.contains(a2) && a1 != a2) ==> second.1 && second.0
                == Some(a2) && second.0 != Some(a1)
        }),
{
}

/// A stellar address keeps its first label: a second entry for the same
/// address is refused whatever its label, and the lookup still answers with
/// the label stored first.
pub proof fn lemma_stellar_label_is_first(
    stellar: Map<Seq<u8>, Seq<char>>,
    address: Seq<u8>,
    l1: Seq<char>,
    l2: Seq<char>,
)
    requires
        spec_add_stellar(stellar, address, l1).1,
    ensures
        ({
            let st1 = spec_add_stellar(stellar, address, l1).0;
            &&& st1.contains_key(address) && st1[address] == l1
            &&& !spec_add_stellar(st1, address, l2).1
            &&& spec_add_stellar(st1, address, l2).0 == st1
        }),
{
}

/// The owner gate and the address book: the stored owner, the addresses
/// flagged as known, the designated master, and the labelled stellar
/// address entries, most recent last.
pub struct AddressManager {
    owner: Option<Address>,
    known: Vec<Address>,
    master: Option<Address>,
    stellar: Vec<(Address, AddressMetadata)>,
}

impl AddressManager {
    /// The stored owner identity, absent until initialization.
    pub closed spec fn owner_view(self) -> Option<Seq<u8>> {
        match self.owner {
            Some(a) => Some(a@),
            None => None,
        }
    }

    /// The addresses flagged as known.
    pub closed spec fn known_set(self) -> Set<Seq<u8>> {
        Set::new(
            |k: Seq<u8>|
                exists|i: int| 0 <= i < self.known@.len() && self.known@[i]@ == k,
        )
    }

    /// The currently designated master address, if any.
    pub closed spec fn master_view(self) -> Option<Seq<u8>> {
        match self.master {
            Some(a) => Some(a@),
            None => None,
        }
    }

    /// The stellar address entries, read as a map from address to label.
    pub closed spec fn stellar_map(self) -> Map<Seq<u8>, Seq<char>> {
        map_of(self.stellar@)
    }

    /// The book's standing invariant: a designated master always refers to
    /// an address that was flagged as known when it was set; flags are
    /// never revoked, so it is known still.
    pub closed spec fn wf(self) -> bool {
        self.master_view() matches Some(m) ==> self.known_set().contains(m)
    }

    /// A fresh gate and book: no owner, nothing known, no master, no
    /// entries.
    pub fn new() -> (r: Self)
        ensures
            r.wf(),
            r.owner_view() is None,
            r.known_set() == Set::<Seq<u8>>::empty(),
            r.master_view() is None,
            r.stellar_map() == Map::<Seq<u8>, Seq<char>>::empty(),
    {
        let r = AddressManager {
            owner: None,
            known: Vec::new(),
            master: None,
            stellar: Vec::new(),
        };
        proof {
            assert(r.known_set() =~= Set::<Seq<u8>>::empty());
        }
        r
    }

    /// Store `owner` as the single privileged identity. Succeeds only when
    /// no owner is stored yet; a second call fails and changes nothing.
    pub fn init(&mut self, owner: &Address) -> (r: Result<(), Error>)
        requires
            old(self).wf(),
        ensures
            final(self).wf(),
            ({
                let (owner1, fresh) = spec_init(old(self).owner_view(), owner@);
                &&& final(self).owner_view() == owner1
                &&& r is Ok <==> fresh
                &&& !fresh ==> r == Err::<(), Error>(Error::AlreadyInitialized) && *final(self)
                    == *old(self)
                &&& final(self).known_set() == old(self).known_set()
                &&& final(self).master_view() == old(self).master_view()
                &&& final(self).stellar_map() == old(self).stellar_map()
            }),
    {
        if self.owner.is_some() {
            return Err(Error::AlreadyInitialized);
        }
        self.owner = Some(*owner);
        Ok(())
    }

    /// The owner gate: pass only a call that the stored owner makes and has
    /// proven to the host.
    fn require_owner(&self, caller: &Address, caller_proven: bool) -> (r: Result<(), Error>)
        ensures
            r == spec_require_owner(self.owner_view(), caller@, caller_proven),
    {
        match &self.owner {
            None => Err(Error::NotInitialized),
            Some(stored) => {
                if !address_eq(stored, caller) {
                    Err(Error::NotOwner)
                } else if !caller_proven {
                    Err(Error::NotAuthorized)
                } else {
                    Ok(())
                }
            },
        }
    }

    /// Whether an address carries the known flag.
    fn address_exists(&self, address: &Address) -> (r: bool)
        ensures
            r == self.known_set().contains(address@),
    {
        let mut i: usize = 0;
        while i < self.known.len()
            invariant
                i <= self.known@.len(),
                forall|j: int| 0 <= j < i ==> self.known@[j]@ != address@,
            decreases self.known@.len() - i,
        {
            if address_eq(&self.known[i], address) {
                return true;
            }
            i += 1;
        }
        proof {
            assert(!self.known_set().contains(address@));
        }
        false
    }

    /// Flag `address` as known, an owner-only operation and the
    /// precondition for designating it master. Idempotent: flagging an
    /// address again changes nothing.
    pub fn register_address(&mut self, caller: &Address, caller_proven: bool, address: &Address)
        -> (r: Result<(), Error>)
        requires
            old(self).wf(),
        ensures
            final(self).wf(),
            r == spec_require_owner(old(self).owner_view(), caller@, caller_proven),
            r is Err ==> *final(self) == *old(self),
            r is Ok ==> final(self).known_set() == old(self).known_set().insert(address@),
            final(self).owner_view() == old(self).owner_view(),
            final(self).master_view() == old(self).master_view(),
            final(self).stellar_map() == old(self).stellar_map(),
    {
        match self.require_owner(caller, caller_proven) {
            Err(e) => Err(e),
            Ok(()) => {
                if self.address_exists(address) {
                    proof {
                        assert(old(self).known_set().insert(address@) =~= old(self).known_set());
                    }
                    return Ok(());
                }
                self.known.push(*address);
                proof {
                    let s0 = old(self).known@;
                    let s1 = self.known@;
                    let ks0 = old(self).known_set();
                    let ks1 = self.known_set();
                    assert forall|k: Seq<u8>|
                        ks1.contains(k) implies ks0.contains(k) || k == address@ by {
                        let i = choose|i: int| 0 <= i < s1.len() && s1[i]@ == k;
                        if i < s0.len() {
                            assert(s0[i]@ == k);
                        }
                    };
                    assert forall|k: Seq<u8>|
                        ks0.contains(k) || k == address@ implies ks1.contains(k) by {
                        if ks0.contains(k) {
                            let i = choose|i: int| 0 <= i < s0.len() && s0[i]@ == k;
                            assert(s1[i]@ == k);
                        } else {
                            assert(s1[s0.len() as int]@ == k);
                        }
                    };
                    assert(ks1 =~= ks0.insert(address@));
                }
                Ok(())
            },
        }
    }

    /// Designate `address` as the current master, an owner-only operation.
    /// Fails when the address was never flagged as known. On success the
    /// previous master, if any, is dropped, the new one is stored, and the
    /// change is announced. The drop and the store are one step here; the
    /// host's call atomicity keeps them one step outside too.
    pub fn set_master_stellar_address(
        &mut self,
        caller: &Address,
        caller_proven: bool,
        address: &Address,
    ) -> (r: Result<Event, Error>)
        requires
            old(self).wf(),
        ensures
            final(self).wf(),
            ({
                let gate = spec_require_owner(old(self).owner_view(), caller@, caller_proven);
                &&& gate matches Err(e) ==> r == Err::<Event, Error>(e) && *final(self) == *old(self)
                &&& gate is Ok ==> ({
                    let (master1, fresh) = spec_set_master(
                        old(self).known_set(),
                        old(self).master_view(),
                        address@,
                    );
                    &&& final(self).master_view() == master1
                    &&& fresh ==> r == Ok::<Event, Error>(Event::MasterSet { address: *address })
                    &&& !fresh ==> r == Err::<Event, Error>(Error::AddressNotFound) && *final(self) == *old(self)
                    &&& final(self).owner_view() == old(self).owner_view()
                    &&& final(self).known_set() == old(self).known_set()
                    &&& final(self).stellar_map() == old(self).stellar_map()
                })
            }),
    {
        match self.require_owner(caller, caller_proven) {
            Err(e) => Err(e),
            Ok(()) => {
                if !self.address_exists(address) {
                    return Err(Error::AddressNotFound);
                }
                // Drop the previous master, then store the new one.
                self.master = None;
                self.master = Some(*address);
                Ok(Event::MasterSet { address: *address })
            },
        }
    }

    /// The currently designated master address; absence is a valid state,
    /// not a failure.
    pub fn get_master(&self) -> (r: Option<Address>)
        ensures
            r is Some <==> self.master_view() is Some,
            r matches Some(a) ==> self.master_view() == Some(a@),
    {
        self.master
    }

    /// Store a labelled entry for `address`, an owner-only operation. Fails
    /// when the address already carries an entry, whatever the label; on
    /// success the new entry is announced with its label.
    pub fn add_stellar_address(
        &mut self,
        caller: &Address,
        caller_proven: bool,
        address: &Address,
        label: String,
    ) -> (r: Result<Event, Error>)
        requires
            old(self).wf(),
        ensures
            final(self).wf(),
            ({
                let gate = spec_require_owner(old(self).owner_view(), caller@, caller_proven);
                &&& gate matches Err(e) ==> r == Err::<Event, Error>(e) && *final(self) == *old(self)
                &&& gate is Ok ==> ({
                    let (stellar1, fresh) = spec_add_stellar(
                        old(self).stellar_map(),
                        address@,
                        label@,
                    );
                    &&& final(self).stellar_map() == stellar1
                    &&& fresh ==> r == Ok::<Event, Error>(
                        Event::AddressAdded { address: *address, label },
                    )
                    &&& !fresh ==> r == Err::<Event, Error>(Error::AddressAlreadyExists) && *final(self) == *old(self)
                    &&& final(self).owner_view() == old(self).owner_view()
                    &&& final(self).known_set() == old(self).known_set()
                    &&& final(self).master_view() == old(self).master_view()
                })
            }),
    {
        match self.require_owner(caller, caller_proven) {
            Err(e) => Err(e),
            Ok(()) => {
                if self.stellar_index(address).is_some() {
                    return Err(Error::AddressAlreadyExists);
                }
                let metadata = AddressMetadata { label: label.clone() };
                let ghost stored = metadata;
                self.stellar.push((*address, metadata));
                proof {
                    lemma_map_of_push(old(self).stellar@, *address, stored);
                }
                Ok(Event::AddressAdded { address: *address, label })
            },
        }
    }

    /// The label stored for a stellar address; absence is an answer, not a
    /// failure.
    pub fn get_stellar_address(&self, address: &Address) -> (r: Option<AddressMetadata>)
        ensures
            r is Some <==> self.stellar_map().contains_key(address@),
            r matches Some(metadata) ==> metadata@ == self.stellar_map()[address@],
    {
        match self.stellar_index(address) {
            Some(i) => {
                proof {
                    lemma_map_of_found(self.stellar@, i as int, address@);
                }
                Some(AddressMetadata { label: self.stellar[i].1.label.clone() })
            },
            None => None,
        }
    }

    /// Scan the stellar entries, most recent first, for the address.
    fn stellar_index(&self, address: &Address) -> (r: Option<usize>)
        ensures
            r matches Some(i) ==> i < self.stellar@.len() && self.stellar@[i as int].0@ == address@
                && (forall|j: int|
                i < j < self.stellar@.len() ==> self.stellar@[j].0@ != address@)
                && self.stellar_map().contains_key(address@),
            r is None ==> !self.stellar_map().contains_key(address@),
    {
        let mut i: usize = self.stellar.len();
        while i > 0
            invariant
                i <= self.stellar.len(),
                forall|j: int| i <= j < self.stellar@.len() ==> self.stellar@[j].0@ != address@,
            decreases i,
        {
            i = i - 1;
            if address_eq(&self.stellar[i].0, address) {
                proof {
                    lemma_map_of_found(self.stellar@, i as int, address@);
                }
                return Some(i);
            }
        }
        proof {
            lemma_map_of_absent(self.stellar@, address@);
        }
        None
    }
}

} // verus!
