//! A small on-ledger registry: it binds opaque 32-byte commitments to an
//! owning identity, keeps a separately keyed resolver table from commitments
//! to wallet routing entries, and maintains an owner-curated address book
//! with a single designated master entry.
//!
//! The host that runs the registry supplies call atomicity, persistence and
//! the authorization primitive; this crate holds the registry core itself:
//! the data model, the duplicate-prevention and authorization rules, and the
//! owner-gated address-book state machine, each with a verified contract.

use vstd::prelude::*;

pub mod address_manager;
pub mod kv;
pub mod registration;
pub mod resolver;
pub mod types;

use crate::address_manager::{
    spec_add_stellar, spec_init, spec_require_owner, spec_set_master, AddressManager,
};
use crate::registration::{spec_register, Registration};
use crate::resolver::{spec_register_resolver, spec_resolve, Resolver};
use crate::types::{Address, AddressMetadata, Commitment, Error, Event, ResolveEntry};

verus! {

/// The registry as one store instance: the commitment registry, the
/// resolver table, and the owner gate with its address book, all over one
/// logical state. Each entry point consults the caller's authorization
/// where one is owed, then reads or writes the state, and hands back the
/// event to publish, if the operation announces one.
pub struct Contract {
    registration: Registration,
    resolver: Resolver,
    address_manager: AddressManager,
}

impl Contract {
    /// The commitment-to-owner bindings.
    pub closed spec fn commitments(self) -> Map<Seq<u8>, Seq<u8>> {
        self.registration.commitments()
    }

    /// The resolver table's bindings.
    pub closed spec fn resolutions(self) -> Map<Seq<u8>, (Seq<u8>, Option<u64>)> {
        self.resolver.resolutions()
    }

    /// The stored owner identity, if any.
    pub closed spec fn owner_view(self) -> Option<Seq<u8>> {
        self.address_manager.owner_view()
    }

    /// The addresses flagged as known.
    pub closed spec fn known_set(self) -> Set<Seq<u8>> {
        self.address_manager.known_set()
    }

    /// The designated master address, if any.
    pub closed spec fn master_view(self) -> Option<Seq<u8>> {
        self.address_manager.master_view()
    }

    /// The stellar address entries.
    pub closed spec fn stellar_map(self) -> Map<Seq<u8>, Seq<char>> {
        self.address_manager.stellar_map()
    }

    /// The store's standing invariants.
    pub closed spec fn wf(self) -> bool {
        self.resolver.wf() && self.address_manager.wf()
    }

    /// A fresh store: uninitialized, with every table empty.
    pub fn new() -> (r: Self)
        ensures
            r.wf(),
            r.commitments() == Map::<Seq<u8>, Seq<u8>>::empty(),
            r.resolutions() == Map::<Seq<u8>, (Seq<u8>, Option<u64>)>::empty(),
            r.owner_view() is None,
            r.known_set() == Set::<Seq<u8>>::empty(),
            r.master_view() is None,
            r.stellar_map() == Map::<Seq<u8>, Seq<char>>::empty(),
    {
        Contract {
            registration: Registration::new(),
            resolver: Resolver::new(),
            address_manager: AddressManager::new(),
        }
    }

    /// A friendly no-op: greet `to`.
    pub fn hello(to: String) -> (r: Vec<String>)
        ensures
            r@.len() == 2,
            r@[0]@ == "Hello"@,
            r@[1]@ == to@,
    {
        let mut greeting: Vec<String> = Vec::new();
        greeting.push("Hello".to_string());
        greeting.push(to);
        greeting
    }

    /// Store `owner` as the single privileged identity; see
    /// [`AddressManager::init`].
    pub fn init(&mut self, owner: &Address) -> (r: Result<(), Error>)
        requires
            old(self).wf(),
        ensures
            final(self).wf(),
            ({
                let (owner1, fresh) = spec_init(old(self).owner_view(), owner@);
                &&& final(self).owner_view() == owner1
                &&& r is Ok <==> fresh
                &&& !fresh ==> r == Err::<(), Error>(Error::AlreadyInitialized) && *final(self)
                    == *old(self)
            }),
            final(self).commitments() == old(self).commitments(),
            final(self).resolutions() == old(self).resolutions(),
            final(self).known_set() == old(self).known_set(),
            final(self).master_view() == old(self).master_view(),
            final(self).stellar_map() == old(self).stellar_map(),
    {
        self.address_manager.init(owner)
    }

    /// Flag `address` as known; see [`AddressManager::register_address`].
    pub fn register_address(&mut self, caller: &Address, caller_proven: bool, address: &Address)
        -> (r: Result<(), Error>)
        requires
            old(self).wf(),
        ensures
            final(self).wf(),
            r == spec_require_owner(old(self).owner_view(), caller@, caller_proven),
            r is Err ==> *final(self) == *old(self),
            r is Ok ==> final(self).known_set() == old(self).known_set().insert(address@),
            final(self).owner_view() == old(self).owner_view(),
            final(self).master_view() == old(self).master_view(),
            final(self).stellar_map() == old(self).stellar_map(),
            final(self).commitments() == old(self).commitments(),
            final(self).resolutions() == old(self).resolutions(),
    {
        self.address_manager.register_address(caller, caller_proven, address)
    }

    /// Designate `address` as master; see
    /// [`AddressManager::set_master_stellar_address`].
    pub fn set_master_stellar_address(
        &mut self,
        caller: &Address,
        caller_proven: bool,
        address: &Address,
    ) -> (r: Result<Event, Error>)
        requires
            old(self).wf(),
        ensures
            final(self).wf(),
            ({
                let gate = spec_require_owner(old(self).owner_view(), caller@, caller_proven);
                &&& gate matches Err(e) ==> r == Err::<Event, Error>(e) && *final(self) == *old(self)
                &&& gate is Ok ==> ({
                    let (master1, fresh) = spec_set_master(
                        old(self).known_set(),
                        old(self).master_view(),
                        address@,
                    );
                    &&& final(self).master_view() == master1
                    &&& fresh ==> r == Ok::<Event, Error>(Event::MasterSet { address: *address })
                    &&& !fresh ==> r == Err::<Event, Error>(Error::AddressNotFound) && *final(self) == *old(self)
                })
            }),
            final(self).owner_view() == old(self).owner_view(),
            final(self).known_set() == old(self).known_set(),
            final(self).stellar_map() == old(self).stellar_map(),
            final(self).commitments() == old(self).commitments(),
            final(self).resolutions() == old(self).resolutions(),
    {
        self.address_manager.set_master_stellar_address(caller, caller_proven, address)
    }

    /// The designated master address, if any.
    pub fn get_master(&self) -> (r: Option<Address>)
        ensures
            r is Some <==> self.master_view() is Some,
            r matches Some(a) ==> self.master_view() == Some(a@),
    {
        self.address_manager.get_master()
    }

    /// Store a labelled stellar address entry; see
    /// [`AddressManager::add_stellar_address`].
    pub fn add_stellar_address(
        &mut self,
        caller: &Address,
        caller_proven: bool,
        address: &Address,
        label: String,
    ) -> (r: Result<Event, Error>)
        requires
            old(self).wf(),
        ensures
            final(self).wf(),
            ({
                let gate = spec_require_owner(old(self).owner_view(), caller@, caller_proven);
                &&& gate matches Err(e) ==> r == Err::<Event, Error>(e) && *final(self) == *old(self)
                &&& gate is Ok ==> ({
                    let (stellar1, fresh) = spec_add_stellar(
                        old(self).stellar_map(),
                        address@,
                        label@,
                    );
                    &&& final(self).stellar_map() == stellar1
                    &&& fresh ==> r == Ok::<Event, Error>(
                        Event::AddressAdded { address: *address, label },
                    )
                    &&& !fresh ==> r == Err::<Event, Error>(Error::AddressAlreadyExists) && *final(self) == *old(self)
                })
            }),
            final(self).owner_view() == old(self).owner_view(),
            final(self).known_set() == old(self).known_set(),
            final(self).master_view() == old(self).master_view(),
            final(self).commitments() == old(self).commitments(),
            final(self).resolutions() == old(self).resolutions(),
    {
        self.address_manager.add_stellar_address(caller, caller_proven, address, label)
    }

    /// The label stored for a stellar address, if any.
    pub fn get_stellar_address(&self, address: &Address) -> (r: Option<AddressMetadata>)
        ensures
            r is Some <==> self.stellar_map().contains_key(address@),
            r matches Some(metadata) ==> metadata@ == self.stellar_map()[address@],
    {
        self.address_manager.get_stellar_address(address)
    }

    /// Bind `commitment` to the caller's identity; see
    /// [`Registration::register`].
    pub fn register(&mut self, caller: &Address, caller_proven: bool, commitment: &Commitment)
        -> (r: Result<Event, Error>)
        requires
            old(self).wf(),
        ensures
            final(self).wf(),
            !caller_proven ==> r == Err::<Event, Error>(Error::NotAuthorized) && *final(self)
                == *old(self),
            caller_proven ==> ({
                let (regs1, fresh) = spec_register(old(self).commitments(), commitment@, caller@);
                &&& final(self).commitments() == regs1
                &&& fresh ==> r == Ok::<Event, Error>(
                    Event::Registered { commitment: *commitment, owner: *caller },
                )
                &&& !fresh ==> r == Err::<Event, Error>(Error::AlreadyRegistered) && *final(self)
                    == *old(self)
            }),
            final(self).resolutions() == old(self).resolutions(),
            final(self).owner_view() == old(self).owner_view(),
            final(self).known_set() == old(self).known_set(),
            final(self).master_view() == old(self).master_view(),
            final(self).stellar_map() == old(self).stellar_map(),
    {
        self.registration.register(caller, caller_proven, commitment)
    }

    /// The identity a commitment is bound to, if any.
    pub fn get_commitment_owner(&self, commitment: &Commitment) -> (r: Option<Address>)
        ensures
            r is Some <==> self.commitments().contains_key(commitment@),
            r matches Some(a) ==> a@ == self.commitments()[commitment@],
    {
        self.registration.get_owner(commitment)
    }

    /// Bind `commitment` in the resolver table, replacing any earlier
    /// binding; see [`Resolver::register_resolver`].
    pub fn register_resolver(
        &mut self,
        commitment: &Commitment,
        wallet: &Address,
        memo: Option<u64>,
    )
        requires
            old(self).wf(),
        ensures
            final(self).wf(),
            final(self).resolutions() == spec_register_resolver(
                old(self).resolutions(),
                commitment@,
                wallet@,
                memo,
            ),
            final(self).commitments() == old(self).commitments(),
            final(self).owner_view() == old(self).owner_view(),
            final(self).known_set() == old(self).known_set(),
            final(self).master_view() == old(self).master_view(),
            final(self).stellar_map() == old(self).stellar_map(),
    {
        self.resolver.register_resolver(commitment, wallet, memo)
    }

    /// The pair a commitment routes to, or a typed `NotFound` failure; see
    /// [`Resolver::resolve`].
    pub fn resolve(&self, commitment: &Commitment) -> (r: Result<ResolveEntry, Error>)
        ensures
            r matches Ok(e) ==> spec_resolve(self.resolutions(), commitment@) == Ok::<
                (Seq<u8>, Option<u64>),
                Error,
            >(e@),
            r matches Err(e) ==> spec_resolve(self.resolutions(), commitment@) == Err::<
                (Seq<u8>, Option<u64>),
                Error,
            >(e),
    {
        self.resolver.resolve(commitment)
    }
}

} // verus!
