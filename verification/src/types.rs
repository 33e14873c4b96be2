//! Plain data carried through the registry: identities, commitments, and the
//! records stored about them.

use vstd::prelude::*;

verus! {

/// An identity on the ledger: the fixed-width value standing for the account
/// or contract that a call acts as. Two addresses name the same identity
/// exactly when their bytes agree.
#[derive(Clone, Copy, PartialEq, Eq, Debug)]
pub struct Address {
    pub bytes: [u8; 32],
}

impl View for Address {
    type V = Seq<u8>;

    open spec fn view(&self) -> Seq<u8> {
        self.bytes@
    }
}

impl Address {
    pub fn new(bytes: [u8; 32]) -> (r: Self)
        ensures
            r@ == bytes@,
    {
        Address { bytes }
    }
}

/// A fixed-width opaque commitment (for instance the hash of a username),
/// used as an unforgeable claim key. The commitment registry and the
/// resolver table key on commitments independently of each other.
#[derive(Clone, Copy, PartialEq, Eq, Debug)]
pub struct Commitment {
    pub bytes: [u8; 32],
}

impl View for Commitment {
    type V = Seq<u8>;

    open spec fn view(&self) -> Seq<u8> {
        self.bytes@
    }
}

impl Commitment {
    pub fn new(bytes: [u8; 32]) -> (r: Self)
        ensures
            r@ == bytes@,
    {
        Commitment { bytes }
    }
}

/// A resolver table entry: the wallet a commitment currently routes to,
/// together with an optional 64-bit memo.
#[derive(Clone, Copy, PartialEq, Eq, Debug)]
pub struct ResolveEntry {
    pub wallet: Address,
    pub memo: Option<u64>,
}

impl View for ResolveEntry {
    type V = (Seq<u8>, Option<u64>);

    open spec fn view(&self) -> (Seq<u8>, Option<u64>) {
        (self.wallet@, self.memo)
    }
}

/// What the address book stores about a stellar address: its short symbolic
/// label.
#[derive(PartialEq, Eq, Debug)]
pub struct AddressMetadata {
    pub label: String,
}

impl View for AddressMetadata {
    type V = Seq<char>;

    open spec fn view(&self) -> Seq<char> {
        self.label@
    }
}

/// Why a call was refused. `NotFound` is the one error meant to be inspected
/// and handled by a calling system; the others mark calls whose preconditions
/// were not met, which the host aborts wholesale.
#[derive(Clone, Copy, PartialEq, Eq, Debug)]
pub enum Error {
    /// An owner is already stored; `init` runs at most once.
    AlreadyInitialized,
    /// No owner is stored yet, so no owner-gated operation can run.
    NotInitialized,
    /// The caller is not the stored owner.
    NotOwner,
    /// The caller did not prove control of the identity it acts as.
    NotAuthorized,
    /// The commitment already has a registration entry.
    AlreadyRegistered,
    /// The address was never flagged as known, so it cannot become master.
    AddressNotFound,
    /// The address already carries a stellar address entry.
    AddressAlreadyExists,
    /// The resolver table has no entry for the commitment.
    NotFound,
}

/// What a successful mutation announces. The registry hands the event back
/// to its caller; the host's notification channel publishes it.
#[derive(PartialEq, Eq, Debug)]
pub enum Event {
    /// A commitment was bound to its first and only registrant.
    Registered { commitment: Commitment, owner: Address },
    /// The designated master address was set or replaced.
    MasterSet { address: Address },
    /// A stellar address entry was created with its label.
    AddressAdded { address: Address, label: String },
}

/// Byte-for-byte equality of two fixed-width values.
fn bytes32_eq(a: &[u8; 32], b: &[u8; 32]) -> (r: bool)
    ensures
        r == (a@ == b@),
{
    let mut i: usize = 0;
    while i < 32
        invariant
            i <= 32,
            forall|j: int| 0 <= j < i ==> a@[j] == b@[j],
        decreases 32 - i,
    {
        if a[i] != b[i] {
            proof {
                assert(a@[i as int] != b@[i as int]);
            }
            return false;
        }
        i += 1;
    }
    proof {
        assert(a@ =~= b@);
    }
    true
}

/// Whether two addresses name the same identity.
pub fn address_eq(a: &Address, b: &Address) -> (r: bool)
    ensures
        r == (a@ == b@),
{
    bytes32_eq(&a.bytes, &b.bytes)
}

/// Whether two commitments are the same claim key.
pub fn commitment_eq(a: &Commitment, b: &Commitment) -> (r: bool)
    ensures
        r == (a@ == b@),
{
    bytes32_eq(&a.bytes, &b.bytes)
}

} // verus!
