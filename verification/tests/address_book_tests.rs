//! The owner gate and the address book: one-shot initialization, owner-only
//! mutations, known-address flags, the single master slot, and one label
//! per stellar address.

use alien_gateway::types::{Address, Commitment, Error, Event};
use alien_gateway::Contract;

fn initialized_contract(owner: Address) -> Contract {
    let mut contract = Contract::new();
    contract.init(&owner).unwrap();
    contract
}

#[test]
fn init_succeeds_exactly_once() {
    let owner = Address::new([1u8; 32]);
    let other = Address::new([2u8; 32]);
    let mut contract = Contract::new();

    assert!(contract.init(&owner).is_ok());
    assert_eq!(contract.init(&other), Err(Error::AlreadyInitialized));

    // The owner is unchanged: the first owner may still mutate the book,
    // the second still may not.
    let a1 = Address::new([31u8; 32]);
    assert!(contract.register_address(&owner, true, &a1).is_ok());
    assert_eq!(contract.register_address(&other, true, &a1), Err(Error::NotOwner));
}

#[test]
fn gated_operations_fail_before_init() {
    let caller = Address::new([1u8; 32]);
    let a1 = Address::new([31u8; 32]);
    let mut contract = Contract::new();

    assert_eq!(contract.register_address(&caller, true, &a1), Err(Error::NotInitialized));
    assert_eq!(
        contract.set_master_stellar_address(&caller, true, &a1),
        Err(Error::NotInitialized)
    );
    assert_eq!(
        contract.add_stellar_address(&caller, true, &a1, "ops".to_string()),
        Err(Error::NotInitialized)
    );
}

#[test]
fn gate_rejects_unproven_owner() {
    let owner = Address::new([1u8; 32]);
    let a1 = Address::new([31u8; 32]);
    let mut contract = initialized_contract(owner);

    assert_eq!(contract.register_address(&owner, false, &a1), Err(Error::NotAuthorized));
}

#[test]
fn master_requires_known_address() {
    // The owner flags A1, then designates A2, never flagged: the call
    // fails and the master is still absent.
    let owner = Address::new([1u8; 32]);
    let a1 = Address::new([31u8; 32]);
    let a2 = Address::new([32u8; 32]);
    let mut contract = initialized_contract(owner);

    assert!(contract.register_address(&owner, true, &a1).is_ok());
    assert_eq!(
        contract.set_master_stellar_address(&owner, true, &a2),
        Err(Error::AddressNotFound)
    );
    assert_eq!(contract.get_master(), None);
}

#[test]
fn master_is_replaced_by_a_later_known_address() {
    let owner = Address::new([1u8; 32]);
    let a1 = Address::new([31u8; 32]);
    let a2 = Address::new([32u8; 32]);
    let mut contract = initialized_contract(owner);

    assert!(contract.register_address(&owner, true, &a1).is_ok());
    assert!(contract.register_address(&owner, true, &a2).is_ok());

    let event = contract.set_master_stellar_address(&owner, true, &a1).unwrap();
    assert_eq!(event, Event::MasterSet { address: a1 });
    assert_eq!(contract.get_master(), Some(a1));

    let event = contract.set_master_stellar_address(&owner, true, &a2).unwrap();
    assert_eq!(event, Event::MasterSet { address: a2 });
    assert_eq!(contract.get_master(), Some(a2));
}

#[test]
fn register_address_is_idempotent() {
    let owner = Address::new([1u8; 32]);
    let a1 = Address::new([31u8; 32]);
    let mut contract = initialized_contract(owner);

    assert!(contract.register_address(&owner, true, &a1).is_ok());
    assert!(contract.register_address(&owner, true, &a1).is_ok());
    assert!(contract.set_master_stellar_address(&owner, true, &a1).is_ok());
    assert_eq!(contract.get_master(), Some(a1));
}

#[test]
fn stellar_address_keeps_its_first_label() {
    let owner = Address::new([1u8; 32]);
    let a1 = Address::new([31u8; 32]);
    let mut contract = initialized_contract(owner);

    let event = contract
        .add_stellar_address(&owner, true, &a1, "payroll".to_string())
        .unwrap();
    assert_eq!(event, Event::AddressAdded { address: a1, label: "payroll".to_string() });

    let refused = contract.add_stellar_address(&owner, true, &a1, "treasury".to_string());
    assert_eq!(refused, Err(Error::AddressAlreadyExists));

    let stored = contract.get_stellar_address(&a1).unwrap();
    assert_eq!(stored.label, "payroll");
}

#[test]
fn stellar_address_lookup_is_absence_not_failure() {
    let contract = Contract::new();
    let a1 = Address::new([31u8; 32]);

    assert!(contract.get_stellar_address(&a1).is_none());
}

#[test]
fn owner_may_register_a_commitment_like_anyone() {
    // Self-registration is not owner-gated: a non-owner identity claims a
    // commitment on an initialized store.
    let owner = Address::new([1u8; 32]);
    let user = Address::new([9u8; 32]);
    let c = Commitment::new([40u8; 32]);
    let mut contract = initialized_contract(owner);

    assert!(contract.register(&user, true, &c).is_ok());
    assert_eq!(contract.get_commitment_owner(&c), Some(user));
}

#[test]
fn hello_greets() {
    let greeting = Contract::hello("world".to_string());
    assert_eq!(greeting, vec!["Hello".to_string(), "world".to_string()]);
}
