//! The resolver table: last-write-wins routing with a typed lookup failure.

use alien_gateway::types::{Address, Commitment, Error};
use alien_gateway::Contract;

#[test]
fn test_resolve_found_without_memo() {
    let mut contract = Contract::new();
    let commitment = Commitment::new([1u8; 32]);
    let wallet = Address::new([11u8; 32]);

    contract.register_resolver(&commitment, &wallet, None);

    let result = contract.resolve(&commitment).unwrap();
    assert_eq!(result.wallet, wallet);
    assert!(result.memo.is_none());
}

#[test]
fn test_resolve_found_with_memo() {
    let mut contract = Contract::new();
    let commitment = Commitment::new([2u8; 32]);
    let wallet = Address::new([12u8; 32]);

    contract.register_resolver(&commitment, &wallet, Some(12345));

    let result = contract.resolve(&commitment).unwrap();
    assert_eq!(result.wallet, wallet);
    assert_eq!(result.memo.unwrap(), 12345);
}

#[test]
#[should_panic]
fn test_resolve_not_found() {
    let contract = Contract::new();
    let commitment = Commitment::new([9u8; 32]);

    contract.resolve(&commitment).unwrap();
}

#[test]
fn resolve_unregistered_commitment_is_not_found() {
    let contract = Contract::new();
    let commitment = Commitment::new([9u8; 32]);

    assert_eq!(contract.resolve(&commitment).err(), Some(Error::NotFound));
}

#[test]
fn resolver_last_write_wins() {
    // registerResolver(C2, W1, None) resolves to {W1, None}; a second
    // binding of C2 to (W2, Some(7)) silently replaces it.
    let mut contract = Contract::new();
    let c2 = Commitment::new([2u8; 32]);
    let w1 = Address::new([21u8; 32]);
    let w2 = Address::new([22u8; 32]);

    contract.register_resolver(&c2, &w1, None);
    let first = contract.resolve(&c2).unwrap();
    assert_eq!(first.wallet, w1);
    assert_eq!(first.memo, None);

    contract.register_resolver(&c2, &w2, Some(7));
    let second = contract.resolve(&c2).unwrap();
    assert_eq!(second.wallet, w2);
    assert_eq!(second.memo, Some(7));
}

#[test]
fn resolver_keyspace_is_separate_from_registry() {
    // The registry and the resolver table key on commitments independently:
    // registering a commitment does not make it resolve.
    let mut contract = Contract::new();
    let user = Address::new([7u8; 32]);
    let commitment = Commitment::new([6u8; 32]);

    assert!(contract.register(&user, true, &commitment).is_ok());
    assert_eq!(contract.resolve(&commitment).err(), Some(Error::NotFound));
}
