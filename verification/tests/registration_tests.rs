//! The commitment registry: first-registrant-wins claims.

use alien_gateway::registration::Registration;
use alien_gateway::types::{Address, Commitment, Error, Event};
use alien_gateway::Contract;

#[test]
fn test_successful_registration() {
    let mut registration = Registration::new();
    let user = Address::new([7u8; 32]);
    let commitment = Commitment::new([3u8; 32]);

    let event = registration.register(&user, true, &commitment).unwrap();
    assert_eq!(event, Event::Registered { commitment, owner: user });

    assert_eq!(registration.get_owner(&commitment), Some(user));
}

#[test]
fn test_duplicate_commitment_rejected() {
    let mut registration = Registration::new();
    let user1 = Address::new([7u8; 32]);
    let user2 = Address::new([8u8; 32]);
    let commitment = Commitment::new([3u8; 32]);

    assert!(registration.register(&user1, true, &commitment).is_ok());
    let second = registration.register(&user2, true, &commitment);
    assert_eq!(second, Err(Error::AlreadyRegistered));
}

#[test]
fn test_multiple_users_different_commitments() {
    let mut registration = Registration::new();
    let user1 = Address::new([7u8; 32]);
    let user2 = Address::new([8u8; 32]);
    let commitment1 = Commitment::new([3u8; 32]);
    let commitment2 = Commitment::new([4u8; 32]);

    assert!(registration.register(&user1, true, &commitment1).is_ok());
    assert!(registration.register(&user2, true, &commitment2).is_ok());

    assert_eq!(registration.get_owner(&commitment1), Some(user1));
    assert_eq!(registration.get_owner(&commitment2), Some(user2));
}

#[test]
fn test_get_owner_nonexistent_commitment() {
    let registration = Registration::new();
    let commitment = Commitment::new([5u8; 32]);

    assert_eq!(registration.get_owner(&commitment), None);
}

#[test]
fn register_requires_caller_authorization() {
    let mut contract = Contract::new();
    let user = Address::new([7u8; 32]);
    let commitment = Commitment::new([3u8; 32]);

    let refused = contract.register(&user, false, &commitment);
    assert_eq!(refused, Err(Error::NotAuthorized));
    assert_eq!(contract.get_commitment_owner(&commitment), None);
}

#[test]
fn registration_is_permanent() {
    // Register C1 to U1; registering C1 again, to U2, fails and the stored
    // owner is still U1.
    let mut contract = Contract::new();
    let u1 = Address::new([1u8; 32]);
    let u2 = Address::new([2u8; 32]);
    let c1 = Commitment::new([10u8; 32]);

    assert!(contract.register(&u1, true, &c1).is_ok());
    assert_eq!(contract.get_commitment_owner(&c1), Some(u1));

    assert_eq!(contract.register(&u2, true, &c1), Err(Error::AlreadyRegistered));
    assert_eq!(contract.get_commitment_owner(&c1), Some(u1));
}
