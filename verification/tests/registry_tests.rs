use epoll_reactor::flags::{
    EPOLLERR, EPOLLET, EPOLLEXCLUSIVE, EPOLLHUP, EPOLLIN, EPOLLONESHOT, EPOLLOUT, EPOLLRDHUP,
    EPOLLWAKEUP,
};
use epoll_reactor::registry::{InterestRegistry, RegistryError};

#[test]
fn modify_and_delete_need_prior_add() {
    let mut registry = InterestRegistry::new();
    assert_eq!(registry.modify(3, EPOLLIN), Err(RegistryError::NotRegistered));
    assert_eq!(registry.delete(3), Err(RegistryError::NotRegistered));
    assert!(!registry.is_registered(3));
    assert_eq!(registry.len(), 0);
}

#[test]
fn second_add_without_delete_fails() {
    let mut registry = InterestRegistry::new();
    assert_eq!(registry.add(3, EPOLLIN), Ok(()));
    assert_eq!(registry.add(3, EPOLLOUT), Err(RegistryError::AlreadyRegistered));
    // The rejected add changed nothing.
    assert_eq!(registry.interest_of(3), Some(EPOLLIN));
    // After a delete, the descriptor can be added again.
    assert_eq!(registry.delete(3), Ok(()));
    assert_eq!(registry.add(3, EPOLLOUT), Ok(()));
    assert_eq!(registry.interest_of(3), Some(EPOLLOUT));
}

#[test]
fn delete_is_not_idempotent() {
    let mut registry = InterestRegistry::new();
    assert_eq!(registry.add(9, EPOLLIN | EPOLLET), Ok(()));
    assert_eq!(registry.delete(9), Ok(()));
    assert_eq!(registry.delete(9), Err(RegistryError::NotRegistered));
}

#[test]
fn modify_replaces_interest() {
    let mut registry = InterestRegistry::new();
    assert_eq!(registry.add(4, EPOLLIN), Ok(()));
    assert_eq!(registry.modify(4, EPOLLIN | EPOLLET), Ok(()));
    assert_eq!(registry.interest_of(4), Some(EPOLLIN | EPOLLET));
    assert_eq!(registry.len(), 1);
}

#[test]
fn modify_may_not_set_exclusive() {
    let mut registry = InterestRegistry::new();
    assert_eq!(registry.add(3, EPOLLIN), Ok(()));
    // The exclusive-wake bit is valid only in an add, never in a modify.
    assert_eq!(registry.modify(3, EPOLLIN | EPOLLEXCLUSIVE), Err(RegistryError::InvalidFlags));
    assert_eq!(registry.interest_of(3), Some(EPOLLIN));
}

#[test]
fn exclusive_registration_refuses_modify() {
    let mut registry = InterestRegistry::new();
    assert_eq!(registry.add(3, EPOLLEXCLUSIVE | EPOLLIN), Ok(()));
    // A registration made exclusive can never be modified ...
    assert_eq!(registry.modify(3, EPOLLIN), Err(RegistryError::InvalidFlags));
    assert_eq!(registry.interest_of(3), Some(EPOLLEXCLUSIVE | EPOLLIN));
    // ... but it can still be deleted.
    assert_eq!(registry.delete(3), Ok(()));
}

#[test]
fn exclusive_add_allows_only_compatible_bits() {
    let mut registry = InterestRegistry::new();
    // Peer-half-close and one-shot may not accompany the exclusive-wake
    // bit in an add.
    assert_eq!(registry.add(3, EPOLLEXCLUSIVE | EPOLLRDHUP), Err(RegistryError::InvalidFlags));
    assert_eq!(registry.add(3, EPOLLEXCLUSIVE | EPOLLONESHOT), Err(RegistryError::InvalidFlags));
    assert!(!registry.is_registered(3));
    // All the documented companions together are accepted.
    let companions = EPOLLEXCLUSIVE | EPOLLIN | EPOLLOUT | EPOLLWAKEUP | EPOLLET | EPOLLHUP
        | EPOLLERR;
    assert_eq!(registry.add(3, companions), Ok(()));
    // An invalid combination is reported before the membership error.
    assert_eq!(registry.add(3, EPOLLEXCLUSIVE | EPOLLRDHUP), Err(RegistryError::InvalidFlags));
}

#[test]
fn registrations_are_per_descriptor() {
    let mut registry = InterestRegistry::new();
    assert_eq!(registry.add(4, EPOLLIN), Ok(()));
    assert_eq!(registry.add(5, EPOLLOUT), Ok(()));
    assert_eq!(registry.len(), 2);
    assert_eq!(registry.interest_of(4), Some(EPOLLIN));
    assert_eq!(registry.interest_of(5), Some(EPOLLOUT));
    assert_eq!(registry.delete(4), Ok(()));
    assert!(!registry.is_registered(4));
    assert!(registry.is_registered(5));
    assert_eq!(registry.interest_of(4), None);
}
