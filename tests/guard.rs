use accounts::guard::{GuardDecision, GuardRegistry};

#[test]
fn second_acquire_waits_until_release() {
    let mut locks = GuardRegistry::new();
    let key = "discord:1234".to_string();
    assert_eq!(locks.acquire(&key), GuardDecision::Acquired);
    assert_eq!(locks.acquire(&key), GuardDecision::Wait);
    assert_eq!(locks.resume(&key), GuardDecision::Wait);
    assert!(locks.release(&key));
    assert!(!locks.is_held(&key));
    assert_eq!(locks.resume(&key), GuardDecision::Acquired);
    assert!(locks.is_held(&key));
    assert!(!locks.release(&key));
    assert!(!locks.is_held(&key));
}

#[test]
fn distinct_keys_are_independent() {
    let mut locks = GuardRegistry::new();
    let a = "discord:1234".to_string();
    let b = "discord:5678".to_string();
    assert_eq!(locks.acquire(&a), GuardDecision::Acquired);
    assert_eq!(locks.acquire(&b), GuardDecision::Acquired);
    assert!(!locks.release(&b));
    assert!(locks.is_held(&a));
}

#[test]
fn released_key_can_be_taken_again() {
    let mut locks = GuardRegistry::new();
    let key = "k".to_string();
    for _ in 0..3 {
        assert_eq!(locks.acquire(&key), GuardDecision::Acquired);
        assert!(!locks.release(&key));
    }
    assert!(!locks.release(&"absent".to_string()));
}
