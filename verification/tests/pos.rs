use oxion::pos::PoS;

#[test]
fn crafted_draws_select_by_cumulative_stake() {
    let mut registry = PoS::new();
    registry.add_participant("Alice".to_string(), 100);
    registry.add_participant("Bob".to_string(), 50);

    assert_eq!(registry.select_validator_with(30).unwrap().address, "Alice");
    assert_eq!(registry.select_validator_with(120).unwrap().address, "Bob");
    assert_eq!(registry.select_validator_with(0).unwrap().address, "Alice");
    assert_eq!(registry.select_validator_with(99).unwrap().address, "Alice");
    assert_eq!(registry.select_validator_with(100).unwrap().address, "Bob");
    assert_eq!(registry.select_validator_with(149).unwrap().address, "Bob");
}

#[test]
fn empty_registry_selects_nobody() {
    let registry = PoS::new();
    assert!(registry.select_validator().is_none());
}

#[test]
fn random_selection_returns_a_staked_participant() {
    let mut registry = PoS::new();
    registry.add_participant("Alice".to_string(), 100);
    registry.add_participant("Bob".to_string(), 50);
    for _ in 0..20 {
        let chosen = registry.select_validator().unwrap();
        assert!(chosen.address == "Alice" || chosen.address == "Bob");
        assert!(chosen.stake > 0);
    }
}

#[test]
fn repeated_addresses_accumulate_entries() {
    let mut registry = PoS::new();
    registry.add_participant("Alice".to_string(), 10);
    registry.add_participant("Alice".to_string(), 10);
    assert_eq!(registry.select_validator_with(15).unwrap().stake, 10);
    assert_eq!(registry.participants.len(), 2);
}
