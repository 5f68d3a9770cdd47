use minichain::peers::{ConnectionDirection, PeerAddr, PeerRegistry};

fn addr(ip: u128, port: u16) -> PeerAddr {
    PeerAddr { ip, port }
}

#[test]
fn insert_registers_a_new_peer_once() {
    let mut registry = PeerRegistry::new();
    assert!(registry.insert(addr(1, 4000), ConnectionDirection::Outbound));
    assert!(!registry.insert(addr(1, 4000), ConnectionDirection::Inbound));
    assert_eq!(registry.len(), 1);
    assert!(registry.contains(addr(1, 4000)));
}

#[test]
fn same_host_different_port_is_a_different_peer() {
    let mut registry = PeerRegistry::new();
    assert!(registry.insert(addr(1, 4000), ConnectionDirection::Outbound));
    assert!(registry.insert(addr(1, 4001), ConnectionDirection::Inbound));
    assert_eq!(registry.len(), 2);
}

#[test]
fn remove_unregisters_exactly_the_given_peer() {
    let mut registry = PeerRegistry::new();
    registry.insert(addr(1, 1), ConnectionDirection::Inbound);
    registry.insert(addr(2, 2), ConnectionDirection::Outbound);
    registry.insert(addr(3, 3), ConnectionDirection::Inbound);

    assert!(registry.remove(addr(2, 2)));
    assert!(!registry.contains(addr(2, 2)));
    assert!(registry.contains(addr(1, 1)));
    assert!(registry.contains(addr(3, 3)));
    assert_eq!(registry.len(), 2);

    // Removing a peer that is not registered does nothing.
    assert!(!registry.remove(addr(2, 2)));
    assert_eq!(registry.len(), 2);
}

#[test]
fn addresses_lists_peers_in_insertion_order() {
    let mut registry = PeerRegistry::new();
    registry.insert(addr(9, 1), ConnectionDirection::Inbound);
    registry.insert(addr(8, 2), ConnectionDirection::Outbound);
    let listed = registry.addresses();
    assert_eq!(listed, vec![addr(9, 1), addr(8, 2)]);
}
