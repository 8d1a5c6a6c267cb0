use toy_turn::addr::{IpAddress, SocketAddress};
use toy_turn::allocation::{Allocation, AllocationManager};

fn addr(ip: u32, port: u16) -> SocketAddress {
    SocketAddress::new(IpAddress::V4(ip), port)
}

#[test]
fn test_allocation_creation() {
    let client_addr = addr(0x0A000001, 54321); // 10.0.0.1:54321
    let relayed_addr = addr(0x7F000001, 49152); // 127.0.0.1:49152

    let allocation = Allocation::new("testuser".to_string(), relayed_addr, client_addr, 0);

    assert_eq!(allocation.username, "testuser");
    assert_eq!(allocation.relayed_address, relayed_addr);
    assert_eq!(allocation.client_address, client_addr);
    assert!(!allocation.is_expired(0));
}

#[test]
fn test_allocation_permissions() {
    let client_addr = addr(0x0A000001, 54321); // 10.0.0.1:54321
    let relayed_addr = addr(0x7F000001, 49153); // 127.0.0.1:49153
    let peer_addr = addr(0xCB007101, 80); // 203.0.113.1:80

    let mut allocation = Allocation::new("testuser".to_string(), relayed_addr, client_addr, 0);

    // Initially no permission
    assert!(!allocation.has_permission(&peer_addr, 0));

    // Add permission
    allocation.add_permission(peer_addr, 0);
    assert!(allocation.has_permission(&peer_addr, 0));
}

#[test]
fn test_permission_lifetime_boundary() {
    let client_addr = addr(0x0A000001, 54321);
    let relayed_addr = addr(0x7F000001, 49153);
    let peer_addr = addr(0xCB007101, 80);

    let mut allocation = Allocation::new("testuser".to_string(), relayed_addr, client_addr, 0);
    allocation.add_permission(peer_addr, 100);

    assert!(allocation.has_permission(&peer_addr, 399));
    // At exactly 300 ticks the permission has lapsed.
    assert!(!allocation.has_permission(&peer_addr, 400));

    allocation.cleanup_expired_permissions(400);
    assert!(!allocation.has_permission(&peer_addr, 399));
}

#[test]
fn test_allocation_expiry_boundary() {
    let client_addr = addr(0x0A000001, 54321);
    let relayed_addr = addr(0x7F000001, 49153);
    let mut allocation = Allocation::new("u".to_string(), relayed_addr, client_addr, 100);

    // Default lifetime is 600 seconds.
    assert!(!allocation.is_expired(699));
    assert!(allocation.is_expired(700));

    // A refresh restarts the clock; over the cap it is refused.
    assert!(allocation.refresh(3600, 700).is_ok());
    assert!(!allocation.is_expired(700));
    assert!(allocation.refresh(3601, 700).is_err());
}

#[test]
fn test_channel_binding() {
    let client_addr = addr(0x0A000001, 54321); // 10.0.0.1:54321
    let relayed_addr = addr(0x7F000001, 49154); // 127.0.0.1:49154
    let peer_addr = addr(0xCB007101, 80); // 203.0.113.1:80

    let mut allocation = Allocation::new("testuser".to_string(), relayed_addr, client_addr, 0);

    // Add channel binding
    allocation.add_channel_binding(0x4000, peer_addr, 0).unwrap();

    // Check channel mapping
    assert_eq!(allocation.get_peer_by_channel(0x4000), Some(peer_addr));

    // Permission should be granted automatically
    assert!(allocation.has_permission(&peer_addr, 0));

    // Invalid channel number should fail
    assert!(allocation.add_channel_binding(0x3FFF, peer_addr, 0).is_err());
}

#[test]
fn test_channel_binding_rules() {
    let client_addr = addr(0x0A000001, 54321);
    let relayed_addr = addr(0x7F000001, 49154);
    let peer_a = addr(0xCB007101, 80);
    let peer_b = addr(0xCB007102, 80);

    let mut allocation = Allocation::new("u".to_string(), relayed_addr, client_addr, 0);

    // Channel numbers outside 0x4000..=0x7FFF never bind.
    assert!(allocation.add_channel_binding(0x3FFF, peer_a, 0).is_err());
    assert!(allocation.add_channel_binding(0x8000, peer_a, 0).is_err());
    assert_eq!(allocation.get_peer_by_channel(0x3FFF), None);

    allocation.add_channel_binding(0x4000, peer_a, 0).unwrap();
    // Rebinding the same pair is idempotent.
    assert!(allocation.add_channel_binding(0x4000, peer_a, 5).is_ok());
    // The same channel cannot move to another peer.
    assert!(allocation.add_channel_binding(0x4000, peer_b, 5).is_err());
    // A bound peer cannot take a second channel.
    assert!(allocation.add_channel_binding(0x4001, peer_a, 5).is_err());
}

#[test]
fn test_allocation_manager() {
    let relay_addresses = vec![
        addr(0x7F000001, 49200), // 127.0.0.1:49200
        addr(0x7F000001, 49201), // 127.0.0.1:49201
    ];

    let mut manager = AllocationManager::new(relay_addresses);
    let client_addr = addr(0x0A000001, 54321); // 10.0.0.1:54321

    // Create allocation
    let relayed = manager.create_allocation("testuser".to_string(), client_addr, 0).unwrap();
    assert_eq!(relayed, addr(0x7F000001, 49201));

    // Get allocation
    let retrieved = manager.get_allocation(&client_addr).unwrap();
    assert_eq!(retrieved.username, "testuser");

    // Remove allocation
    let removed = manager.remove_allocation(&client_addr).unwrap();
    assert_eq!(removed.username, "testuser");

    // Should be gone
    assert!(manager.get_allocation(&client_addr).is_none());
}

#[test]
fn test_allocation_manager_pool_conservation() {
    let relay_addresses = vec![addr(0x7F000001, 49200)];
    let mut manager = AllocationManager::new(relay_addresses);
    let client_a = addr(0x0A000001, 1000);
    let client_b = addr(0x0A000002, 1000);

    let relayed = manager.create_allocation("a".to_string(), client_a, 0).unwrap();

    // The only relay address is taken: the next client is refused.
    assert!(manager.create_allocation("b".to_string(), client_b, 0).is_err());
    // A second allocation for the same client is a mismatch.
    assert!(manager.create_allocation("a".to_string(), client_a, 0).is_err());

    // Removal returns the relay address to the pool.
    manager.remove_allocation(&client_a);
    let relayed_again = manager.create_allocation("b".to_string(), client_b, 0).unwrap();
    assert_eq!(relayed, relayed_again);
}

#[test]
fn test_allocation_manager_cleanup() {
    let relay_addresses = vec![addr(0x7F000001, 49200), addr(0x7F000001, 49201)];
    let mut manager = AllocationManager::new(relay_addresses);
    let client_a = addr(0x0A000001, 1000);
    let client_b = addr(0x0A000002, 1000);

    manager.create_allocation("a".to_string(), client_a, 0).unwrap();
    manager.create_allocation("b".to_string(), client_b, 500).unwrap();

    // At tick 600 the first allocation has run out, the second has not.
    manager.cleanup_expired(600);
    assert!(manager.get_allocation(&client_a).is_none());
    assert!(manager.get_allocation(&client_b).is_some());

    // The freed relay address can be handed out again.
    let client_c = addr(0x0A000003, 1000);
    assert!(manager.create_allocation("c".to_string(), client_c, 600).is_ok());
}
