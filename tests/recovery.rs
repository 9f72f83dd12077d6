use game_lobby::authentication::{first_free_value, Urid, Urids, UserRecovery};
use std::collections::HashSet;

#[test]
fn register_mints_fresh_urid_per_call() {
    let mut urids = Urids::new();
    let first = urids.register(Some(7));
    let second = urids.register(Some(7));
    assert_ne!(first, second);
    let other = urids.register(Some(8));
    assert_ne!(first, other);
    assert_ne!(second, other);
    let anonymous = urids.register(None);
    assert_ne!(anonymous, first);
    assert_ne!(anonymous, other);
    assert!(!urids.add_urid(second, None));
}

#[test]
fn add_urid_reports_new_values() {
    let mut urids = Urids::new();
    let u = Urid::from_uuid(42);
    assert!(urids.add_urid(u, Some(1)));
    assert!(!urids.add_urid(u, None));
}

#[test]
fn unregister_releases_origin_link() {
    let mut urids = Urids::new();
    let u = Urid::from_uuid(5);
    urids.add_urid(u, Some(9));
    urids.unregister(u);
    assert!(urids.add_urid(u, None));
    let fresh = urids.register(Some(9));
    assert_ne!(fresh, u);
}

#[test]
fn unregister_all_releases_every_value() {
    let mut urids = Urids::new();
    let a = Urid::from_uuid(1);
    let b = Urid::from_uuid(2);
    urids.add_urid(a, Some(10));
    urids.add_urid(b, Some(11));
    urids.unregister_all(&vec![a, b]);
    assert!(urids.add_urid(a, None));
    assert!(urids.add_urid(b, None));
}

#[test]
fn generated_urid_is_unused() {
    let mut urids = Urids::new();
    for v in 0..50u128 {
        urids.add_urid(Urid::from_uuid(v), None);
    }
    let g = urids.generate_urid();
    assert!(g.value() >= 50);
}

#[test]
fn first_free_value_skips_used_prefix() {
    let used: HashSet<u128> = [0u128, 1, 2, 4].into_iter().collect();
    assert_eq!(first_free_value(&used), 3);
    assert_eq!(first_free_value(&HashSet::new()), 0);
}

#[test]
fn user_recovery_starts_without_name() {
    let ur = UserRecovery::new(Urid::from_uuid(3), Some(4));
    assert_eq!(ur.urid.value(), 3);
    assert!(ur.name.is_none());
    assert_eq!(ur.ip_addr, Some(4));
}
