use idle_bridge::registry::InhibitorHandle;
use idle_bridge::registry::InhibitorRegistry;

#[test]
fn inhibit_stores_one_entry_with_name_and_reason() {
    let mut registry = InhibitorRegistry::new();
    let cookie = registry.inhibit(
        InhibitorHandle { id: 1 },
        "app1".to_string(),
        "watching video".to_string(),
    );
    assert_eq!(registry.len(), 1);
    assert!(registry.contains(cookie));
    let stored = registry.get(cookie).expect("entry must be present");
    assert_eq!(stored.inhibitor, InhibitorHandle { id: 1 });
    assert_eq!(stored.name, "app1");
    assert_eq!(stored.reason, "watching video");
}

#[test]
fn full_scenario_two_apps() {
    let mut registry = InhibitorRegistry::new();
    let k1 = registry.inhibit(
        InhibitorHandle { id: 1 },
        "app1".to_string(),
        "watching video".to_string(),
    );
    let k2 = registry.inhibit(
        InhibitorHandle { id: 2 },
        "app2".to_string(),
        "presenting".to_string(),
    );
    assert_ne!(k1, k2);
    assert_eq!(registry.len(), 2);

    let removed = registry.un_inhibit(k1);
    let stored = removed.expect("first revocation must hand the inhibitor back");
    assert_eq!(stored.inhibitor, InhibitorHandle { id: 1 });
    assert_eq!(stored.name, "app1");
    assert_eq!(registry.len(), 1);
    assert!(!registry.contains(k1));
    assert!(registry.contains(k2));

    let removed_again = registry.un_inhibit(k1);
    assert!(removed_again.is_none());
    assert_eq!(registry.len(), 1);

    let removed2 = registry.un_inhibit(k2);
    let stored2 = removed2.expect("second cookie must still be active");
    assert_eq!(stored2.inhibitor, InhibitorHandle { id: 2 });
    assert_eq!(stored2.reason, "presenting");
    assert_eq!(registry.len(), 0);
}

#[test]
fn un_inhibit_unknown_cookie_is_a_no_op() {
    let mut registry = InhibitorRegistry::new();
    assert!(registry.un_inhibit(12345).is_none());
    assert_eq!(registry.len(), 0);
    let cookie = registry.inhibit(
        InhibitorHandle { id: 7 },
        "app".to_string(),
        "reason".to_string(),
    );
    let other = cookie.wrapping_add(1);
    assert!(registry.un_inhibit(other).is_none());
    assert_eq!(registry.len(), 1);
    assert!(registry.contains(cookie));
}

#[test]
fn un_inhibit_twice_succeeds_both_times() {
    let mut registry = InhibitorRegistry::new();
    let cookie = registry.inhibit(
        InhibitorHandle { id: 3 },
        "app".to_string(),
        "reason".to_string(),
    );
    assert!(registry.un_inhibit(cookie).is_some());
    assert!(registry.un_inhibit(cookie).is_none());
    assert_eq!(registry.len(), 0);
}

#[test]
fn cookies_are_pairwise_distinct_while_live() {
    let mut registry = InhibitorRegistry::new();
    let mut cookies: Vec<u32> = Vec::new();
    for id in 0..50u64 {
        let cookie = registry.inhibit(
            InhibitorHandle { id },
            format!("app{}", id),
            "busy".to_string(),
        );
        cookies.push(cookie);
    }
    assert_eq!(registry.len(), 50);
    for i in 0..cookies.len() {
        for j in 0..i {
            assert_ne!(cookies[i], cookies[j]);
        }
    }
    for cookie in &cookies {
        assert!(registry.contains(*cookie));
    }
}

#[test]
fn retired_cookie_leaves_other_entries_alone() {
    let mut registry = InhibitorRegistry::new();
    let k1 = registry.inhibit(
        InhibitorHandle { id: 10 },
        "one".to_string(),
        "r1".to_string(),
    );
    let k2 = registry.inhibit(
        InhibitorHandle { id: 11 },
        "two".to_string(),
        "r2".to_string(),
    );
    registry.un_inhibit(k1);
    let stored = registry.get(k2).expect("untouched entry must survive");
    assert_eq!(stored.name, "two");
    assert_eq!(stored.reason, "r2");
    assert!(registry.get(k1).is_none());
}
