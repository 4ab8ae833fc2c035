use vinput::registry::Registry;

#[test]
fn fresh_registry_routes_nowhere() {
    let r = Registry::new();
    assert_eq!(r.route(), None);
    assert!(!r.is_current(0));
}

#[test]
fn install_makes_the_connection_current() {
    let mut r = Registry::new();
    let a = r.install();
    assert_eq!(r.route(), Some(a));
    assert!(r.is_current(a));
}

#[test]
fn reconnect_supersedes_previous_connection() {
    let mut r = Registry::new();
    let a = r.install();
    let b = r.install();
    assert_ne!(a, b);
    assert_eq!(r.route(), Some(b));
    assert!(r.is_current(b));
    assert!(!r.is_current(a));
    // A third consumer supersedes B the same way.
    let c = r.install();
    assert_ne!(b, c);
    assert_eq!(r.route(), Some(c));
    assert!(!r.is_current(b));
}
