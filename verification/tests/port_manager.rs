use tunneld::port::PortManager;

#[test]
fn new_manager_holds_whole_range() {
    let pm = PortManager::new(40000, 40003);
    assert_eq!(pm.available(), 4);
    assert!(pm.holds(40000));
    assert!(pm.holds(40001));
    assert!(pm.holds(40002));
    assert!(pm.holds(40003));
    assert!(!pm.holds(39999));
    assert!(!pm.holds(40004));
}

#[test]
fn allocate_removes_port_from_free_set() {
    let mut pm = PortManager::new(40000, 40001);
    let p = pm.allocate().unwrap();
    assert!((40000..=40001).contains(&p));
    assert!(!pm.holds(p));
    assert_eq!(pm.available(), 1);
}

#[test]
fn two_allocations_never_grant_same_port() {
    let mut pm = PortManager::new(40000, 40005);
    let p1 = pm.allocate().unwrap();
    let p2 = pm.allocate().unwrap();
    assert_ne!(p1, p2);
}

#[test]
fn exhaustion_then_release_recovers() {
    // A two-port range serves two dynamic registrations, refuses the
    // third, and serves a fourth once a port has been released.
    let mut pm = PortManager::new(40000, 40001);
    let p1 = pm.allocate().unwrap();
    let p2 = pm.allocate().unwrap();
    assert_ne!(p1, p2);
    assert!(pm.allocate().is_none());
    pm.release(p1);
    assert_eq!(pm.allocate(), Some(p1));
}

#[test]
fn release_is_idempotent() {
    let mut pm = PortManager::new(40000, 40001);
    let p = pm.allocate().unwrap();
    pm.release(p);
    pm.release(p);
    assert_eq!(pm.available(), 2);
}

#[test]
fn remove_marks_port_unusable() {
    let mut pm = PortManager::new(40000, 40002);
    pm.remove(40001);
    assert!(!pm.holds(40001));
    assert_eq!(pm.available(), 2);
    let a = pm.allocate().unwrap();
    let b = pm.allocate().unwrap();
    assert_ne!(a, 40001);
    assert_ne!(b, 40001);
    assert!(pm.allocate().is_none());
}

#[test]
fn remove_of_absent_port_changes_nothing() {
    let mut pm = PortManager::new(40000, 40001);
    pm.remove(50000);
    assert_eq!(pm.available(), 2);
}
