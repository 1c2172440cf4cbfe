use tunneld::manager::choose_port;
use tunneld::manager::retry_after_bind_failure;
use tunneld::manager::BindRetry;
use tunneld::manager::PortChoice;
use tunneld::manager::TcpManager;
use tunneld::port::PortManager;
use tunneld::status::map_bind_error;
use tunneld::status::BindFailure;
use tunneld::status::TunnelStatus;

#[test]
fn manager_constructs() {
    let _ = TcpManager::new();
}

#[test]
fn requested_port_is_bound_as_is() {
    let mut pm = PortManager::new(40000, 40001);
    match choose_port(&mut pm, 30080) {
        PortChoice::Bind(p, dynamic) => {
            assert_eq!(p, 30080);
            assert!(!dynamic);
        },
        PortChoice::Exhausted => panic!("a fixed port never exhausts the manager"),
    }
    assert_eq!(pm.available(), 2);
}

#[test]
fn port_zero_draws_from_the_manager() {
    let mut pm = PortManager::new(40000, 40001);
    match choose_port(&mut pm, 0) {
        PortChoice::Bind(p, dynamic) => {
            assert!((40000..=40001).contains(&p));
            assert!(dynamic);
            assert!(!pm.holds(p));
        },
        PortChoice::Exhausted => panic!("two ports were free"),
    }
}

#[test]
fn empty_manager_reports_exhaustion() {
    let mut pm = PortManager::new(40000, 40000);
    assert!(pm.allocate().is_some());
    assert!(matches!(choose_port(&mut pm, 0), PortChoice::Exhausted));
}

#[test]
fn fixed_port_bind_failure_surfaces_mapped_status() {
    let mut pm = PortManager::new(40000, 40001);
    match retry_after_bind_failure(&mut pm, false, BindFailure::AddrInUse) {
        BindRetry::GiveUp(s) => assert_eq!(s, TunnelStatus::AlreadyExists),
        BindRetry::Bind(_) => panic!("a fixed port is never retried"),
    }
    match retry_after_bind_failure(&mut pm, false, BindFailure::PermissionDenied) {
        BindRetry::GiveUp(s) => assert_eq!(s, TunnelStatus::PermissionDenied),
        BindRetry::Bind(_) => panic!("a fixed port is never retried"),
    }
}

#[test]
fn dynamic_bind_failure_draws_the_next_port() {
    // The failed port stays out of the free set; the retry gets the
    // other one; a further failure exhausts the range.
    let mut pm = PortManager::new(40000, 40001);
    let first = match choose_port(&mut pm, 0) {
        PortChoice::Bind(p, true) => p,
        _ => panic!("expected a dynamic port"),
    };
    let second = match retry_after_bind_failure(&mut pm, true, BindFailure::AddrInUse) {
        BindRetry::Bind(p) => p,
        BindRetry::GiveUp(_) => panic!("one port was still free"),
    };
    assert_ne!(first, second);
    match retry_after_bind_failure(&mut pm, true, BindFailure::AddrInUse) {
        BindRetry::GiveUp(s) => assert_eq!(s, TunnelStatus::ResourceExhausted),
        BindRetry::Bind(_) => panic!("the range was exhausted"),
    }
}

#[test]
fn every_bind_failure_kind_maps_to_its_status() {
    assert_eq!(map_bind_error(BindFailure::AddrInUse), TunnelStatus::AlreadyExists);
    assert_eq!(map_bind_error(BindFailure::PermissionDenied), TunnelStatus::PermissionDenied);
    assert_eq!(map_bind_error(BindFailure::Other), TunnelStatus::Internal);
}

#[test]
fn statuses_describe_themselves() {
    assert_eq!(TunnelStatus::AlreadyExists.describe(), "already exists");
    assert_eq!(TunnelStatus::ResourceExhausted.describe(), "resource exhausted");
    assert_eq!(TunnelStatus::PermissionDenied.describe(), "permission denied");
    assert_eq!(TunnelStatus::InvalidArgument.describe(), "invalid argument");
    assert_eq!(TunnelStatus::Internal.describe(), "internal error");
}
