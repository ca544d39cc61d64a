use testcontainers::logs::LogMatcher;
use testcontainers::ports::{PortMapping, Ports, Protocol};

#[test]
fn matcher_finds_pattern_within_one_chunk() {
    let mut m = LogMatcher::new(b"ready".to_vec());
    assert!(!m.is_found());
    assert!(m.feed(&b"server ready now\n".to_vec()));
    assert!(m.is_found());
}

#[test]
fn matcher_finds_pattern_split_across_chunks() {
    let mut m = LogMatcher::new(b"connections".to_vec());
    assert!(!m.feed(&b"waiting for conn".to_vec()));
    assert!(m.feed(&b"ections on port 27017\n".to_vec()));
}

#[test]
fn matcher_does_not_match_absent_pattern() {
    let mut m = LogMatcher::new(b"ready".to_vec());
    assert!(!m.feed(&b"initializing\n".to_vec()));
    assert!(!m.feed(&b"rea\n".to_vec()));
    assert!(!m.feed(&b"dy\n".to_vec()));
    assert!(!m.is_found());
}

#[test]
fn matcher_stays_found_once_found() {
    let mut m = LogMatcher::new(b"up".to_vec());
    assert!(m.feed(&b"up\n".to_vec()));
    assert!(m.feed(&b"anything\n".to_vec()));
}

#[test]
fn empty_pattern_matches_immediately() {
    let m = LogMatcher::new(Vec::new());
    assert!(m.is_found());
}

#[test]
fn port_snapshot_resolves_by_key() {
    let mut p = Ports::new();
    assert!(p.add(PortMapping { internal: 27017, protocol: Protocol::Tcp, host: 49153 }));
    assert!(p.add(PortMapping { internal: 27017, protocol: Protocol::Udp, host: 49154 }));
    assert_eq!(p.map_to_host_port(27017, Protocol::Tcp), Some(49153));
    assert_eq!(p.map_to_host_port(27017, Protocol::Udp), Some(49154));
    assert_eq!(p.map_to_host_port(9999, Protocol::Tcp), None);
}

#[test]
fn port_snapshot_refuses_duplicate_key() {
    let mut p = Ports::new();
    assert!(p.add(PortMapping { internal: 80, protocol: Protocol::Tcp, host: 49153 }));
    assert!(!p.add(PortMapping { internal: 80, protocol: Protocol::Tcp, host: 4999 }));
    assert_eq!(p.map_to_host_port(80, Protocol::Tcp), Some(49153));
}

#[test]
fn port_snapshot_from_entries_keeps_entries() {
    let entries = vec![
        PortMapping { internal: 80, protocol: Protocol::Tcp, host: 49153 },
        PortMapping { internal: 443, protocol: Protocol::Tcp, host: 49154 },
    ];
    let p = Ports::from_entries(entries);
    assert_eq!(p.map_to_host_port(443, Protocol::Tcp), Some(49154));
}
