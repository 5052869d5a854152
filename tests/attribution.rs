use net_sniff::process::{ProcessResolver, ProcessSockets, SocketEntry, SocketSnapshot};

fn snapshot() -> SocketSnapshot {
    SocketSnapshot {
        processes: vec![
            ProcessSockets { name: String::from("sshd"), inodes: vec![10, 11] },
            ProcessSockets { name: String::from("dnsmasq"), inodes: vec![20] },
        ],
        tcp: vec![
            SocketEntry { port: 22, inode: 10 },
            SocketEntry { port: 53, inode: 99 },
            SocketEntry { port: 22, inode: 20 },
        ],
        udp: vec![SocketEntry { port: 53, inode: 20 }],
    }
}

#[test]
fn new_resolver_knows_nothing() {
    let r = ProcessResolver::new();
    assert_eq!(r.resolve_port(22), "Unknown");
}

#[test]
fn tcp_first_then_udp() {
    let mut r = ProcessResolver::new();
    r.refresh(snapshot());
    assert_eq!(r.resolve_port(22), "sshd");
    assert_eq!(r.resolve_port(53), "dnsmasq");
    assert_eq!(r.resolve_port(80), "Unknown");
}

#[test]
fn destination_port_is_tried_second() {
    let mut r = ProcessResolver::new();
    r.refresh(snapshot());
    assert_eq!(r.resolve(40000, 22), "sshd");
    assert_eq!(r.resolve(22, 53), "sshd");
    assert_eq!(r.resolve(40000, 0), "Unknown");
}

#[test]
fn later_owner_of_a_socket_wins() {
    let mut r = ProcessResolver::new();
    r.refresh(SocketSnapshot {
        processes: vec![
            ProcessSockets { name: String::from("parent"), inodes: vec![5] },
            ProcessSockets { name: String::from("child"), inodes: vec![5] },
        ],
        tcp: vec![SocketEntry { port: 8000, inode: 5 }],
        udp: vec![],
    });
    assert_eq!(r.resolve_port(8000), "child");
}

#[test]
fn refresh_twice_is_idempotent() {
    let mut once = ProcessResolver::new();
    once.refresh(snapshot());
    let mut twice = ProcessResolver::new();
    twice.refresh(snapshot());
    twice.refresh(snapshot());
    for port in [0u16, 22, 53, 80, 8000] {
        assert_eq!(once.resolve_port(port), twice.resolve_port(port));
    }
}

#[test]
fn refresh_replaces_rather_than_merges() {
    let mut r = ProcessResolver::new();
    r.refresh(snapshot());
    r.refresh(SocketSnapshot { processes: vec![], tcp: vec![], udp: vec![] });
    assert_eq!(r.resolve_port(22), "Unknown");
}
