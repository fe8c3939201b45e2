use rik::errors::NetworkError;
use rik::ip_pool::IpPool;
use rik::net_utils::{mac_from_entropy, mac_to_text, rule_tag, tap_name};
use rik::network::{FirewallRule, FunctionRuntimeNetwork, HostState, NetPhase, RuleKind, TapDevice};
use rik::text::ipv4_to_bytes;

#[test]
fn ipv4_formatting() {
    assert_eq!(ipv4_to_bytes(0x0A000001), b"10.0.0.1".to_vec());
    assert_eq!(ipv4_to_bytes(0xFFFFFFFC), b"255.255.255.252".to_vec());
    assert_eq!(ipv4_to_bytes(0), b"0.0.0.0".to_vec());
    assert_eq!(ipv4_to_bytes(0xC0A80164), b"192.168.1.100".to_vec());
}

#[test]
fn pool_allocates_distinct_subnets() {
    let mut pool = IpPool::new(0x0A000000, 16384);
    let a = pool.allocate().unwrap();
    let b = pool.allocate().unwrap();
    assert_eq!(a.net, 0x0A000000);
    assert_eq!(b.net, 0x0A000004);
    assert_ne!(a.guest_ip(), b.guest_ip());
    assert_eq!(a.host_ip(), 0x0A000001);
    assert_eq!(a.guest_ip(), 0x0A000002);
}

#[test]
fn pool_exhaustion_is_reported() {
    let mut pool = IpPool::new(0x0A000000, 2);
    pool.allocate().unwrap();
    pool.allocate().unwrap();
    assert_eq!(pool.allocate(), Err(NetworkError::PoolExhausted));
}

#[test]
fn released_subnet_is_reused() {
    let mut pool = IpPool::new(0x0A000000, 2);
    let a = pool.allocate().unwrap();
    let _b = pool.allocate().unwrap();
    pool.release(a.index);
    let c = pool.allocate().unwrap();
    assert_eq!(c.net, a.net);
}

#[test]
fn tap_name_shape() {
    let name = tap_name(&b"inst-1".to_vec());
    assert_eq!(name.len(), 15);
    assert_eq!(&name[..4], b"tap_");
    // deterministic
    assert_eq!(name, tap_name(&b"inst-1".to_vec()));
    assert_ne!(name, tap_name(&b"inst-2".to_vec()));
}

#[test]
fn rule_tag_shape() {
    assert_eq!(rule_tag(&b"inst-1".to_vec()), b"rik/inst-1".to_vec());
}

#[test]
fn mac_is_locally_administered() {
    let mac = mac_from_entropy(&[0xFF, 1, 2, 3, 4, 5]);
    assert_eq!(mac[0] & 0x01, 0);
    assert_eq!(mac[0] & 0x02, 0x02);
    assert_eq!(&mac[1..], &[1, 2, 3, 4, 5]);
    let text = mac_to_text(&mac);
    assert_eq!(text, b"fe:01:02:03:04:05".to_vec());
}

#[test]
fn network_lifecycle_wires_and_cleans() {
    let mut host = HostState::new(0x0A000000, 16384);
    let mut net = FunctionRuntimeNetwork::new(b"inst-1".to_vec());
    assert_eq!(net.phase, NetPhase::Uninitialized);

    net.init(&mut host).unwrap();
    assert_eq!(net.phase, NetPhase::TapUp);
    assert_eq!(host.taps.len(), 1);
    assert_eq!(host.taps[0].name, tap_name(&b"inst-1".to_vec()));
    assert_eq!(host.taps[0].addr, None);
    assert!(!host.taps[0].up);
    assert_eq!(host.rules.len(), 0);

    net.preboot(&mut host, &b"eth0".to_vec()).unwrap();
    assert_eq!(net.phase, NetPhase::Wired);
    assert_eq!(host.taps[0].addr, Some(0x0A000001));
    assert!(host.taps[0].up);
    assert_eq!(host.rules.len(), 3);
    assert_eq!(host.rules[0].kind, RuleKind::ForwardOut);
    assert_eq!(host.rules[1].kind, RuleKind::ForwardReturn);
    assert_eq!(host.rules[2].kind, RuleKind::Masquerade);
    for rule in &host.rules {
        assert_eq!(rule.tag, b"rik/inst-1".to_vec());
        assert_eq!(rule.outbound, b"eth0".to_vec());
        assert_eq!(rule.subnet_net, 0x0A000000);
    }

    net.destroy(&mut host).unwrap();
    assert_eq!(net.phase, NetPhase::Destroyed);
    assert_eq!(host.taps.len(), 0);
    assert_eq!(host.rules.len(), 0);
    let reused = host.pool.allocate().unwrap();
    assert_eq!(reused.net, 0x0A000000);
}

#[test]
fn destroy_leaves_other_instances_alone() {
    let mut host = HostState::new(0x0A000000, 16384);
    let mut one = FunctionRuntimeNetwork::new(b"inst-1".to_vec());
    let mut two = FunctionRuntimeNetwork::new(b"inst-2".to_vec());
    one.init(&mut host).unwrap();
    two.init(&mut host).unwrap();
    one.preboot(&mut host, &b"eth0".to_vec()).unwrap();
    two.preboot(&mut host, &b"eth0".to_vec()).unwrap();
    assert_eq!(host.rules.len(), 6);

    one.destroy(&mut host).unwrap();
    assert_eq!(host.taps.len(), 1);
    assert_eq!(host.rules.len(), 3);
    for rule in &host.rules {
        assert_eq!(rule.tag, b"rik/inst-2".to_vec());
    }
}

#[test]
fn mask_long_is_dotted_slash30() {
    let net = FunctionRuntimeNetwork::new(b"i".to_vec());
    assert_eq!(net.mask_long(), b"255.255.255.252".to_vec());
}

#[test]
fn startup_sweep_removes_orphans() {
    // An agent died between wiring the network and starting the guest;
    // its tap and rules are still on the host when the next run begins.
    let mut host = HostState::new(0x0A000000, 16384);
    let mut net = FunctionRuntimeNetwork::new(b"inst-old".to_vec());
    net.init(&mut host).unwrap();
    net.preboot(&mut host, &b"eth0".to_vec()).unwrap();
    // Devices and rules of other owners share the host.
    host.taps.push(TapDevice { name: b"docker0".to_vec(), addr: None, up: true });
    host.rules.push(FirewallRule {
        kind: RuleKind::Masquerade,
        tap: b"docker0".to_vec(),
        outbound: b"eth0".to_vec(),
        subnet_net: 0,
        tag: b"docker".to_vec(),
    });

    host.sweep_orphans();

    assert_eq!(host.taps.len(), 1);
    assert_eq!(host.taps[0].name, b"docker0".to_vec());
    assert_eq!(host.rules.len(), 1);
    assert_eq!(host.rules[0].tag, b"docker".to_vec());
}
