//! Tests of the network bootstrap orchestrator and the idempotence of its
//! plans.

use auraed::init::LogLevel;
use auraed::init::SystemRuntime;
use auraed::netboot::NetAction;
use auraed::netboot::NetConfig;
use auraed::netboot::apply_net_plan;

fn runtime() -> SystemRuntime {
    SystemRuntime { logger_level: LogLevel::Info }
}

#[test]
fn loopback_plan_assigns_both_families_then_brings_the_link_up() {
    let acts = runtime().configure_loopback();
    assert_eq!(acts.len(), 3);
    match &acts[0] {
        NetAction::AddAddress { iface, net } => {
            assert_eq!(iface, "lo");
            let mut v6 = vec![0u8; 16];
            v6[15] = 1;
            assert_eq!(net.addr, v6);
            assert_eq!(net.prefix, 128);
        }
        other => panic!("expected an address assignment, got {other:?}"),
    }
    match &acts[1] {
        NetAction::AddAddress { iface, net } => {
            assert_eq!(iface, "lo");
            assert_eq!(net.addr, vec![127, 0, 0, 1]);
            assert_eq!(net.prefix, 8);
        }
        other => panic!("expected an address assignment, got {other:?}"),
    }
    assert_eq!(acts[2], NetAction::SetLinkUp { iface: "lo".to_string() });
}

#[test]
fn nic_plan_assigns_link_local_then_up_then_default_route() {
    let acts = runtime().configure_nic();
    assert_eq!(acts.len(), 3);
    let mut linklocal = vec![0u8; 16];
    linklocal[0] = 0xfe;
    linklocal[1] = 0x80;
    linklocal[15] = 2;
    match &acts[0] {
        NetAction::AddAddress { iface, net } => {
            assert_eq!(iface, "eth0");
            assert_eq!(net.addr, linklocal);
            assert_eq!(net.prefix, 64);
        }
        other => panic!("expected an address assignment, got {other:?}"),
    }
    assert_eq!(acts[1], NetAction::SetLinkUp { iface: "eth0".to_string() });
    match &acts[2] {
        NetAction::AddRoute { iface, dest, source } => {
            assert_eq!(iface, "eth0");
            assert_eq!(dest.addr, vec![0u8; 16]);
            assert_eq!(dest.prefix, 0);
            assert_eq!(source.addr, linklocal);
            assert_eq!(source.prefix, 64);
        }
        other => panic!("expected a route, got {other:?}"),
    }
}

#[test]
fn full_bootstrap_is_loopback_then_nic() {
    let rt = runtime();
    let all = rt.init_pid1_network();
    let mut expected = rt.configure_loopback();
    expected.append(&mut rt.configure_nic());
    assert_eq!(all, expected);
}

#[test]
fn rerunning_the_bootstrap_does_not_double_the_address_set() {
    let rt = runtime();
    let acts = rt.init_pid1_network();

    let mut config = NetConfig::new();
    apply_net_plan(&mut config, &acts);
    let addresses_once = config.addresses.clone();
    let up_once = config.up.clone();
    let routes_once = config.routes.clone();
    assert_eq!(addresses_once.len(), 3);
    assert_eq!(up_once.len(), 2);
    assert_eq!(routes_once.len(), 1);

    // Re-running the orchestrator against the configured state must not
    // produce a different final address set.
    apply_net_plan(&mut config, &acts);
    assert_eq!(config.addresses, addresses_once);
    assert_eq!(config.up, up_once);
    assert_eq!(config.routes, routes_once);
}
