//! Tests of the interface directory, name resolution, the request builders,
//! and the inventory dump.

use auraed::ipnet::IpNet;
use auraed::network::AddrAttr;
use auraed::network::AddressRecord;
use auraed::network::LinkAttr;
use auraed::network::LinkEntry;
use auraed::network::LinkRecord;
use auraed::network::NetError;
use auraed::network::add_address;
use auraed::network::add_route;
use auraed::network::dump_addresses;
use auraed::network::get_iface_idx;
use auraed::network::get_links;
use auraed::network::set_link_down;
use auraed::network::set_link_up;
use auraed::network::show_network_info;

fn sample_directory() -> Vec<LinkEntry> {
    let records = vec![
        LinkRecord {
            index: 1,
            attrs: vec![LinkAttr::Other, LinkAttr::Name("lo".to_string())],
        },
        LinkRecord { index: 7, attrs: vec![LinkAttr::Other] },
        LinkRecord { index: 2, attrs: vec![LinkAttr::Name("eth0".to_string())] },
    ];
    get_links(&records)
}

#[test]
fn get_links_skips_unnamed_records() {
    let dir = sample_directory();
    assert_eq!(dir.len(), 2);
    assert_eq!(dir[0].index, 1);
    assert_eq!(dir[0].name, "lo");
    assert_eq!(dir[1].index, 2);
    assert_eq!(dir[1].name, "eth0");
}

#[test]
fn iface_index_resolution() {
    let dir = sample_directory();
    assert_eq!(get_iface_idx(&dir, "lo"), Some(1));
    assert_eq!(get_iface_idx(&dir, "eth0"), Some(2));
    assert_eq!(get_iface_idx(&dir, "wlan0"), None);
}

#[test]
fn link_state_requests_resolve_by_name() {
    let dir = sample_directory();
    let up = set_link_up(&dir, "eth0").unwrap();
    assert_eq!(up.index, 2);
    assert!(up.up);
    let down = set_link_down(&dir, "lo").unwrap();
    assert_eq!(down.index, 1);
    assert!(!down.up);
    assert_eq!(set_link_up(&dir, "missing"), Err(NetError::InterfaceNotFound));
}

#[test]
fn address_request_resolves_by_name() {
    let dir = sample_directory();
    let net = IpNet { addr: vec![127, 0, 0, 1], prefix: 8 };
    let req = add_address(&dir, "lo", net).unwrap();
    assert_eq!(req.index, 1);
    assert_eq!(req.net.addr, vec![127, 0, 0, 1]);
    assert_eq!(req.net.prefix, 8);

    let net = IpNet { addr: vec![127, 0, 0, 1], prefix: 8 };
    assert_eq!(add_address(&dir, "missing", net), Err(NetError::InterfaceNotFound));
}

#[test]
fn route_request_resolves_by_name() {
    let dir = sample_directory();
    let dest = IpNet { addr: vec![0; 16], prefix: 0 };
    let mut source_bytes = vec![0u8; 16];
    source_bytes[0] = 0xfe;
    source_bytes[1] = 0x80;
    source_bytes[15] = 2;
    let source = IpNet { addr: source_bytes.clone(), prefix: 64 };
    let req = add_route(&dir, dest, "eth0", source).unwrap();
    assert_eq!(req.index, 2);
    assert_eq!(req.dest.addr, vec![0; 16]);
    assert_eq!(req.source.addr, source_bytes);
}

#[test]
fn dump_addresses_renders_inventory_lines() {
    let link = LinkRecord { index: 1, attrs: vec![LinkAttr::Name("lo".to_string())] };
    let mut v6 = vec![0u8; 16];
    v6[15] = 1;
    let addrs = vec![
        AddressRecord {
            attrs: vec![AddrAttr::Address(vec![127, 0, 0, 1]), AddrAttr::Other],
        },
        AddressRecord { attrs: vec![AddrAttr::Address(v6)] },
        AddressRecord { attrs: vec![AddrAttr::Address(vec![9, 9])] },
    ];
    let lines = dump_addresses("lo", &link, &addrs);
    assert_eq!(
        lines,
        vec![
            "lo:",
            "\tindex: 1",
            "\tname: lo",
            "\t ipv4: 127.0.0.1",
            "\t ipv6: ::1",
            "\t failed to get ip type",
        ]
    );
}

#[test]
fn show_network_info_frames_the_dumps() {
    let dumps = vec![
        vec!["lo:".to_string(), "\t ipv4: 127.0.0.1".to_string()],
        vec!["eth0:".to_string()],
    ];
    let lines = show_network_info(&dumps);
    assert_eq!(
        lines,
        vec![
            "=== Network Interfaces ===",
            "Addresses:",
            "lo:",
            "\t ipv4: 127.0.0.1",
            "eth0:",
            "==========================",
        ]
    );
}
