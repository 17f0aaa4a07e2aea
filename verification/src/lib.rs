//! Bootstrap and control-plane layer of a host-level node agent.
//!
//! The library holds the decision logic of the daemon: the identity-aware
//! bootstrap sequence, the network configuration engine, the secure
//! control-plane listener's state machine, and the process-execution
//! service. All operating-system work (mounts, netlink requests, socket
//! binds, process spawns) is performed by a thin driver around this crate,
//! which hands plain values in and out.

pub mod addr;
pub mod exec;
pub mod init;
pub mod ipnet;
pub mod listener;
pub mod observe;
pub mod netboot;
pub mod network;
pub mod power;
pub mod sriov;
pub mod text;

use vstd::prelude::*;

verus! {

/// Path of the local control-plane socket.
pub const AURAE_SOCK: &'static str = "/var/run/aurae/aurae.sock";

/// Name of the loopback interface.
pub const LOOPBACK_DEV: &'static str = "lo";

/// Canonical IPv6 loopback address and its prefix.
pub const LOOPBACK_IPV6: &'static str = "::1";

pub const LOOPBACK_IPV6_SUBNET: &'static str = "/128";

/// Canonical IPv4 loopback address and its prefix.
pub const LOOPBACK_IPV4: &'static str = "127.0.0.1";

pub const LOOPBACK_IPV4_SUBNET: &'static str = "/8";

/// Name of the primary network interface.
pub const DEFAULT_NET_DEV: &'static str = "eth0";

/// Link-local IPv6 address assigned to the primary interface.
pub const DEFAULT_NET_DEV_IPV6: &'static str = "fe80::2";

pub const DEFAULT_NET_DEV_IPV6_SUBNET: &'static str = "/64";

/// Input device that delivers power-button events.
pub const POWER_BUTTON_DEVICE: &'static str = "/dev/input/event0";

} // verus!
