//! Tests of the identity-aware bootstrap sequencer, the root-filesystem
//! mount plan, and the status service.

use auraed::init::BANNER;
use auraed::init::LogLevel;
use auraed::init::LogMode;
use auraed::init::SystemRuntime;
use auraed::init::banner;
use auraed::init::init_rootfs;
use auraed::init::log_level_for;
use auraed::observe::ObserveService;
use auraed::observe::STATUS_UNKNOWN;

#[test]
fn test_socket_path() {
    assert_eq!(auraed::AURAE_SOCK, "/var/run/aurae/aurae.sock");
}

#[test]
fn banner_is_the_fixed_text() {
    assert_eq!(banner(), BANNER);
    assert!(banner().contains("+---"));
}

#[test]
fn rootfs_is_a_no_op_unless_pid1() {
    assert!(init_rootfs(0).is_empty());
    assert!(init_rootfs(2).is_empty());
    assert!(init_rootfs(4242).is_empty());
}

#[test]
fn rootfs_mounts_the_three_pseudo_filesystems() {
    let plan = init_rootfs(1);
    assert_eq!(plan.len(), 3);
    assert_eq!(plan[0].source, "none");
    assert_eq!(plan[0].target, "/dev");
    assert_eq!(plan[0].fstype, "devtmpfs");
    assert_eq!(plan[1].source, "none");
    assert_eq!(plan[1].target, "/sys");
    assert_eq!(plan[1].fstype, "sysfs");
    assert_eq!(plan[2].source, "proc");
    assert_eq!(plan[2].target, "/proc");
    assert_eq!(plan[2].fstype, "proc");
}

#[test]
fn log_level_follows_verbosity() {
    assert_eq!(log_level_for(true), LogLevel::Trace);
    assert_eq!(log_level_for(false), LogLevel::Info);
}

#[test]
fn pid1_takes_on_os_init_responsibilities() {
    let runtime = SystemRuntime { logger_level: LogLevel::Info };
    let plan = runtime.init(1);
    assert!(plan.show_banner);
    assert_eq!(plan.log_mode, LogMode::SimpleOnly);
    assert_eq!(plan.mounts.len(), 3);
    assert!(plan.configure_network);
    assert_eq!(plan.power_button_device.as_deref(), Some("/dev/input/event0"));
}

#[test]
fn supervised_child_only_initializes_logging() {
    let runtime = SystemRuntime { logger_level: LogLevel::Info };
    let plan = runtime.init(724);
    assert!(!plan.show_banner);
    assert_eq!(plan.log_mode, LogMode::SimpleAndSyslog);
    assert!(plan.mounts.is_empty());
    assert!(!plan.configure_network);
    assert!(plan.power_button_device.is_none());
}

#[test]
fn power_listener_watches_the_fixed_device() {
    let runtime = SystemRuntime { logger_level: LogLevel::Trace };
    assert_eq!(runtime.spawn_system_runtime_threads(), auraed::POWER_BUTTON_DEVICE);
}

#[test]
fn status_reports_the_unknown_state() {
    let service = ObserveService::default();
    let response = service.status();
    assert_eq!(response.state, STATUS_UNKNOWN);
    assert_eq!(response.meta.len(), 1);
    assert_eq!(response.meta[0].name, "unknown");
    assert_eq!(response.meta[0].message, "unknown");
}
