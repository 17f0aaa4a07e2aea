//! Tests of virtual-function provisioning.

use auraed::sriov::SriovError;
use auraed::sriov::SriovStep;
use auraed::sriov::setup_sriov_finish;
use auraed::sriov::setup_sriov_start;

#[test]
fn zero_request_is_a_no_op_without_a_read() {
    assert_eq!(setup_sriov_start("eth0", 0), SriovStep::Done);
}

#[test]
fn nonzero_request_reads_the_capability_file() {
    match setup_sriov_start("eth0", 8) {
        SriovStep::ReadCapability(path) => {
            assert_eq!(path, "/sys/class/net/eth0/device/sriov_totalvfs");
        }
        SriovStep::Done => panic!("a nonzero request must read the capability"),
    }
}

#[test]
fn provisions_the_minimum_of_request_and_capability() {
    // Requested below the capability: the request wins.
    let w = setup_sriov_finish("eth0", 16, Some("63\n")).unwrap();
    assert_eq!(w.count, 16);
    assert_eq!(w.count_text, "16");
    assert_eq!(w.path, "/sys/class/net/eth0/device/sriov_numvfs");

    // Requested above the capability: the capability caps it.
    let w = setup_sriov_finish("eth0", 100, Some("63\n")).unwrap();
    assert_eq!(w.count, 63);
    assert_eq!(w.count_text, "63");

    // Exactly at the capability.
    let w = setup_sriov_finish("eth0", 63, Some("63")).unwrap();
    assert_eq!(w.count, 63);
}

#[test]
fn capability_parsing_handles_boundaries() {
    // The largest value sixteen bits hold.
    let w = setup_sriov_finish("eth0", 7, Some("65535\n")).unwrap();
    assert_eq!(w.count, 7);
    // One past it is refused, not clamped.
    assert_eq!(setup_sriov_finish("eth0", 7, Some("65536\n")), Err(SriovError::CapabilityParse));
    // Leading zeros are digits all the same.
    let w = setup_sriov_finish("eth0", 100, Some("007\n")).unwrap();
    assert_eq!(w.count, 7);
}

#[test]
fn capability_read_failure_is_reported() {
    assert_eq!(setup_sriov_finish("eth0", 4, None), Err(SriovError::CapabilityRead));
}

#[test]
fn capability_parse_failure_is_reported() {
    assert_eq!(
        setup_sriov_finish("eth0", 4, Some("not-a-number\n")),
        Err(SriovError::CapabilityParse)
    );
    assert_eq!(setup_sriov_finish("eth0", 4, Some("")), Err(SriovError::CapabilityParse));
    assert_eq!(setup_sriov_finish("eth0", 4, Some("   \n")), Err(SriovError::CapabilityParse));
    assert_eq!(setup_sriov_finish("eth0", 4, Some("70000\n")), Err(SriovError::CapabilityParse));
    assert_eq!(setup_sriov_finish("eth0", 4, Some("63 64\n")), Err(SriovError::CapabilityParse));
}
