//! Tests of the fixed-width input-event decoder and the power decision.

use auraed::power::INPUT_EVENT_SIZE;
use auraed::power::KEY_POWER;
use auraed::power::PowerDecision;
use auraed::power::parse_input_event;
use auraed::power::power_button_decision;

fn record(tv_sec: u64, tv_usec: u64, evtype: u16, code: u16, value: u32) -> Vec<u8> {
    let mut b = Vec::new();
    b.extend_from_slice(&tv_sec.to_le_bytes());
    b.extend_from_slice(&tv_usec.to_le_bytes());
    b.extend_from_slice(&evtype.to_le_bytes());
    b.extend_from_slice(&code.to_le_bytes());
    b.extend_from_slice(&value.to_le_bytes());
    b
}

#[test]
fn decodes_all_fields_little_endian() {
    let bytes = record(0x0102030405060708, 42, 1, 116, 0xdeadbeef);
    assert_eq!(bytes.len(), INPUT_EVENT_SIZE);
    let ev = parse_input_event(&bytes).unwrap();
    assert_eq!(ev.tv_sec, 0x0102030405060708);
    assert_eq!(ev.tv_usec, 42);
    assert_eq!(ev.evtype, 1);
    assert_eq!(ev.code, 116);
    assert_eq!(ev.value, 0xdeadbeef);
}

#[test]
fn refuses_records_of_the_wrong_size() {
    assert_eq!(parse_input_event(&Vec::new()), None);
    assert_eq!(parse_input_event(&vec![0; 23]), None);
    assert_eq!(parse_input_event(&vec![0; 25]), None);
}

#[test]
fn power_key_triggers_power_off() {
    let press = parse_input_event(&record(0, 0, 1, KEY_POWER, 1)).unwrap();
    assert_eq!(power_button_decision(&press), PowerDecision::PowerOff);

    let other = parse_input_event(&record(0, 0, 1, 30, 1)).unwrap();
    assert_eq!(power_button_decision(&other), PowerDecision::Ignore);
}
