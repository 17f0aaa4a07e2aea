//! Tests of address-family detection and byte-sequence-to-text conversion.

use auraed::addr::ConvertError;
use auraed::addr::IpType;
use auraed::addr::convert_ipv4_to_string;
use auraed::addr::convert_ipv6_to_string;
use auraed::addr::get_ip_type;

#[test]
fn ip_type_by_length() {
    assert_eq!(get_ip_type(&vec![127, 0, 0, 1]), Some(IpType::V4));
    assert_eq!(get_ip_type(&vec![0; 16]), Some(IpType::V6));
    assert_eq!(get_ip_type(&Vec::new()), None);
    assert_eq!(get_ip_type(&vec![1, 2, 3]), None);
    assert_eq!(get_ip_type(&vec![0; 5]), None);
    assert_eq!(get_ip_type(&vec![0; 17]), None);
}

#[test]
fn ipv4_dotted_decimal() {
    assert_eq!(convert_ipv4_to_string(&vec![127, 0, 0, 1]).unwrap(), "127.0.0.1");
    assert_eq!(convert_ipv4_to_string(&vec![10, 20, 30, 40]).unwrap(), "10.20.30.40");
    assert_eq!(convert_ipv4_to_string(&vec![255, 255, 255, 255]).unwrap(), "255.255.255.255");
    assert_eq!(convert_ipv4_to_string(&vec![0, 0, 0, 0]).unwrap(), "0.0.0.0");
}

#[test]
fn ipv4_wrong_length_fails() {
    assert_eq!(convert_ipv4_to_string(&Vec::new()), Err(ConvertError::WrongLength));
    assert_eq!(convert_ipv4_to_string(&vec![1, 2, 3]), Err(ConvertError::WrongLength));
    assert_eq!(convert_ipv4_to_string(&vec![1, 2, 3, 4, 5]), Err(ConvertError::WrongLength));
    assert_eq!(convert_ipv4_to_string(&vec![0; 16]), Err(ConvertError::WrongLength));
}

#[test]
fn ipv6_loopback_compresses_to_double_colon() {
    let mut bytes = vec![0u8; 16];
    bytes[15] = 1;
    assert_eq!(convert_ipv6_to_string(&bytes).unwrap(), "::1");
    assert_eq!(convert_ipv6_to_string(&vec![0u8; 16]).unwrap(), "::");
}

#[test]
fn ipv6_pairwise_big_endian_groups() {
    let mut bytes = vec![0u8; 16];
    bytes[0] = 0xfe;
    bytes[1] = 0x80;
    bytes[15] = 2;
    assert_eq!(convert_ipv6_to_string(&bytes).unwrap(), "fe80::2");

    let bytes: Vec<u8> = vec![
        0x20, 0x01, 0x0d, 0xb8, 0x11, 0x22, 0x33, 0x44, 0x55, 0x66, 0x77, 0x88, 0x99, 0xaa,
        0xbb, 0xcc,
    ];
    assert_eq!(
        convert_ipv6_to_string(&bytes).unwrap(),
        "2001:db8:1122:3344:5566:7788:99aa:bbcc"
    );
}

#[test]
fn ipv6_compresses_first_longest_zero_run() {
    // One zero group alone is not compressed.
    let bytes: Vec<u8> = vec![
        0x00, 0x01, 0x00, 0x00, 0x00, 0x03, 0x00, 0x04, 0x00, 0x05, 0x00, 0x06, 0x00, 0x07,
        0x00, 0x08,
    ];
    assert_eq!(convert_ipv6_to_string(&bytes).unwrap(), "1:0:3:4:5:6:7:8");

    // Of two equally long runs, the first is compressed.
    let bytes: Vec<u8> = vec![
        0x00, 0x01, 0x00, 0x00, 0x00, 0x00, 0x00, 0x04, 0x00, 0x05, 0x00, 0x00, 0x00, 0x00,
        0x00, 0x08,
    ];
    assert_eq!(convert_ipv6_to_string(&bytes).unwrap(), "1::4:5:0:0:8");
}

#[test]
fn ipv6_wrong_length_fails() {
    assert_eq!(convert_ipv6_to_string(&Vec::new()), Err(ConvertError::WrongLength));
    assert_eq!(convert_ipv6_to_string(&vec![0; 4]), Err(ConvertError::WrongLength));
    assert_eq!(convert_ipv6_to_string(&vec![0; 15]), Err(ConvertError::WrongLength));
    assert_eq!(convert_ipv6_to_string(&vec![0; 17]), Err(ConvertError::WrongLength));
}
