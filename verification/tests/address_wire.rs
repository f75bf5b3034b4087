use randcast_node::address::{address_from_string, address_to_string, Address};
use randcast_node::errors::NodeError;

fn addr(byte: u8) -> Address {
    Address::new(vec![byte; 20]).unwrap()
}

#[test]
fn address_rejects_wrong_length() {
    assert_eq!(Address::new(vec![1u8; 19]).unwrap_err(), NodeError::InvalidAddress);
    assert_eq!(Address::new(vec![1u8; 21]).unwrap_err(), NodeError::InvalidAddress);
    assert!(Address::new(vec![1u8; 20]).is_ok());
}

#[test]
fn address_hex_round_trip() {
    let mut bytes = Vec::new();
    for i in 0..20u8 {
        bytes.push(i.wrapping_mul(13).wrapping_add(7));
    }
    let a = Address::new(bytes).unwrap();
    let text = address_to_string(&a);
    assert_eq!(text.len(), 42);
    assert!(text.starts_with("0x"));
    let b = address_from_string(&text).unwrap();
    assert!(a.equals(&b));
}

#[test]
fn address_hex_known_value() {
    let a = addr(0xab);
    assert_eq!(address_to_string(&a), format!("0x{}", "ab".repeat(20)));
}

#[test]
fn address_parse_rejects_malformed() {
    assert!(address_from_string("").is_none());
    assert!(address_from_string("0x").is_none());
    // one digit short
    assert!(address_from_string(&format!("0x{}", "a".repeat(39))).is_none());
    // no prefix
    assert!(address_from_string(&"a".repeat(42)).is_none());
    // uppercase is not canonical
    assert!(address_from_string(&format!("0x{}", "AB".repeat(20))).is_none());
    // non-hex character
    assert!(address_from_string(&format!("0x{}", "zz".repeat(20))).is_none());
    // canonical form parses
    assert!(address_from_string(&format!("0x{}", "ab".repeat(20))).is_some());
}

#[test]
fn address_equality_is_bytewise() {
    let a = addr(1);
    let b = addr(1);
    let c = addr(2);
    assert!(a.equals(&b));
    assert!(!a.equals(&c));
}
