use usb_passthrough::table::BusidTable;
use usb_passthrough::wire::{parse_u8, push_decimal, push_hex4, contains_exec, find_byte_exec, bytes_eq};

#[test]
fn table_insert_replace_remove() {
    let mut t: BusidTable<u8> = BusidTable::new();
    assert_eq!(t.insert(b"1-1".to_vec(), 1), None);
    assert_eq!(t.insert(b"1-2".to_vec(), 2), None);
    assert_eq!(t.insert(b"1-1".to_vec(), 3), Some(1));
    assert_eq!(t.len(), 2);
    assert_eq!(t.get(b"1-1"), Some(&3));
    assert!(t.contains_key(b"1-2"));
    assert_eq!(t.remove(b"1-2"), Some(2));
    assert_eq!(t.remove(b"1-2"), None);
    assert_eq!(t.len(), 1);
}

#[test]
fn text_helpers() {
    assert_eq!(parse_u8(b"0"), Some(0));
    assert_eq!(parse_u8(b"+255"), Some(255));
    assert_eq!(parse_u8(b"256"), None);
    assert_eq!(parse_u8(b"+"), None);
    assert_eq!(parse_u8(b""), None);
    assert_eq!(parse_u8(b"-1"), None);
    assert_eq!(parse_u8(b"00000000000000000000012"), Some(12));
    let mut out = Vec::new();
    push_decimal(&mut out, 4294967295);
    assert_eq!(out, b"4294967295".to_vec());
    let mut hex = Vec::new();
    push_hex4(&mut hex, 0xbeef);
    assert_eq!(hex, b"beef".to_vec());
    assert!(contains_exec(b"Port 1", b"Port"));
    assert!(!contains_exec(b"Por", b"Port"));
    assert_eq!(find_byte_exec(b"ab-cd", b'-'), 2);
    assert_eq!(find_byte_exec(b"abcd", b'-'), 4);
    assert!(bytes_eq(b"ab", b"ab"));
    assert!(!bytes_eq(b"ab", b"abc"));
}
