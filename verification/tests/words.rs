use quarkevm::types::strip_hex_prefix;
use quarkevm::words::{Address, W256};

fn w(x: u64) -> W256 {
    W256::from_u64(x)
}

#[test]
fn from_u64_encodes_big_endian() {
    let v = w(10000000);
    let bytes = v.to_bytes();
    assert_eq!(bytes.len(), 32);
    assert_eq!(&bytes[..29], &[0u8; 29][..]);
    assert_eq!(&bytes[29..], &[0x98, 0x96, 0x80]);
}

#[test]
fn zero_is_zero() {
    assert!(W256::zero().is_zero());
    assert!(!w(1).is_zero());
    assert_eq!(W256::zero(), w(0));
}

#[test]
fn sub_computes_differences() {
    assert_eq!(w(1000).sub(&w(1)), w(999));
    assert_eq!(w(1000).sub(&w(1000)), w(0));
    let max = W256 { b: [0xFF; 32] };
    assert_eq!(max.sub(&max), w(0));
    // borrow across every byte: 0x1_0000_0000 - 1
    let big = W256 {
        b: [
            0, 0, 0, 0, 0, 0, 0, 0, 0, 0, 0, 0, 0, 0, 0, 0, 0, 0, 0, 0, 0, 0, 0, 0, 0, 0, 0, 1,
            0, 0, 0, 0,
        ],
    };
    assert_eq!(big.sub(&w(1)), w(0xFFFF_FFFF));
}

#[test]
fn lt_orders_values() {
    assert!(w(1).lt(&w(2)));
    assert!(!w(2).lt(&w(1)));
    assert!(!w(5).lt(&w(5)));
    let max = W256 { b: [0xFF; 32] };
    assert!(w(12345).lt(&max));
}

#[test]
fn as_u64_round_trips() {
    assert_eq!(w(0).as_u64(), 0);
    assert_eq!(w(1).as_u64(), 1);
    assert_eq!(w(u64::MAX).as_u64(), u64::MAX);
    assert_eq!(w(10000000).as_u64(), 10000000);
}

#[test]
fn from_bytes_checks_width() {
    let ok = W256::from_bytes(&[1u8; 32]);
    assert!(ok.is_some());
    assert_eq!(ok.unwrap().b, [1u8; 32]);
    assert!(W256::from_bytes(&[1u8; 31]).is_none());
    assert!(W256::from_bytes(&[1u8; 33]).is_none());
    assert!(W256::from_bytes(&[]).is_none());
}

#[test]
fn address_from_bytes_checks_width() {
    let ok = Address::from_bytes(&[9u8; 20]);
    assert!(ok.is_some());
    assert_eq!(ok.unwrap().b, [9u8; 20]);
    assert!(Address::from_bytes(&[9u8; 19]).is_none());
    assert!(Address::from_bytes(&[9u8; 21]).is_none());
}

#[test]
fn address_eq_compares_bytes() {
    let a = Address { b: [1u8; 20] };
    let b = Address { b: [1u8; 20] };
    let mut c = Address { b: [1u8; 20] };
    c.b[19] = 2;
    assert!(a.eq(&b));
    assert!(!a.eq(&c));
}

#[test]
fn strip_hex_prefix_requires_0x() {
    assert_eq!(strip_hex_prefix(&b"0xabcd".to_vec()), Some(b"abcd".to_vec()));
    assert_eq!(strip_hex_prefix(&b"0x".to_vec()), Some(Vec::new()));
    assert_eq!(strip_hex_prefix(&b"abcd".to_vec()), None);
    assert_eq!(strip_hex_prefix(&b"0".to_vec()), None);
    assert_eq!(strip_hex_prefix(&b"".to_vec()), None);
}
