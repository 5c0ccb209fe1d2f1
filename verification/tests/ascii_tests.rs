use doorctl::ascii::{atoi, mac_to_hex, u8_to_hex, AsciiInt};

#[test]
fn test_atoi() {
    assert!(atoi("0".as_bytes()) == Some(0));
    assert!(atoi("5".as_bytes()) == Some(5));
    assert!(atoi("123".as_bytes()) == Some(123));
    assert!(atoi("123456789".as_bytes()) == Some(123456789));
    assert!(atoi("0123456789".as_bytes()) == Some(123456789));
    assert!(atoi("abc".as_bytes()) == None);
    assert!(atoi("123a456".as_bytes()) == None);
}

#[test]
fn test_atoi_overflow_is_refused() {
    assert!(atoi("4294967295".as_bytes()) == Some(u32::MAX));
    assert!(atoi("4294967296".as_bytes()) == None);
    assert!(atoi("99999999999999999999".as_bytes()) == None);
}

#[test]
fn test_itoa() {
    let a: AsciiInt = AsciiInt::from_u64(1);
    assert!("1" == a.as_str(), "got: {:?}", a.as_str());
    let a: AsciiInt = AsciiInt::from_u64(12);
    assert!("12" == a.as_str(), "got: {:?}", a.as_str());
    let a: AsciiInt = AsciiInt::from_u64(123);
    assert!("123" == a.as_str(), "got: {:?}", a.as_str());
    let a: AsciiInt = AsciiInt::from_u64(1203);
    assert!("1203" == a.as_str(), "got: {:?}", a.as_str());
    let a: AsciiInt = AsciiInt::from_u64(12030);
    assert!("12030" == a.as_str(), "got: {:?}", a.as_str());
    let a: AsciiInt = AsciiInt::from_u64(100002);
    assert!("100002" == a.as_str(), "got: {:?}", a.as_str());
}

#[test]
fn test_itoa_zero() {
    let a = AsciiInt::from_u64(0);
    assert!("0" == a.as_str(), "got: {:?}", a.as_str());
    assert_eq!(a.as_bytes(), "0".as_bytes());
}

#[test]
fn test_u8_to_hex() {
    assert_eq!(u8_to_hex(0x00), [b'0', b'0']);
    assert_eq!(u8_to_hex(0x5a), [b'5', b'a']);
    assert_eq!(u8_to_hex(0xff), [b'f', b'f']);
}

#[test]
fn test_mac_to_hex() {
    let hex = mac_to_hex([0xde, 0xad, 0xbe, 0xef, 0x01, 0x23]);
    assert_eq!(&hex, "deadbeef0123".as_bytes());
}
