use lockstep::PlayerNum;

#[test]
fn test_from_u8() {
    let num: PlayerNum = PlayerNum::from_u8(5u8);
    assert_eq!(num, PlayerNum::from_u8(5));
}

#[test]
fn test_try_from_u32() {
    let num = PlayerNum::try_from(42u32).unwrap();
    assert_eq!(num, PlayerNum::from_u8(42));
}

#[test]
fn test_try_from_u32_out_of_range() {
    assert!(PlayerNum::try_from(300u32).is_err());
}

#[test]
fn test_try_from_usize() {
    let num = PlayerNum::try_from_usize(100usize).unwrap();
    assert_eq!(num, PlayerNum::from_u8(100));
}

#[test]
fn test_try_from_usize_out_of_range() {
    assert!(PlayerNum::try_from_usize(300usize).is_err());
}

#[test]
fn test_into_values() {
    let num = PlayerNum::from_u8(7);
    let val_u8: u8 = num.as_u8();
    assert_eq!(val_u8, 7);

    let num = PlayerNum::from_u8(8);
    let val_u32: u32 = num.as_u8() as u32;
    assert_eq!(val_u32, 8);

    let num = PlayerNum::from_u8(9);
    let val_string: String = num.to_decimal_string();
    assert_eq!(val_string, "9");
}

#[test]
fn test_host_guest_roles() {
    let host = PlayerNum::new_host();
    assert!(host.is_host());
    assert!(!host.is_guest());
    assert_eq!(host.guest_index(), None);

    let guest = PlayerNum::new_guest(3);
    assert!(guest.is_guest());
    assert_eq!(guest.guest_index(), Some(2));
    assert_eq!(PlayerNum::from_guest_index(2), guest);
}

#[test]
fn test_to_decimal_string_multi_digit() {
    assert_eq!(PlayerNum::from_u8(0).to_decimal_string(), "0");
    assert_eq!(PlayerNum::from_u8(10).to_decimal_string(), "10");
    assert_eq!(PlayerNum::from_u8(42).to_decimal_string(), "42");
    assert_eq!(PlayerNum::from_u8(255).to_decimal_string(), "255");
}
