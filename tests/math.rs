use auction_pool::address::Address;
use auction_pool::codec::is_blank;
use auction_pool::math::{floor_sqrt, mul_div_floor};

#[test]
fn floor_sqrt_values() {
    assert_eq!(floor_sqrt(0), 0);
    assert_eq!(floor_sqrt(1), 1);
    assert_eq!(floor_sqrt(15), 3);
    assert_eq!(floor_sqrt(16), 4);
    assert_eq!(floor_sqrt(4_000_000), 2000);
    assert_eq!(floor_sqrt(u128::MAX), u64::MAX);
    assert_eq!(floor_sqrt((u64::MAX as u128) * (u64::MAX as u128) - 1), u64::MAX - 1);
}

#[test]
fn mul_div_floor_values() {
    assert_eq!(mul_div_floor(7, 1001, 2000), 3);
    assert_eq!(mul_div_floor(u64::MAX, u64::MAX, 1), (u64::MAX as u128) * (u64::MAX as u128));
    assert_eq!(mul_div_floor(0, 5, 3), 0);
}

#[test]
fn nobody_address() {
    assert!(Address::none().is_nobody());
    let mut b = [0u8; 32];
    b[31] = 1;
    assert!(!Address::new(b).is_nobody());
    assert!(Address::new(b) != Address::none());
    assert!(Address::new(b) == Address::new(b));
    assert_eq!(Address::new(b).to_vec().len(), 32);
}

#[test]
fn blank_storage() {
    assert!(is_blank(&[]));
    assert!(is_blank(&[0, 0, 0]));
    assert!(!is_blank(&[0, 3, 0]));
}
