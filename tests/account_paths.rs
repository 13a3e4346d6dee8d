use multi_party_ecdsa::account::{account_path, account_usage};

#[test]
fn path_for_first_receive_account() {
    let path = account_path::init(0, 0, account_usage::Receive);
    assert_eq!(path.get_path_string_bip44(), "m/44/0/0/0");
}

#[test]
fn path_with_multi_digit_components() {
    let path = account_path::init(60, 1234567890, account_usage::Change);
    assert_eq!(path.get_path_string_bip44(), "m/44/60/1234567890/1");
}

#[test]
fn path_with_largest_components() {
    let path = account_path::init(u32::MAX, 10, account_usage::Receive);
    assert_eq!(path.get_path_string_bip44(), "m/44/4294967295/10/0");
}

#[test]
fn usage_numbers_round_trip() {
    assert_eq!(account_usage::Receive.get_num(), 0);
    assert_eq!(account_usage::Change.get_num(), 1);
    assert_eq!(account_usage::from_num(0), account_usage::Receive);
    assert_eq!(account_usage::from_num(1), account_usage::Change);
}

#[test]
fn init_keeps_fields() {
    let path = account_path::init(7, 9, account_usage::Change);
    assert_eq!(path.coin_type, 7);
    assert_eq!(path.account_index, 9);
    assert_eq!(path.usage, account_usage::Change);
}
