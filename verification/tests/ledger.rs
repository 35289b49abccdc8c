use auction::ledger::Ledger;
use auction::pubkey::Pubkey;

fn key(n: u8) -> Pubkey {
    Pubkey::new([n; 32])
}

#[test]
fn transfer_moves_lamports() {
    let mut l = Ledger::new();
    assert!(l.add_account(key(1), 100));
    assert!(l.add_account(key(2), 5));
    assert!(l.transfer(&key(1), &key(2), 30));
    assert_eq!(l.lamports_of(&key(1)), Some(70));
    assert_eq!(l.lamports_of(&key(2)), Some(35));
}

#[test]
fn transfer_to_self_keeps_balance() {
    let mut l = Ledger::new();
    assert!(l.add_account(key(1), 100));
    assert!(l.transfer(&key(1), &key(1), 100));
    assert_eq!(l.lamports_of(&key(1)), Some(100));
    assert!(!l.transfer(&key(1), &key(1), 101));
}

#[test]
fn transfer_over_balance_aborts() {
    let mut l = Ledger::new();
    assert!(l.add_account(key(1), 10));
    assert!(l.add_account(key(2), 0));
    assert!(!l.transfer(&key(1), &key(2), 11));
    assert_eq!(l.lamports_of(&key(1)), Some(10));
    assert_eq!(l.lamports_of(&key(2)), Some(0));
}

#[test]
fn transfer_overflowing_receiver_aborts() {
    let mut l = Ledger::new();
    assert!(l.add_account(key(1), 10));
    assert!(l.add_account(key(2), u64::MAX - 5));
    assert!(!l.transfer(&key(1), &key(2), 6));
    assert!(l.transfer(&key(1), &key(2), 5));
    assert_eq!(l.lamports_of(&key(2)), Some(u64::MAX));
}

#[test]
fn transfer_with_unknown_account_aborts() {
    let mut l = Ledger::new();
    assert!(l.add_account(key(1), 10));
    assert!(!l.transfer(&key(1), &key(3), 1));
    assert!(!l.transfer(&key(3), &key(1), 0));
}

#[test]
fn accounts_are_added_once() {
    let mut l = Ledger::new();
    assert!(l.add_account(key(1), 10));
    assert!(!l.add_account(key(1), 20));
    assert_eq!(l.lamports_of(&key(1)), Some(10));
    assert_eq!(l.lamports_of(&key(2)), None);
}

#[test]
fn total_is_conserved_over_transfers() {
    let mut l = Ledger::new();
    for (k, v) in [(1u8, 500u64), (2, 300), (3, 0)] {
        assert!(l.add_account(key(k), v));
    }
    assert!(l.transfer(&key(1), &key(3), 250));
    assert!(l.transfer(&key(2), &key(1), 300));
    assert!(!l.transfer(&key(3), &key(2), 251));
    let total: u64 = [1u8, 2, 3].iter().map(|k| l.lamports_of(&key(*k)).unwrap()).sum();
    assert_eq!(total, 800);
}

#[test]
fn same_compares_bytes() {
    let mut b = [7u8; 32];
    assert!(Pubkey::new(b).same(&Pubkey::new([7u8; 32])));
    b[31] = 8;
    assert!(!Pubkey::new(b).same(&Pubkey::new([7u8; 32])));
}
