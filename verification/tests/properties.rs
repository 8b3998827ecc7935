use erc20::AccountId;
use erc20::Erc20;
use erc20::Event;
use erc20::TransferError;

fn acct(tag: u8) -> AccountId {
    AccountId::from([tag; 32])
}

#[test]
fn genesis_mints_whole_supply_to_holder() {
    let ledger = Erc20::new(acct(0xA), 99);
    assert_eq!(ledger.total_supply(), 99);
    assert_eq!(ledger.balance_of(acct(0xA)), 99);
    assert_eq!(ledger.balance_of(acct(0xB)), 0);
    assert_eq!(
        ledger.events().as_slice(),
        &[Event::Transfer { from: None, to: Some(acct(0xA)), value: 99 }]
    );
}

#[test]
fn direct_transfer_moves_exactly_the_value() {
    let mut ledger = Erc20::new(acct(0xA), 99);
    assert!(ledger.transfer(acct(0xA), acct(0xB), 10));
    assert_eq!(ledger.balance_of(acct(0xA)), 89);
    assert_eq!(ledger.balance_of(acct(0xB)), 10);
    assert_eq!(ledger.total_supply(), 99);
}

#[test]
fn approval_then_delegated_transfer() {
    let mut ledger = Erc20::new(acct(0xA), 99);
    assert!(ledger.approve(acct(0xA), acct(0xC), 18));
    assert_eq!(ledger.allowance_of(acct(0xA), acct(0xC)), 18);
    assert!(ledger.transfer_from(acct(0xC), acct(0xA), acct(0xD), 15).is_ok());
    assert_eq!(ledger.balance_of(acct(0xD)), 15);
    assert_eq!(ledger.balance_of(acct(0xA)), 84);
    assert_eq!(ledger.allowance_of(acct(0xA), acct(0xC)), 3);
}

#[test]
fn insufficient_allowance_changes_nothing() {
    let mut ledger = Erc20::new(acct(0xA), 99);
    assert!(ledger.approve(acct(0xA), acct(0xC), 18));
    let r = ledger.transfer_from(acct(0xC), acct(0xA), acct(0xD), 19);
    assert_eq!(r, Err(TransferError::InsufficientAllowance));
    assert_eq!(ledger.balance_of(acct(0xA)), 99);
    assert_eq!(ledger.balance_of(acct(0xD)), 0);
    assert_eq!(ledger.allowance_of(acct(0xA), acct(0xC)), 18);
}

#[test]
fn insufficient_balance_changes_nothing() {
    let mut ledger = Erc20::new(acct(0xA), 99);
    let before: u128 = ledger.balance_of(acct(0xA));
    assert!(!ledger.transfer(acct(0xA), acct(0xB), before + 1));
    assert_eq!(ledger.balance_of(acct(0xA)), 99);
    assert_eq!(ledger.balance_of(acct(0xB)), 0);
    assert_eq!(ledger.total_supply(), 99);
}

#[test]
fn failed_funds_move_does_not_consume_allowance() {
    let mut ledger = Erc20::new(acct(0xA), 10);
    // The allowance covers the value; the owner's balance does not.
    assert!(ledger.approve(acct(0xA), acct(0xC), 50));
    let r = ledger.transfer_from(acct(0xC), acct(0xA), acct(0xD), 11);
    assert_eq!(r, Err(TransferError::InsufficientBalance));
    assert_eq!(ledger.allowance_of(acct(0xA), acct(0xC)), 50);
    assert_eq!(ledger.balance_of(acct(0xA)), 10);
    assert_eq!(ledger.balance_of(acct(0xD)), 0);
}

#[test]
fn self_transfer_bypasses_allowance_checks() {
    let mut ledger = Erc20::new(acct(0xA), 99);
    // No allowance for (A, A) exists, and one of 0 is set explicitly:
    // the owner still moves their own funds through the delegated entry point.
    assert!(ledger.approve(acct(0xA), acct(0xA), 0));
    assert!(ledger.transfer_from(acct(0xA), acct(0xA), acct(0xB), 40).is_ok());
    assert_eq!(ledger.balance_of(acct(0xA)), 59);
    assert_eq!(ledger.balance_of(acct(0xB)), 40);
    // The self-pair allowance was neither required nor consumed.
    assert_eq!(ledger.allowance_of(acct(0xA), acct(0xA)), 0);
}

#[test]
fn self_transfer_keeps_balances_but_emits_record() {
    let mut ledger = Erc20::new(acct(0xA), 99);
    let events_before: usize = ledger.events().len();
    assert!(ledger.transfer(acct(0xA), acct(0xA), 30));
    assert_eq!(ledger.balance_of(acct(0xA)), 99);
    assert_eq!(ledger.events().len(), events_before + 1);
    assert_eq!(
        ledger.events().last(),
        Some(&Event::Transfer { from: Some(acct(0xA)), to: Some(acct(0xA)), value: 30 })
    );
}

#[test]
fn approve_overwrites_instead_of_accumulating() {
    let mut ledger = Erc20::new(acct(0xA), 99);
    assert!(ledger.approve(acct(0xA), acct(0xC), 18));
    assert!(ledger.approve(acct(0xA), acct(0xC), 5));
    assert_eq!(ledger.allowance_of(acct(0xA), acct(0xC)), 5);
    // Setting 0 revokes.
    assert!(ledger.approve(acct(0xA), acct(0xC), 0));
    assert_eq!(ledger.allowance_of(acct(0xA), acct(0xC)), 0);
}

#[test]
fn delegated_transfer_leaves_other_allowances_alone() {
    let mut ledger = Erc20::new(acct(0xA), 99);
    assert!(ledger.approve(acct(0xA), acct(0xC), 18));
    assert!(ledger.approve(acct(0xA), acct(0xE), 7));
    assert!(ledger.approve(acct(0xB), acct(0xC), 9));
    assert!(ledger.transfer_from(acct(0xC), acct(0xA), acct(0xD), 15).is_ok());
    assert_eq!(ledger.allowance_of(acct(0xA), acct(0xC)), 3);
    assert_eq!(ledger.allowance_of(acct(0xA), acct(0xE)), 7);
    assert_eq!(ledger.allowance_of(acct(0xB), acct(0xC)), 9);
}

#[test]
fn delegated_transfer_emits_transfer_then_approval() {
    let mut ledger = Erc20::new(acct(0xA), 99);
    assert!(ledger.approve(acct(0xA), acct(0xC), 18));
    let events_before: usize = ledger.events().len();
    assert!(ledger.transfer_from(acct(0xC), acct(0xA), acct(0xD), 15).is_ok());
    let events = ledger.events();
    assert_eq!(events.len(), events_before + 2);
    assert_eq!(
        events[events_before],
        Event::Transfer { from: Some(acct(0xA)), to: Some(acct(0xD)), value: 15 }
    );
    assert_eq!(
        events[events_before + 1],
        Event::Approval { owner: acct(0xA), spender: acct(0xC), value: 3 }
    );
}

#[test]
fn whole_supply_can_move_at_the_largest_size() {
    let mut ledger = Erc20::new(acct(0xA), u128::MAX);
    assert!(ledger.transfer(acct(0xA), acct(0xB), u128::MAX));
    assert_eq!(ledger.balance_of(acct(0xA)), 0);
    assert_eq!(ledger.balance_of(acct(0xB)), u128::MAX);
    assert_eq!(ledger.total_supply(), u128::MAX);
}

#[test]
fn zero_value_operations_succeed() {
    let mut ledger = Erc20::new(acct(0xA), 99);
    assert!(ledger.transfer(acct(0xA), acct(0xB), 0));
    assert_eq!(ledger.balance_of(acct(0xB)), 0);
    // Even an account that holds nothing can send 0.
    assert!(ledger.transfer(acct(0xB), acct(0xA), 0));
    // A spender with no allowance can move 0 on the owner's behalf.
    assert!(ledger.transfer_from(acct(0xC), acct(0xA), acct(0xB), 0).is_ok());
    assert_eq!(ledger.allowance_of(acct(0xA), acct(0xC)), 0);
}

#[test]
fn supply_is_conserved_across_a_run_of_operations() {
    let mut ledger = Erc20::new(acct(0xA), 1000);
    assert!(ledger.transfer(acct(0xA), acct(0xB), 250));
    assert!(ledger.approve(acct(0xA), acct(0xC), 600));
    assert!(ledger.transfer_from(acct(0xC), acct(0xA), acct(0xD), 500).is_ok());
    assert!(!ledger.transfer(acct(0xB), acct(0xD), 251));
    assert!(ledger.transfer(acct(0xD), acct(0xA), 100));
    let sum: u128 = ledger.balance_of(acct(0xA))
        + ledger.balance_of(acct(0xB))
        + ledger.balance_of(acct(0xC))
        + ledger.balance_of(acct(0xD));
    assert_eq!(sum, 1000);
    assert_eq!(ledger.total_supply(), 1000);
}
