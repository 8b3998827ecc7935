use erc20::AccountId;
use erc20::Erc20;

#[test]
fn contract_new_works() {
    let contract = Erc20::new(AccountId::from([0x1; 32]), 99);
    assert_eq!(contract.total_supply(), 99);
}

#[test]
fn balance_works() {
    let contract = Erc20::new(AccountId::from([0x1; 32]), 99);
    assert_eq!(contract.total_supply(), 99);
    assert_eq!(contract.balance_of(AccountId::from([0x1; 32])), 99);
    assert_eq!(contract.balance_of(AccountId::from([0x2; 32])), 0);
}

#[test]
fn transfer_from_owner_works() {
    let mut contract = Erc20::new(AccountId::from([0x1; 32]), 99);
    assert_eq!(contract.total_supply(), 99);
    assert!(contract.transfer(AccountId::from([0x1; 32]), AccountId::from([0x2; 32]), 10));
    assert_eq!(contract.balance_of(AccountId::from([0x2; 32])), 10);
}

#[test]
fn allownce_works() {
    let mut contract = Erc20::new(AccountId::from([0x1; 32]), 99);
    assert_eq!(contract.total_supply(), 99);
    assert!(contract.approve(AccountId::from([0x1; 32]), AccountId::from([0x3; 32]), 18));
    assert_eq!(contract.approval(AccountId::from([0x1; 32]), AccountId::from([0x3; 32])), 18);
}

#[test]
fn transfer_common_works() {
    let mut contract = Erc20::new(AccountId::from([0x1; 32]), 99);
    assert_eq!(contract.total_supply(), 99);
    assert!(contract.approve(AccountId::from([0x1; 32]), AccountId::from([0x3; 32]), 18));
    assert_eq!(contract.approval(AccountId::from([0x1; 32]), AccountId::from([0x3; 32])), 18);

    assert!(contract.transfer_from_to(
        AccountId::from([0x1; 32]),
        AccountId::from([0x1; 32]),
        AccountId::from([0x4; 32]),
        15
    ));
    assert_eq!(contract.balance_of(AccountId::from([0x4; 32])), 15)
}
