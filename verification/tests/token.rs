//! End-to-end exercises of the contract: initialization, registration
//! against storage bills, direct and call-chained transfers, and the
//! owner-gated mint.

use ft::contract::{Contract, HookOutcome};
use ft::error::TokenError;
use ft::metadata::TokenMetadata;

const TOTAL_SUPPLY: u128 = 1_000_000_000_000_000;

fn acct(name: &str) -> String {
    name.to_string()
}

/// A contract freshly initialized for `owner`, with default metadata.
fn init(owner: &str, total_supply: u128) -> Contract {
    Contract::new_default_meta(acct(owner), total_supply, false).unwrap()
}

/// Registers `name` paying exactly the storage bill of 125 bytes at a
/// price of 10 per byte.
fn register_paid(contract: &mut Contract, name: &str) {
    let refund = contract
        .register(&acct(name), 1250, 1000, 1125, 10)
        .unwrap();
    assert_eq!(refund, 0);
}

#[test]
fn test_new() {
    let contract = init("bob", TOTAL_SUPPLY);
    assert_eq!(contract.total_supply(), TOTAL_SUPPLY);
    assert_eq!(contract.balance_of(&acct("bob")), TOTAL_SUPPLY);
}

#[test]
fn test_transfer() {
    let mut contract = init("charlie", TOTAL_SUPPLY);
    register_paid(&mut contract, "bob");

    let transfer_amount = TOTAL_SUPPLY / 3;
    contract
        .transfer(&acct("charlie"), &acct("bob"), transfer_amount, None, 1)
        .unwrap();

    assert_eq!(
        contract.balance_of(&acct("charlie")),
        TOTAL_SUPPLY - transfer_amount
    );
    assert_eq!(contract.balance_of(&acct("bob")), transfer_amount);
}

#[test]
fn test_default_metadata() {
    let contract = init("owner", 0);
    let meta = contract.ft_metadata();
    assert_eq!(meta.spec_id, "ft-1.0.0");
    assert_eq!(meta.name, "INIT Token");
    assert_eq!(meta.symbol, "INIT");
    assert_eq!(meta.decimals, 24);
    assert!(meta.reference.is_none());
    assert!(meta.reference_hash.is_none());
    assert!(meta.is_valid());
}

#[test]
fn test_new_with_metadata() {
    let meta = TokenMetadata {
        spec_id: "ft-1.0.0".to_string(),
        name: "Example Token".to_string(),
        symbol: "EXT".to_string(),
        icon: Some("data:image/svg+xml,<svg/>".to_string()),
        reference: Some("https://example.com/meta.json".to_string()),
        reference_hash: Some(vec![7u8; 32]),
        decimals: 18,
    };
    assert!(meta.is_valid());
    let contract = Contract::new(acct("owner"), 42, meta, false).unwrap();
    assert_eq!(contract.ft_metadata().name, "Example Token");
    assert_eq!(contract.ft_metadata().decimals, 18);
    assert_eq!(contract.total_supply(), 42);
    assert_eq!(contract.owner().as_str(), "owner");
}

#[test]
fn test_metadata_validity() {
    let mut meta = TokenMetadata {
        spec_id: "ft-1.0.0".to_string(),
        name: "T".to_string(),
        symbol: "T".to_string(),
        icon: None,
        reference: Some("https://example.com".to_string()),
        reference_hash: None,
        decimals: 0,
    };
    // A reference without its content hash is invalid.
    assert!(!meta.is_valid());
    meta.reference_hash = Some(vec![0u8; 31]);
    // A hash of the wrong length is invalid.
    assert!(!meta.is_valid());
    meta.reference_hash = Some(vec![0u8; 32]);
    assert!(meta.is_valid());
    meta.spec_id = "ft-0.9.0".to_string();
    // The wrong specification identifier is invalid.
    assert!(!meta.is_valid());
}

#[test]
fn test_already_initialized() {
    let r = Contract::new_default_meta(acct("owner"), 1, true);
    assert!(matches!(r, Err(TokenError::AlreadyInitialized)));
}

#[test]
fn test_register_idempotent() {
    let mut contract = init("owner", TOTAL_SUPPLY);
    register_paid(&mut contract, "bob");
    contract
        .transfer(&acct("owner"), &acct("bob"), 77, None, 1)
        .unwrap();

    // A second registration returns the whole payment and leaves the
    // balance untouched.
    let refund = contract.register(&acct("bob"), 9999, 1000, 1125, 10).unwrap();
    assert_eq!(refund, 9999);
    assert_eq!(contract.balance_of(&acct("bob")), 77);
}

#[test]
fn test_register_exact_settlement() {
    let mut contract = init("owner", TOTAL_SUPPLY);
    // 125 marginal bytes at 10 per byte cost exactly 1250; the rest of
    // the payment comes back.
    let refund = contract.register(&acct("bob"), 2000, 1000, 1125, 10).unwrap();
    assert_eq!(refund, 2000 - 1250);
    assert_eq!(contract.balance_of(&acct("bob")), 0);
    assert!(contract.is_registered(&acct("bob")));
}

#[test]
fn test_register_insufficient_deposit() {
    let mut contract = init("owner", TOTAL_SUPPLY);
    let r = contract.register(&acct("bob"), 1249, 1000, 1125, 10);
    assert!(matches!(r, Err(TokenError::InsufficientStorageDeposit)));
    assert!(!contract.is_registered(&acct("bob")));
}

#[test]
fn test_register_cost_overflow() {
    let mut contract = init("owner", TOTAL_SUPPLY);
    let r = contract.register(&acct("bob"), u128::MAX, 0, 2, u128::MAX);
    assert!(matches!(r, Err(TokenError::Overflow)));
    assert!(!contract.is_registered(&acct("bob")));
}

#[test]
fn test_unregister_refund() {
    let mut contract = init("owner", TOTAL_SUPPLY);
    register_paid(&mut contract, "bob");
    // 125 bytes freed at 10 per byte refund exactly 1250.
    let refund = contract
        .unregister(&acct("bob"), false, 1125, 1000, 10)
        .unwrap();
    assert_eq!(refund, 1250);
    assert!(!contract.is_registered(&acct("bob")));
    assert_eq!(contract.total_supply(), TOTAL_SUPPLY);
}

#[test]
fn test_unregister_with_balance() {
    let mut contract = init("owner", TOTAL_SUPPLY);
    register_paid(&mut contract, "bob");
    contract
        .transfer(&acct("owner"), &acct("bob"), 500, None, 1)
        .unwrap();

    let r = contract.unregister(&acct("bob"), false, 1125, 1000, 10);
    assert!(matches!(r, Err(TokenError::AccountHasBalance)));
    assert!(contract.is_registered(&acct("bob")));

    // Forced removal burns the balance: the supply shrinks by it.
    let refund = contract
        .unregister(&acct("bob"), true, 1125, 1000, 10)
        .unwrap();
    assert_eq!(refund, 1250);
    assert!(!contract.is_registered(&acct("bob")));
    assert_eq!(contract.total_supply(), TOTAL_SUPPLY - 500);
}

#[test]
fn test_unregister_unknown_account() {
    let mut contract = init("owner", TOTAL_SUPPLY);
    let refund = contract
        .unregister(&acct("nobody"), false, 1000, 1000, 10)
        .unwrap();
    assert_eq!(refund, 0);
    assert_eq!(contract.total_supply(), TOTAL_SUPPLY);
}

#[test]
fn test_transfer_zero_amount() {
    let mut contract = init("owner", TOTAL_SUPPLY);
    register_paid(&mut contract, "bob");
    let r = contract.transfer(&acct("owner"), &acct("bob"), 0, None, 1);
    assert!(matches!(r, Err(TokenError::ZeroAmount)));
    assert_eq!(contract.balance_of(&acct("owner")), TOTAL_SUPPLY);
}

#[test]
fn test_transfer_to_self() {
    let mut contract = init("owner", TOTAL_SUPPLY);
    let r = contract.transfer(&acct("owner"), &acct("owner"), 5, None, 1);
    assert!(matches!(r, Err(TokenError::SelfTransfer)));
    assert_eq!(contract.balance_of(&acct("owner")), TOTAL_SUPPLY);
}

#[test]
fn test_transfer_receiver_not_registered() {
    let mut contract = init("owner", TOTAL_SUPPLY);
    let r = contract.transfer(&acct("owner"), &acct("bob"), 100, None, 1);
    assert!(matches!(r, Err(TokenError::ReceiverNotRegistered)));
    assert_eq!(contract.balance_of(&acct("owner")), TOTAL_SUPPLY);
    assert_eq!(contract.balance_of(&acct("bob")), 0);
}

#[test]
fn test_transfer_without_attached_payment() {
    let mut contract = init("owner", TOTAL_SUPPLY);
    register_paid(&mut contract, "bob");
    let r = contract.transfer(&acct("owner"), &acct("bob"), 100, None, 0);
    assert!(matches!(r, Err(TokenError::InsufficientAttachedPayment)));
    assert_eq!(contract.balance_of(&acct("bob")), 0);
}

#[test]
fn test_transfer_insufficient_balance_is_atomic() {
    let mut contract = init("owner", 1_000);
    register_paid(&mut contract, "bob");
    let r = contract.transfer(&acct("owner"), &acct("bob"), 1_001, None, 1);
    assert!(matches!(r, Err(TokenError::InsufficientBalance)));
    // Neither side moved.
    assert_eq!(contract.balance_of(&acct("owner")), 1_000);
    assert_eq!(contract.balance_of(&acct("bob")), 0);
    assert_eq!(contract.total_supply(), 1_000);
}

#[test]
fn test_owner_transfer_scenario() {
    let mut contract = init("o", 1_000_000);
    assert_eq!(contract.balance_of(&acct("o")), 1_000_000);
    register_paid(&mut contract, "b");
    contract
        .transfer(&acct("o"), &acct("b"), 300_000, None, 1)
        .unwrap();
    assert_eq!(contract.balance_of(&acct("o")), 700_000);
    assert_eq!(contract.balance_of(&acct("b")), 300_000);
    assert_eq!(contract.total_supply(), 1_000_000);
}

#[test]
fn test_mint_by_owner() {
    let mut contract = init("owner", TOTAL_SUPPLY);
    register_paid(&mut contract, "bob");
    contract.mint(&acct("owner"), &acct("bob"), 2_500).unwrap();
    assert_eq!(contract.balance_of(&acct("bob")), 2_500);
    assert_eq!(contract.total_supply(), TOTAL_SUPPLY + 2_500);
}

#[test]
fn test_mint_not_authorized() {
    let mut contract = init("owner", TOTAL_SUPPLY);
    register_paid(&mut contract, "bob");
    let r = contract.mint(&acct("bob"), &acct("bob"), 2_500);
    assert!(matches!(r, Err(TokenError::NotAuthorized)));
    assert_eq!(contract.total_supply(), TOTAL_SUPPLY);
    assert_eq!(contract.balance_of(&acct("bob")), 0);
}

#[test]
fn test_mint_unregistered_receiver() {
    let mut contract = init("owner", TOTAL_SUPPLY);
    let r = contract.mint(&acct("owner"), &acct("bob"), 2_500);
    assert!(matches!(r, Err(TokenError::ReceiverNotRegistered)));
    assert_eq!(contract.total_supply(), TOTAL_SUPPLY);
}

#[test]
fn test_mint_overflow() {
    let mut contract = init("owner", u128::MAX - 10);
    let r = contract.mint(&acct("owner"), &acct("owner"), 11);
    assert!(matches!(r, Err(TokenError::Overflow)));
    assert_eq!(contract.total_supply(), u128::MAX - 10);
    contract.mint(&acct("owner"), &acct("owner"), 10).unwrap();
    assert_eq!(contract.total_supply(), u128::MAX);
}

#[test]
fn test_notify_partial_use() {
    let mut contract = init("o", TOTAL_SUPPLY);
    register_paid(&mut contract, "c");
    let before_o = contract.balance_of(&acct("o"));

    let pending = contract
        .transfer_and_notify(&acct("o"), &acct("c"), 500, None, "payload".to_string(), 1)
        .unwrap();
    assert_eq!(pending.sender().as_str(), "o");
    assert_eq!(pending.receiver().as_str(), "c");
    assert_eq!(pending.amount(), 500);
    assert_eq!(pending.payload().as_str(), "payload");
    assert_eq!(contract.balance_of(&acct("o")), before_o - 500);
    assert_eq!(contract.balance_of(&acct("c")), 500);

    // The hook used 200 of 500: 300 come back, a net transfer of 200.
    let used = contract.resolve_transfer(&pending, HookOutcome::Used(200));
    assert_eq!(used, 200);
    assert_eq!(contract.balance_of(&acct("o")), before_o - 200);
    assert_eq!(contract.balance_of(&acct("c")), 200);
    assert_eq!(contract.total_supply(), TOTAL_SUPPLY);
}

#[test]
fn test_notify_hook_failure_reverses_all() {
    let mut contract = init("o", TOTAL_SUPPLY);
    register_paid(&mut contract, "c");
    let pending = contract
        .transfer_and_notify(&acct("o"), &acct("c"), 500, None, String::new(), 1)
        .unwrap();
    let used = contract.resolve_transfer(&pending, HookOutcome::Failed);
    assert_eq!(used, 0);
    assert_eq!(contract.balance_of(&acct("o")), TOTAL_SUPPLY);
    assert_eq!(contract.balance_of(&acct("c")), 0);
}

#[test]
fn test_notify_refund_bounded_by_receiver_balance() {
    let mut contract = init("o", TOTAL_SUPPLY);
    register_paid(&mut contract, "c");
    register_paid(&mut contract, "d");
    let pending = contract
        .transfer_and_notify(&acct("o"), &acct("c"), 500, None, String::new(), 1)
        .unwrap();
    // The receiver spends 450 before the hook's outcome arrives; only
    // the 50 it still holds can come back.
    contract
        .transfer(&acct("c"), &acct("d"), 450, None, 1)
        .unwrap();
    let used = contract.resolve_transfer(&pending, HookOutcome::Failed);
    assert_eq!(used, 450);
    assert_eq!(contract.balance_of(&acct("c")), 0);
    assert_eq!(contract.balance_of(&acct("o")), TOTAL_SUPPLY - 450);
    assert_eq!(contract.balance_of(&acct("d")), 450);
    assert_eq!(contract.total_supply(), TOTAL_SUPPLY);
}

#[test]
fn test_notify_refund_to_gone_sender_is_burned() {
    let mut contract = init("o", TOTAL_SUPPLY);
    register_paid(&mut contract, "b");
    register_paid(&mut contract, "c");
    contract
        .transfer(&acct("o"), &acct("b"), 1_000, None, 1)
        .unwrap();
    let pending = contract
        .transfer_and_notify(&acct("b"), &acct("c"), 500, None, String::new(), 1)
        .unwrap();
    // The sender leaves before reconciliation; its remaining balance is
    // burned by the forced exit, and the reversal is burned too.
    contract.unregister(&acct("b"), true, 1125, 1000, 10).unwrap();
    assert_eq!(contract.total_supply(), TOTAL_SUPPLY - 500);
    let used = contract.resolve_transfer(&pending, HookOutcome::Failed);
    assert_eq!(used, 0);
    assert_eq!(contract.balance_of(&acct("c")), 0);
    assert_eq!(contract.balance_of(&acct("b")), 0);
    assert_eq!(contract.total_supply(), TOTAL_SUPPLY - 1_000);
}

#[test]
fn test_conservation_across_operations() {
    let mut contract = init("o", 10_000);
    let names = ["o", "b", "c", "d"];
    let sum_of = |c: &Contract| -> u128 {
        names.iter().map(|n| c.balance_of(&acct(n))).sum()
    };
    assert_eq!(contract.total_supply(), sum_of(&contract));
    register_paid(&mut contract, "b");
    assert_eq!(contract.total_supply(), sum_of(&contract));
    register_paid(&mut contract, "c");
    contract.transfer(&acct("o"), &acct("b"), 4_000, None, 1).unwrap();
    assert_eq!(contract.total_supply(), sum_of(&contract));
    contract.transfer(&acct("b"), &acct("c"), 1_500, None, 1).unwrap();
    assert_eq!(contract.total_supply(), sum_of(&contract));
    let pending = contract
        .transfer_and_notify(&acct("c"), &acct("b"), 700, None, String::new(), 1)
        .unwrap();
    assert_eq!(contract.total_supply(), sum_of(&contract));
    contract.resolve_transfer(&pending, HookOutcome::Used(100));
    assert_eq!(contract.total_supply(), sum_of(&contract));
    let refund = contract.unregister(&acct("c"), false, 1125, 1000, 10);
    // "c" still holds tokens, so the unforced exit is refused and the
    // sum is untouched.
    assert!(matches!(refund, Err(TokenError::AccountHasBalance)));
    assert_eq!(contract.total_supply(), sum_of(&contract));
    assert_eq!(contract.total_supply(), 10_000);
}
