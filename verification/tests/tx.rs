use reconnaissance::block_client::Word256;
use reconnaissance::tx::{
    BasicOrdering, NonValidator, PoolError, RecoveredTransaction, Transaction, TxEip1559,
    TxEip2930, TxLegacy, TxPoolTx, ValidationOutcome,
};

fn pool_tx(transaction: Transaction) -> TxPoolTx {
    TxPoolTx::from_recovered_transaction(RecoveredTransaction {
        hash: [0xaa; 32],
        signer: [0xbb; 20],
        transaction,
    })
}

fn legacy() -> Transaction {
    Transaction::Legacy(TxLegacy { nonce: 4, gas_price: 50, gas_limit: 21_000, value: 3 })
}

fn dynamic() -> Transaction {
    Transaction::Eip1559(TxEip1559 {
        nonce: 9,
        gas_limit: 100,
        max_fee_per_gas: 70,
        max_priority_fee_per_gas: 2,
        value: 1_000,
    })
}

fn w(v: u128) -> Word256 {
    Word256::from_u128(v)
}

#[test]
fn accessors_read_the_transaction() {
    let t = pool_tx(legacy());
    assert_eq!(*t.hash(), [0xaa; 32]);
    assert_eq!(t.sender(), [0xbb; 20]);
    assert_eq!(t.nonce(), 4);
    assert_eq!(t.gas_limit(), 21_000);
    assert_eq!(t.to_recovered_transaction().transaction, legacy());
}

#[test]
fn legacy_cost_multiplies_limit_price_and_value() {
    assert_eq!(pool_tx(legacy()).cost(), w(21_000 * 50 * 3));
    let t = Transaction::Eip2930(TxEip2930 { nonce: 0, gas_price: 5, gas_limit: 7, value: 0 });
    assert_eq!(pool_tx(t).cost(), w(0));
}

#[test]
fn dynamic_fee_cost_adds_value() {
    assert_eq!(pool_tx(dynamic()).cost(), w(100 * 70 + 1_000));
}

#[test]
fn gas_prices_by_kind() {
    assert_eq!(pool_tx(legacy()).effective_gas_price(), w(50));
    assert_eq!(pool_tx(dynamic()).effective_gas_price(), w(70));
    assert_eq!(pool_tx(legacy()).max_fee_per_gas(), None);
    assert_eq!(pool_tx(dynamic()).max_fee_per_gas(), Some(w(70)));
    assert_eq!(pool_tx(legacy()).max_priority_fee_per_gas(), None);
    assert_eq!(pool_tx(dynamic()).max_priority_fee_per_gas(), Some(w(2)));
}

#[test]
fn priority_is_the_fee_cap() {
    assert_eq!(BasicOrdering.priority(&pool_tx(legacy())), 50);
    assert_eq!(BasicOrdering.priority(&pool_tx(dynamic())), 70);
    assert_eq!(dynamic().max_fee_per_gas(), 70);
}

#[test]
fn matching_nonce_is_valid() {
    let v = NonValidator::new("provider");
    assert_eq!(*v.provider(), "provider");
    match v.validate_transaction(pool_tx(legacy()), Ok(w(4)), Ok(w(1_000_000))) {
        ValidationOutcome::Valid { balance, state_nonce, transaction } => {
            assert_eq!(balance, w(1_000_000));
            assert_eq!(state_nonce, 4);
            assert_eq!(transaction.nonce(), 4);
        }
        other => panic!("unexpected {:?}", other),
    }
}

#[test]
fn wrong_nonce_is_discarded() {
    let v = NonValidator::new(());
    match v.validate_transaction(pool_tx(legacy()), Ok(w(5)), Ok(w(1))) {
        ValidationOutcome::Invalid(_, PoolError::DiscardedOnInsert(h)) => assert_eq!(h, [0xaa; 32]),
        other => panic!("unexpected {:?}", other),
    }
}

#[test]
fn failed_lookup_is_discarded() {
    let v = NonValidator::new(());
    assert!(matches!(
        v.validate_transaction(pool_tx(legacy()), Err(()), Ok(w(1))),
        ValidationOutcome::Invalid(_, PoolError::DiscardedOnInsert(_))
    ));
    assert!(matches!(
        v.validate_transaction(pool_tx(legacy()), Ok(w(4)), Err(())),
        ValidationOutcome::Invalid(_, PoolError::DiscardedOnInsert(_))
    ));
}

#[test]
fn cost_range_check_catches_overflow() {
    assert!(pool_tx(legacy()).cost_in_range());
    assert!(pool_tx(dynamic()).cost_in_range());
    let huge = Transaction::Legacy(TxLegacy {
        nonce: 0,
        gas_price: u128::MAX / 2,
        gas_limit: 3,
        value: 0,
    });
    assert!(!pool_tx(huge).cost_in_range());
    let big_value = Transaction::Eip1559(TxEip1559 {
        nonce: 0,
        gas_limit: 1,
        max_fee_per_gas: 1,
        max_priority_fee_per_gas: 0,
        value: u128::MAX,
    });
    assert!(!pool_tx(big_value).cost_in_range());
}
