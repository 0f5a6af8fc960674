use vstd::prelude::*;

use crate::block_client::Word256;

verus! {

/// A legacy transaction's fields that pricing reads.
#[derive(Clone, Copy, Debug, PartialEq, Eq)]
pub struct TxLegacy {
    pub nonce: u64,
    pub gas_price: u128,
    pub gas_limit: u64,
    pub value: u128,
}

/// An access-list transaction's fields that pricing reads.
#[derive(Clone, Copy, Debug, PartialEq, Eq)]
pub struct TxEip2930 {
    pub nonce: u64,
    pub gas_price: u128,
    pub gas_limit: u64,
    pub value: u128,
}

/// A dynamic-fee transaction's fields that pricing reads.
#[derive(Clone, Copy, Debug, PartialEq, Eq)]
pub struct TxEip1559 {
    pub nonce: u64,
    pub gas_limit: u64,
    pub max_fee_per_gas: u128,
    pub max_priority_fee_per_gas: u128,
    pub value: u128,
}

/// A transaction of one of the three kinds the pool accepts.
#[derive(Clone, Copy, Debug, PartialEq, Eq)]
pub enum Transaction {
    Legacy(TxLegacy),
    Eip2930(TxEip2930),
    Eip1559(TxEip1559),
}

impl Transaction {
    /// The sender's nonce for this transaction.
    pub open spec fn nonce_spec(&self) -> u64 {
        match *self {
            Transaction::Legacy(t) => t.nonce,
            Transaction::Eip2930(t) => t.nonce,
            Transaction::Eip1559(t) => t.nonce,
        }
    }

    /// The gas limit of this transaction.
    pub open spec fn gas_limit_spec(&self) -> u64 {
        match *self {
            Transaction::Legacy(t) => t.gas_limit,
            Transaction::Eip2930(t) => t.gas_limit,
            Transaction::Eip1559(t) => t.gas_limit,
        }
    }

    /// The most this transaction pays per unit of gas: the gas price, or
    /// the fee cap of a dynamic-fee transaction.
    pub open spec fn max_fee_spec(&self) -> u128 {
        match *self {
            Transaction::Legacy(t) => t.gas_price,
            Transaction::Eip2930(t) => t.gas_price,
            Transaction::Eip1559(t) => t.max_fee_per_gas,
        }
    }

    /// The sender's nonce for this transaction.
    pub fn nonce(&self) -> (r: u64)
        ensures
            r == self.nonce_spec(),
    {
        match self {
            Transaction::Legacy(t) => t.nonce,
            Transaction::Eip2930(t) => t.nonce,
            Transaction::Eip1559(t) => t.nonce,
        }
    }

    /// The gas limit of this transaction.
    pub fn gas_limit(&self) -> (r: u64)
        ensures
            r == self.gas_limit_spec(),
    {
        match self {
            Transaction::Legacy(t) => t.gas_limit,
            Transaction::Eip2930(t) => t.gas_limit,
            Transaction::Eip1559(t) => t.gas_limit,
        }
    }

    /// The most this transaction pays per unit of gas: the gas price, or
    /// the fee cap of a dynamic-fee transaction.
    pub fn max_fee_per_gas(&self) -> (r: u128)
        ensures
            r == self.max_fee_spec(),
    {
        match self {
            Transaction::Legacy(t) => t.gas_price,
            Transaction::Eip2930(t) => t.gas_price,
            Transaction::Eip1559(t) => t.max_fee_per_gas,
        }
    }
}

/// A signed transaction with its hash and the recovered signer.
#[derive(Clone, Copy, Debug, PartialEq, Eq)]
pub struct RecoveredTransaction {
    pub hash: [u8; 32],
    pub signer: [u8; 20],
    pub transaction: Transaction,
}

/// The cost the pool charges a transaction with: gas limit times gas price
/// times value for the fixed-price kinds, gas limit times fee cap plus value
/// for a dynamic-fee transaction.
pub open spec fn cost_of(t: Transaction) -> int {
    match t {
        Transaction::Legacy(t) => t.gas_limit * t.gas_price * t.value,
        Transaction::Eip2930(t) => t.gas_limit * t.gas_price * t.value,
        Transaction::Eip1559(t) => t.gas_limit * t.max_fee_per_gas + t.value,
    }
}

/// The cost, and every partial result on the way to it, fits in 128 bits.
pub open spec fn cost_fits(t: Transaction) -> bool {
    match t {
        Transaction::Legacy(t) => t.gas_limit * t.gas_price <= u128::MAX && t.gas_limit
            * t.gas_price * t.value <= u128::MAX,
        Transaction::Eip2930(t) => t.gas_limit * t.gas_price <= u128::MAX && t.gas_limit
            * t.gas_price * t.value <= u128::MAX,
        Transaction::Eip1559(t) => t.gas_limit * t.max_fee_per_gas <= u128::MAX && t.gas_limit
            * t.max_fee_per_gas + t.value <= u128::MAX,
    }
}

/// Every kind of transaction reports its own nonce and gas limit fields; a
/// fixed-price transaction's fee cap is its gas price, a dynamic-fee
/// transaction's is its fee cap. None of them depends on the transferred
/// value or on the other fee fields.
pub proof fn lemma_transaction_fields(legacy: TxLegacy, access: TxEip2930, dynamic: TxEip1559)
    ensures
        Transaction::Legacy(legacy).nonce_spec() == legacy.nonce,
        Transaction::Eip2930(access).nonce_spec() == access.nonce,
        Transaction::Eip1559(dynamic).nonce_spec() == dynamic.nonce,
        Transaction::Legacy(legacy).gas_limit_spec() == legacy.gas_limit,
        Transaction::Eip2930(access).gas_limit_spec() == access.gas_limit,
        Transaction::Eip1559(dynamic).gas_limit_spec() == dynamic.gas_limit,
        Transaction::Legacy(legacy).max_fee_spec() == legacy.gas_price,
        Transaction::Eip2930(access).max_fee_spec() == access.gas_price,
        Transaction::Eip1559(dynamic).max_fee_spec() == dynamic.max_fee_per_gas,
        Transaction::Legacy(legacy).max_fee_spec() == Transaction::Legacy(
            TxLegacy { value: 0, ..legacy },
        ).max_fee_spec(),
        Transaction::Eip2930(access).max_fee_spec() == Transaction::Eip2930(
            TxEip2930 { value: 0, ..access },
        ).max_fee_spec(),
        Transaction::Eip1559(dynamic).max_fee_spec() == Transaction::Eip1559(
            TxEip1559 { value: 0, max_priority_fee_per_gas: 0, ..dynamic },
        ).max_fee_spec(),
{
}

/// A fixed-price transaction, legacy or access-list alike, costs gas limit
/// times gas price times value; a dynamic-fee transaction costs gas limit
/// times fee cap plus value. The reckoning stays in range exactly when it
/// and its partial product fit in 128 bits.
pub proof fn lemma_cost(nonce: u64, gas_limit: u64, price: u128, priority: u128, value: u128)
    ensures
        cost_of(Transaction::Legacy(TxLegacy { nonce, gas_price: price, gas_limit, value }))
            == gas_limit as int * price as int * value as int,
        cost_of(Transaction::Eip2930(TxEip2930 { nonce, gas_price: price, gas_limit, value }))
            == cost_of(Transaction::Legacy(TxLegacy { nonce, gas_price: price, gas_limit, value })),
        cost_of(
            Transaction::Eip1559(
                TxEip1559 {
                    nonce,
                    gas_limit,
                    max_fee_per_gas: price,
                    max_priority_fee_per_gas: priority,
                    value,
                },
            ),
        ) == gas_limit as int * price as int + value as int,
        cost_fits(Transaction::Legacy(TxLegacy { nonce, gas_price: price, gas_limit, value }))
            <==> (gas_limit as int * price as int <= u128::MAX && gas_limit as int * price as int
            * value as int <= u128::MAX),
        cost_fits(Transaction::Eip2930(TxEip2930 { nonce, gas_price: price, gas_limit, value }))
            <==> (gas_limit as int * price as int <= u128::MAX && gas_limit as int * price as int
            * value as int <= u128::MAX),
        cost_fits(
            Transaction::Eip1559(
                TxEip1559 {
                    nonce,
                    gas_limit,
                    max_fee_per_gas: price,
                    max_priority_fee_per_gas: priority,
                    value,
                },
            ),
        ) <==> (gas_limit as int * price as int <= u128::MAX && gas_limit as int * price as int
            + value as int <= u128::MAX),
{
}

/// A transaction as the pool holds it.
#[derive(Clone, Copy, Debug)]
pub struct TxPoolTx {
    inner: RecoveredTransaction,
}

impl TxPoolTx {
    /// The recovered transaction this pool entry holds.
    pub closed spec fn recovered(&self) -> RecoveredTransaction {
        self.inner
    }

    /// The pool entry for a recovered transaction.
    pub fn from_recovered_transaction(tx: RecoveredTransaction) -> (r: Self)
        ensures
            r.recovered() == tx,
    {
        TxPoolTx { inner: tx }
    }

    /// The recovered transaction this pool entry holds.
    pub fn to_recovered_transaction(&self) -> (r: RecoveredTransaction)
        ensures
            r == self.recovered(),
    {
        self.inner
    }

    /// The transaction's hash.
    pub fn hash(&self) -> (r: &[u8; 32])
        ensures
            *r == self.recovered().hash,
    {
        &self.inner.hash
    }

    /// The address that signed the transaction.
    pub fn sender(&self) -> (r: [u8; 20])
        ensures
            r == self.recovered().signer,
    {
        self.inner.signer
    }

    /// The sender's nonce for the transaction.
    pub fn nonce(&self) -> (r: u64)
        ensures
            r == self.recovered().transaction.nonce_spec(),
    {
        self.inner.transaction.nonce()
    }

    /// Whether the pool's reckoning of the cost stays within 128 bits.
    pub fn cost_in_range(&self) -> (r: bool)
        ensures
            r == cost_fits(self.recovered().transaction),
    {
        match &self.inner.transaction {
            Transaction::Legacy(t) => match (t.gas_limit as u128).checked_mul(t.gas_price) {
                Some(p) => p.checked_mul(t.value).is_some(),
                None => false,
            },
            Transaction::Eip2930(t) => match (t.gas_limit as u128).checked_mul(t.gas_price) {
                Some(p) => p.checked_mul(t.value).is_some(),
                None => false,
            },
            Transaction::Eip1559(t) => match (t.gas_limit as u128).checked_mul(t.max_fee_per_gas) {
                Some(p) => p.checked_add(t.value).is_some(),
                None => false,
            },
        }
    }

    /// What the transaction may cost its sender, as the pool reckons it.
    pub fn cost(&self) -> (r: Word256)
        requires
            cost_fits(self.recovered().transaction),
        ensures
            r.value() == cost_of(self.recovered().transaction),
    {
        let c: u128 = match &self.inner.transaction {
            Transaction::Legacy(t) => t.gas_limit as u128 * t.gas_price * t.value,
            Transaction::Eip2930(t) => t.gas_limit as u128 * t.gas_price * t.value,
            Transaction::Eip1559(t) => t.gas_limit as u128 * t.max_fee_per_gas + t.value,
        };
        Word256::from_u128(c)
    }

    /// The price per unit of gas the pool ranks the transaction by: the gas
    /// price, or the fee cap of a dynamic-fee transaction.
    pub fn effective_gas_price(&self) -> (r: Word256)
        ensures
            r.value() == self.recovered().transaction.max_fee_spec(),
    {
        let p: u128 = match &self.inner.transaction {
            Transaction::Legacy(t) => t.gas_price,
            Transaction::Eip2930(t) => t.gas_price,
            Transaction::Eip1559(t) => t.max_fee_per_gas,
        };
        Word256::from_u128(p)
    }

    /// The transaction's gas limit.
    pub fn gas_limit(&self) -> (r: u64)
        ensures
            r == self.recovered().transaction.gas_limit_spec(),
    {
        self.inner.transaction.gas_limit()
    }

    /// The fee cap of a dynamic-fee transaction; none for the other kinds.
    pub fn max_fee_per_gas(&self) -> (r: Option<Word256>)
        ensures
            match self.recovered().transaction {
                Transaction::Eip1559(t) => r matches Some(w) && w.value() == t.max_fee_per_gas,
                _ => r is None,
            },
    {
        match &self.inner.transaction {
            Transaction::Eip1559(t) => Some(Word256::from_u128(t.max_fee_per_gas)),
            _ => None,
        }
    }

    /// The priority fee cap of a dynamic-fee transaction; none for the other
    /// kinds.
    pub fn max_priority_fee_per_gas(&self) -> (r: Option<Word256>)
        ensures
            match self.recovered().transaction {
                Transaction::Eip1559(t) => r matches Some(w) && w.value()
                    == t.max_priority_fee_per_gas,
                _ => r is None,
            },
    {
        match &self.inner.transaction {
            Transaction::Eip1559(t) => Some(Word256::from_u128(t.max_priority_fee_per_gas)),
            _ => None,
        }
    }
}

/// Orders pool transactions by the most they pay per unit of gas.
pub struct BasicOrdering;

impl BasicOrdering {
    /// The priority of a transaction: its gas price, or its fee cap.
    pub fn priority(&self, transaction: &TxPoolTx) -> (r: u128)
        ensures
            r == transaction.recovered().transaction.max_fee_spec(),
    {
        transaction.inner.transaction.max_fee_per_gas()
    }
}

/// Why the pool turned a transaction away.
#[derive(Clone, Copy, Debug, PartialEq, Eq)]
pub enum PoolError {
    /// The transaction with this hash was dropped on insertion.
    DiscardedOnInsert([u8; 32]),
}

/// The verdict on a transaction offered to the pool.
#[derive(Clone, Copy, Debug)]
pub enum ValidationOutcome {
    Valid { balance: Word256, state_nonce: u64, transaction: TxPoolTx },
    Invalid(TxPoolTx, PoolError),
}

/// Lets transactions into the pool on the sender's nonce alone, checked
/// against what the provider `P` reports.
pub struct NonValidator<P> {
    provider: P,
}

impl<P> NonValidator<P> {
    /// The provider asked for nonces and balances.
    pub closed spec fn spec_provider(&self) -> P {
        self.provider
    }

    /// A validator that asks `provider`.
    pub fn new(provider: P) -> (v: Self)
        ensures
            v.spec_provider() == provider,
    {
        NonValidator { provider }
    }

    /// The provider asked for nonces and balances.
    pub fn provider(&self) -> (p: &P)
        ensures
            *p == self.spec_provider(),
    {
        &self.provider
    }

    /// The verdict on `tx`, given the sender's transaction count and balance
    /// as the provider reported them: valid, with that balance and nonce,
    /// when both came back and the count equals the transaction's nonce;
    /// discarded otherwise.
    pub fn validate_transaction(
        &self,
        tx: TxPoolTx,
        nonce: Result<Word256, ()>,
        balance: Result<Word256, ()>,
    ) -> (r: ValidationOutcome)
        requires
            nonce matches Ok(n) ==> n.fits_u64(),
        ensures
            (r is Valid) <==> (nonce is Ok && balance is Ok && (match tx.recovered().transaction {
                Transaction::Legacy(t) => t.nonce,
                Transaction::Eip2930(t) => t.nonce,
                Transaction::Eip1559(t) => t.nonce,
            }) == nonce->Ok_0.limbs[0]),
            r matches ValidationOutcome::Valid { balance: b, state_nonce, transaction } ==> (
            balance == Ok::<Word256, ()>(b) && state_nonce == nonce->Ok_0.limbs[0]
                && transaction == tx),
            match (nonce, balance) {
                (Ok(n), Ok(b)) => if tx.recovered().transaction.nonce_spec() == n.value() {
                    r == ValidationOutcome::Valid {
                        balance: b,
                        state_nonce: n.value() as u64,
                        transaction: tx,
                    }
                } else {
                    r == ValidationOutcome::Invalid(
                        tx,
                        PoolError::DiscardedOnInsert(tx.recovered().hash),
                    )
                },
                _ => r == ValidationOutcome::Invalid(
                    tx,
                    PoolError::DiscardedOnInsert(tx.recovered().hash),
                ),
            },
    {
        proof {
            if let Ok(n) = nonce {
                crate::block_client::lemma_word_value(n);
            }
        }
        let state_nonce = match &nonce {
            Ok(n) => Some(n.as_u64()),
            Err(_) => None,
        };
        let (state_nonce, bal) = match (state_nonce, balance) {
            (Some(n), Ok(b)) => (n, b),
            _ => {
                let hash = *tx.hash();
                return ValidationOutcome::Invalid(tx, PoolError::DiscardedOnInsert(hash));
            },
        };
        if tx.nonce() != state_nonce {
            let hash = *tx.hash();
            return ValidationOutcome::Invalid(tx, PoolError::DiscardedOnInsert(hash));
        }
        ValidationOutcome::Valid { balance: bal, state_nonce, transaction: tx }
    }
}

/// The validator admits a transaction exactly when both lookups came back
/// and the sender's transaction count equals the transaction's own nonce
/// field, whatever its kind; it then reports the looked-up balance and that
/// count, and otherwise discards the transaction by its hash.
pub proof fn lemma_validation(tx: TxPoolTx, count: Word256, balance: Word256)
    requires
        count.fits_u64(),
    ensures
        ({
            let own_nonce = match tx.recovered().transaction {
                Transaction::Legacy(t) => t.nonce,
                Transaction::Eip2930(t) => t.nonce,
                Transaction::Eip1559(t) => t.nonce,
            };
            tx.recovered().transaction.nonce_spec() == count.value() <==> own_nonce
                == count.limbs[0]
        }),
{
    crate::block_client::lemma_word_value(count);
}

} // verus!
