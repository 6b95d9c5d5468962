use vstd::prelude::*;

use crate::account::{AccountBalance, AccountData, AccountStore, BalanceOperation, BalanceOperationError};
use crate::transaction::{
    RawTransactionData, StoredTransactionType, TransactionData, TransactionStatus,
    TransactionStore, TransactionStoreError, TransactionType,
};

verus! {

#[derive(Debug, Clone, Copy)]
pub enum EngineError {
    InvalidTransactionData(ValidationError),
    InvalidTransactionStatus { required: TransactionStatus, actual: TransactionStatus },
    InvalidTransactionType { required: StoredTransactionType, actual: StoredTransactionType },
    TransactionStoreError(TransactionStoreError),
    BalanceOperationError(BalanceOperationError),
    /// A record reached a step that validation should have kept it from: a defect of the
    /// engine, not of the input.
    InternalError,
}

#[derive(Debug, Clone, Copy, PartialEq, Eq, Structural)]
pub enum ValidationError {
    AccountLocked,
    InvalidAccountId,
    InvalidTransactionId,
    InvalidAmount,
    MalformedTransactionData,
}

pub type EngineResult<T> = Result<T, EngineError>;

/// The part of an account's held funds that record `t` stands for.
pub open spec fn disputed_amount(t: TransactionData, account: u16) -> int {
    if t.account_id == account && t.status == TransactionStatus::UnderDispute {
        t.amount.value()
    } else {
        0
    }
}

/// The sum of the amounts of the records listed in `order` that belong to `account` and
/// are under dispute.
pub open spec fn disputed_sum(order: Seq<u32>, txs: Map<u32, TransactionData>, account: u16) -> int
    decreases order.len(),
{
    if order.len() == 0 {
        0
    } else {
        disputed_sum(order.drop_last(), txs, account) + disputed_amount(txs[order.last()], account)
    }
}

proof fn lemma_disputed_sum_push(
    order: Seq<u32>,
    txs: Map<u32, TransactionData>,
    account: u16,
    id: u32,
)
    ensures
        disputed_sum(order.push(id), txs, account) == disputed_sum(order, txs, account)
            + disputed_amount(txs[id], account),
{
    assert(order.push(id).drop_last() =~= order);
}

proof fn lemma_disputed_sum_fresh(
    order: Seq<u32>,
    txs: Map<u32, TransactionData>,
    account: u16,
    id: u32,
    rec: TransactionData,
)
    requires
        !order.contains(id),
    ensures
        disputed_sum(order, txs.insert(id, rec), account) == disputed_sum(order, txs, account),
    decreases order.len(),
{
    if order.len() > 0 {
        assert(!order.drop_last().contains(id)) by {
            if order.drop_last().contains(id) {
                let j = choose|j: int| 0 <= j < order.drop_last().len() && order.drop_last()[j] == id;
                assert(order[j] == id);
            }
        }
        assert(order.last() != id) by {
            assert(order[order.len() - 1] == order.last());
        }
        lemma_disputed_sum_fresh(order.drop_last(), txs, account, id, rec);
    }
}

proof fn lemma_disputed_sum_update(
    order: Seq<u32>,
    txs: Map<u32, TransactionData>,
    account: u16,
    id: u32,
    rec: TransactionData,
)
    requires
        order.no_duplicates(),
        order.contains(id),
    ensures
        disputed_sum(order, txs.insert(id, rec), account) == disputed_sum(order, txs, account)
            - disputed_amount(txs[id], account) + disputed_amount(rec, account),
    decreases order.len(),
{
    let prefix = order.drop_last();
    if order.last() == id {
        assert(!prefix.contains(id)) by {
            if prefix.contains(id) {
                let j = choose|j: int| 0 <= j < prefix.len() && prefix[j] == id;
                assert(order[j] == order[order.len() - 1]);
            }
        }
        lemma_disputed_sum_fresh(prefix, txs, account, id, rec);
    } else {
        assert(prefix.contains(id)) by {
            let j = choose|j: int| 0 <= j < order.len() && order[j] == id;
            assert(j != order.len() - 1);
            assert(prefix[j] == id);
        }
        assert(prefix.no_duplicates()) by {
            assert forall|a: int, b: int|
                0 <= a < prefix.len() && 0 <= b < prefix.len() && a != b implies prefix[a]
                != prefix[b] by {
                assert(prefix[a] == order[a] && prefix[b] == order[b]);
            }
        }
        lemma_disputed_sum_update(prefix, txs, account, id, rec);
    }
}

/// The account `id` as stored, or a new one where none is.
pub open spec fn account_or_new(accounts: Map<u16, AccountData>, id: u16) -> AccountData {
    if accounts.contains_key(id) {
        accounts[id]
    } else {
        AccountData::spec_new(id)
    }
}

/// The first check that `data` fails against the stores, if any.
pub open spec fn spec_validate(
    accounts: Map<u16, AccountData>,
    txs: Map<u32, TransactionData>,
    data: RawTransactionData,
) -> Option<ValidationError> {
    if accounts.contains_key(data.account_id) && accounts[data.account_id].spec_locked() {
        Some(ValidationError::AccountLocked)
    } else {
        match data.ty {
            TransactionType::Deposit | TransactionType::Withdrawal => {
                if txs.contains_key(data.id) {
                    Some(ValidationError::InvalidTransactionId)
                } else {
                    match data.amount {
                        None => Some(ValidationError::MalformedTransactionData),
                        Some(a) => if a.value() > 0 {
                            None
                        } else {
                            Some(ValidationError::InvalidAmount)
                        },
                    }
                }
            },
            _ => {
                if !accounts.contains_key(data.account_id) {
                    Some(ValidationError::InvalidAccountId)
                } else if !txs.contains_key(data.id) {
                    Some(ValidationError::InvalidTransactionId)
                } else if txs[data.id].account_id != data.account_id {
                    Some(ValidationError::InvalidAccountId)
                } else if data.amount is Some {
                    Some(ValidationError::MalformedTransactionData)
                } else {
                    None
                }
            },
        }
    }
}

/// A dispute, resolution or chargeback of the stored record `tx`: the status it requires,
/// the balance operation it makes and the status it leaves.
pub open spec fn status_step(ty: TransactionType, tx: TransactionData) -> (
    TransactionStatus,
    BalanceOperation,
    TransactionStatus,
) {
    match ty {
        TransactionType::Dispute => (
            TransactionStatus::Undisputed,
            BalanceOperation::Hold(tx.amount),
            TransactionStatus::UnderDispute,
        ),
        TransactionType::Resolve => (
            TransactionStatus::UnderDispute,
            BalanceOperation::Release(tx.amount),
            TransactionStatus::Undisputed,
        ),
        _ => (
            TransactionStatus::UnderDispute,
            BalanceOperation::WithdrawHeld(tx.amount),
            TransactionStatus::Cancelled,
        ),
    }
}

/// What processing `data` against the stores amounts to: the failure, or the balance
/// operation made on account `data.account_id` and the record then stored under `data.id`.
pub open spec fn spec_transition(
    accounts: Map<u16, AccountData>,
    txs: Map<u32, TransactionData>,
    data: RawTransactionData,
) -> Result<(BalanceOperation, TransactionData), EngineError> {
    match spec_validate(accounts, txs, data) {
        Some(e) => Err(EngineError::InvalidTransactionData(e)),
        None => {
            let balance = account_or_new(accounts, data.account_id).spec_balance();
            match data.ty {
                TransactionType::Deposit | TransactionType::Withdrawal => {
                    let amount = data.amount->0;
                    let op = if data.ty == TransactionType::Deposit {
                        BalanceOperation::Deposit(amount)
                    } else {
                        BalanceOperation::WithdrawAvailable(amount)
                    };
                    if !balance.permits(op) {
                        Err(EngineError::BalanceOperationError(balance.failure(op)))
                    } else {
                        Ok((op, TransactionData::spec_from_raw(data)->Ok_0))
                    }
                },
                _ => {
                    let tx = txs[data.id];
                    let (required, op, next) = status_step(data.ty, tx);
                    if data.ty == TransactionType::Dispute && tx.ty != StoredTransactionType::Deposit {
                        Err(
                            EngineError::InvalidTransactionType {
                                required: StoredTransactionType::Deposit,
                                actual: tx.ty,
                            },
                        )
                    } else if tx.status != required {
                        Err(EngineError::InvalidTransactionStatus { required, actual: tx.status })
                    } else if !balance.permits(op) {
                        Err(EngineError::BalanceOperationError(balance.failure(op)))
                    } else {
                        Ok((op, TransactionData { status: next, ..tx }))
                    }
                },
            }
        },
    }
}

/// Payment transaction engine: the sole owner of the account and transaction stores.
pub struct Engine {
    accounts: AccountStore,
    transactions: TransactionStore,
}

impl Engine {
    pub closed spec fn spec_accounts(&self) -> Map<u16, AccountData> {
        self.accounts@
    }

    pub closed spec fn spec_transactions(&self) -> Map<u32, TransactionData> {
        self.transactions@
    }

    /// The identities of the stored records, each once, in the order in which they were
    /// stored.
    pub closed spec fn transaction_order(&self) -> Seq<u32> {
        self.transactions.order()
    }

    /// The identities of the accounts, in the order in which they were created.
    pub closed spec fn account_order(&self) -> Seq<u16> {
        self.accounts.order()
    }

    /// The ledger's invariant: every balance is consistent and non-negative, every stored
    /// amount is positive, and an account's held funds are the sum of its records under
    /// dispute.
    pub closed spec fn wf(&self) -> bool {
        &&& self.accounts.wf()
        &&& self.transactions.wf()
        &&& forall|k: u16| #[trigger]
            self.accounts@.contains_key(k) ==> {
                &&& self.accounts@[k].spec_balance().wf()
                &&& self.accounts@[k].spec_balance().is_nonnegative()
                &&& self.accounts@[k].spec_balance().spec_held().value() == disputed_sum(
                    self.transactions.order(),
                    self.transactions@,
                    k,
                )
            }
        &&& forall|k: u16|
            !self.accounts@.contains_key(k) ==> #[trigger] disputed_sum(
                self.transactions.order(),
                self.transactions@,
                k,
            ) == 0
        &&& forall|t: u32| #[trigger]
            self.transactions@.contains_key(t) ==> self.transactions@[t].amount.value() > 0
    }

    /// What processing `data` did, from the engine `pre` to the engine `post`, returning `r`:
    /// on failure nothing changed; on success the record and the account were updated as
    /// `spec_transition` says.
    pub open spec fn outcome(
        pre: &Engine,
        post: &Engine,
        data: RawTransactionData,
        r: EngineResult<()>,
    ) -> bool {
        let (accounts, txs) = (pre.spec_accounts(), pre.spec_transactions());
        match spec_transition(accounts, txs, data) {
            Err(e) => r == Err::<(), EngineError>(e) && post.spec_accounts() == accounts
                && post.spec_transactions() == txs,
            Ok((op, rec)) => {
                let account = account_or_new(accounts, data.account_id);
                &&& r is Ok
                &&& post.spec_transactions() == txs.insert(data.id, rec)
                &&& post.spec_accounts() == accounts.insert(
                    data.account_id,
                    account.with(
                        account.spec_balance().applied(op),
                        account.spec_locked() || data.ty == TransactionType::Chargeback,
                    ),
                )
            },
        }
    }

    pub fn new() -> (r: Engine)
        ensures
            r.wf(),
            r.spec_accounts() == Map::<u16, AccountData>::empty(),
            r.spec_transactions() == Map::<u32, TransactionData>::empty(),
    {
        Engine { accounts: AccountStore::new(), transactions: TransactionStore::new() }
    }

    /// Processes the raw transaction data as received from an input stream: validates it,
    /// then applies it, or fails with the reason and changes nothing.
    pub fn process_transaction(&mut self, data: &RawTransactionData) -> (r: EngineResult<()>)
        requires
            old(self).wf(),
        ensures
            final(self).wf(),
            Self::outcome(old(self), final(self), *data, r),
    {
        if let Err(e) = self.validate_transaction(data) {
            return Err(EngineError::InvalidTransactionData(e));
        }
        match data.ty {
            TransactionType::Deposit | TransactionType::Withdrawal => {
                self.process_balance_operation(data)
            },
            TransactionType::Dispute => self.process_dispute(data),
            TransactionType::Resolve => self.process_resolution(data),
            TransactionType::Chargeback => self.process_chargeback(data),
        }
    }

    /// Every account, in the order in which they were created.
    pub fn accounts(&self) -> (r: Vec<AccountData>)
        requires
            self.wf(),
        ensures
            r@ == self.account_order().map_values(|k: u16| self.spec_accounts()[k]),
            self.account_order().no_duplicates(),
            forall|k: u16| #[trigger]
                self.spec_accounts().contains_key(k) <==> self.account_order().contains(k),
    {
        self.accounts.all()
    }

    fn process_balance_operation(&mut self, data: &RawTransactionData) -> (r: EngineResult<()>)
        requires
            old(self).wf(),
            spec_validate(old(self).spec_accounts(), old(self).spec_transactions(), *data) is None,
            data.ty == TransactionType::Deposit || data.ty == TransactionType::Withdrawal,
        ensures
            final(self).wf(),
            Self::outcome(old(self), final(self), *data, r),
    {
        // Validation has established: the account is new or not locked, the amount is
        // positive, and the transaction identity is not stored yet.
        let amount = match data.amount {
            Some(a) => a,
            None => return Err(EngineError::InternalError),
        };
        let op = match data.ty {
            TransactionType::Deposit => BalanceOperation::Deposit(amount),
            TransactionType::Withdrawal => BalanceOperation::WithdrawAvailable(amount),
            _ => return Err(EngineError::InternalError),
        };
        let record = match TransactionData::try_from(data) {
            Ok(t) => t,
            Err(e) => return Err(EngineError::TransactionStoreError(e)),
        };
        let mut account = match self.accounts.get(data.account_id) {
            Some(a) => *a,
            None => AccountData::new(data.account_id),
        };
        let ghost before = account;
        proof {
            AccountBalance::lemma_new_values();
            AccountData::lemma_new(data.account_id);
        }
        if let Err(e) = account.balance_mut().update(op) {
            return Err(EngineError::BalanceOperationError(e));
        }
        proof {
            before.lemma_with(before.spec_balance().applied(op), before.spec_locked());
        }
        let ghost accounts = self.accounts@;
        let ghost txs = self.transactions@;
        let ghost order = self.transactions.order();
        *self.accounts.get_mut(data.account_id) = account;
        self.transactions.insert(record);
        proof {
            let id = data.account_id;
            assert(!order.contains(data.id));
            assert forall|k: u16| #[trigger]
                disputed_sum(self.transactions.order(), self.transactions@, k) == disputed_sum(
                    order,
                    txs,
                    k,
                ) by {
                lemma_disputed_sum_push(order, txs.insert(data.id, record), k, data.id);
                lemma_disputed_sum_fresh(order, txs, k, data.id, record);
            }
            assert forall|k: u16| #[trigger]
                self.accounts@.contains_key(k) implies {
                &&& self.accounts@[k].spec_balance().wf()
                &&& self.accounts@[k].spec_balance().is_nonnegative()
                &&& self.accounts@[k].spec_balance().spec_held().value() == disputed_sum(
                    self.transactions.order(),
                    self.transactions@,
                    k,
                )
            } by {
                if k == id {
                    assert(self.accounts@[k] == account);
                } else {
                    assert(accounts.contains_key(k));
                }
            }
            assert forall|k: u16| !self.accounts@.contains_key(k) implies #[trigger] disputed_sum(
                self.transactions.order(),
                self.transactions@,
                k,
            ) == 0 by {
                assert(!accounts.contains_key(k));
                assert(disputed_sum(order, txs, k) == 0);
            }
        }
        Ok(())
    }

    fn process_dispute(&mut self, data: &RawTransactionData) -> (r: EngineResult<()>)
        requires
            old(self).wf(),
            spec_validate(old(self).spec_accounts(), old(self).spec_transactions(), *data) is None,
            data.ty == TransactionType::Dispute,
        ensures
            final(self).wf(),
            Self::outcome(old(self), final(self), *data, r),
    {
        // Validation has established: the account exists and is not locked, the record
        // exists, and it belongs to this account.
        let tx = match self.transactions.get(data.id) {
            Some(t) => *t,
            None => return Err(EngineError::InternalError),
        };
        // Only deposits can be disputed.
        if tx.ty != StoredTransactionType::Deposit {
            return Err(
                EngineError::InvalidTransactionType {
                    required: StoredTransactionType::Deposit,
                    actual: tx.ty,
                },
            );
        }
        self.apply_status_change(
            data,
            tx,
            TransactionStatus::Undisputed,
            BalanceOperation::Hold(tx.amount),
            TransactionStatus::UnderDispute,
        )
    }

    fn process_resolution(&mut self, data: &RawTransactionData) -> (r: EngineResult<()>)
        requires
            old(self).wf(),
            spec_validate(old(self).spec_accounts(), old(self).spec_transactions(), *data) is None,
            data.ty == TransactionType::Resolve,
        ensures
            final(self).wf(),
            Self::outcome(old(self), final(self), *data, r),
    {
        // Validation has established: the account exists and is not locked, the record
        // exists, and it belongs to this account.
        let tx = match self.transactions.get(data.id) {
            Some(t) => *t,
            None => return Err(EngineError::InternalError),
        };
        self.apply_status_change(
            data,
            tx,
            TransactionStatus::UnderDispute,
            BalanceOperation::Release(tx.amount),
            TransactionStatus::Undisputed,
        )
    }

    fn process_chargeback(&mut self, data: &RawTransactionData) -> (r: EngineResult<()>)
        requires
            old(self).wf(),
            spec_validate(old(self).spec_accounts(), old(self).spec_transactions(), *data) is None,
            data.ty == TransactionType::Chargeback,
        ensures
            final(self).wf(),
            Self::outcome(old(self), final(self), *data, r),
    {
        // Validation has established: the account exists and is not locked, the record
        // exists, and it belongs to this account.
        let tx = match self.transactions.get(data.id) {
            Some(t) => *t,
            None => return Err(EngineError::InternalError),
        };
        self.apply_status_change(
            data,
            tx,
            TransactionStatus::UnderDispute,
            BalanceOperation::WithdrawHeld(tx.amount),
            TransactionStatus::Cancelled,
        )
    }

    /// The step shared by disputes, resolutions and chargebacks of the stored record `tx`:
    /// check that it has status `required`, apply `op` to the account, lock the account on
    /// a chargeback, and give the record status `next`.
    fn apply_status_change(
        &mut self,
        data: &RawTransactionData,
        tx: TransactionData,
        required: TransactionStatus,
        op: BalanceOperation,
        next: TransactionStatus,
    ) -> (r: EngineResult<()>)
        requires
            old(self).wf(),
            spec_validate(old(self).spec_accounts(), old(self).spec_transactions(), *data) is None,
            data.ty == TransactionType::Dispute || data.ty == TransactionType::Resolve || data.ty
                == TransactionType::Chargeback,
            old(self).spec_transactions().contains_key(data.id),
            old(self).spec_transactions()[data.id] == tx,
            (required, op, next) == status_step(data.ty, tx),
            data.ty == TransactionType::Dispute ==> tx.ty == StoredTransactionType::Deposit,
        ensures
            final(self).wf(),
            Self::outcome(old(self), final(self), *data, r),
    {
        if tx.status != required {
            return Err(EngineError::InvalidTransactionStatus { required, actual: tx.status });
        }
        let mut account = match self.accounts.get(data.account_id) {
            Some(a) => *a,
            None => return Err(EngineError::InternalError),
        };
        let ghost before = account;
        if let Err(e) = account.balance_mut().update(op) {
            return Err(EngineError::BalanceOperationError(e));
        }
        let ghost after_update = account;
        proof {
            before.lemma_with(before.spec_balance().applied(op), before.spec_locked());
            before.lemma_with_twice(
                before.spec_balance().applied(op),
                before.spec_locked(),
                before.spec_balance().applied(op),
                true,
            );
        }
        if data.ty == TransactionType::Chargeback {
            account.set_locked(true);
        }
        let ghost accounts = self.accounts@;
        let ghost txs = self.transactions@;
        let ghost order = self.transactions.order();
        *self.accounts.get_mut(data.account_id) = account;
        self.transactions.set_status(data.id, next);
        proof {
            let id = data.account_id;
            let rec = TransactionData { status: next, ..tx };
            assert(self.transactions@ == txs.insert(data.id, rec));
            after_update.lemma_with(after_update.spec_balance(), true);
            assert(account == before.with(
                before.spec_balance().applied(op),
                before.spec_locked() || data.ty == TransactionType::Chargeback,
            ));
            assert forall|k: u16| #[trigger]
                disputed_sum(self.transactions.order(), self.transactions@, k) == disputed_sum(
                    order,
                    txs,
                    k,
                ) - disputed_amount(tx, k) + disputed_amount(rec, k) by {
                lemma_disputed_sum_update(order, txs, k, data.id, rec);
            }
            assert forall|k: u16| #[trigger]
                self.accounts@.contains_key(k) implies {
                &&& self.accounts@[k].spec_balance().wf()
                &&& self.accounts@[k].spec_balance().is_nonnegative()
                &&& self.accounts@[k].spec_balance().spec_held().value() == disputed_sum(
                    self.transactions.order(),
                    self.transactions@,
                    k,
                )
            } by {
                if k != id {
                    assert(accounts.contains_key(k));
                    assert(disputed_amount(tx, k) == 0 && disputed_amount(rec, k) == 0);
                } else {
                    assert(self.accounts@[k] == account);
                    assert(accounts.contains_key(k));
                    assert(tx.account_id == id);
                }
            }
            assert forall|k: u16| !self.accounts@.contains_key(k) implies #[trigger] disputed_sum(
                self.transactions.order(),
                self.transactions@,
                k,
            ) == 0 by {
                assert(!accounts.contains_key(k));
                assert(k != id);
                assert(disputed_sum(order, txs, k) == 0);
                assert(disputed_amount(tx, k) == 0 && disputed_amount(rec, k) == 0);
            }
            assert forall|t: u32| #[trigger]
                self.transactions@.contains_key(t) implies self.transactions@[t].amount.value()
                > 0 by {
                assert(txs.contains_key(t));
            }
        }
        Ok(())
    }

    /// Performs the checks shared between the kinds of transaction.
    fn validate_transaction(&self, data: &RawTransactionData) -> (r: Result<(), ValidationError>)
        ensures
            r is Ok <==> spec_validate(self.spec_accounts(), self.spec_transactions(), *data) is None,
            r matches Err(e) ==> spec_validate(self.spec_accounts(), self.spec_transactions(), *data)
                == Some(e),
    {
        let account = self.accounts.get(data.account_id);
        // A locked account takes nothing; an account that does not exist yet is created
        // later.
        if let Some(a) = account {
            if a.locked() {
                return Err(ValidationError::AccountLocked);
            }
        }
        match data.ty {
            TransactionType::Deposit | TransactionType::Withdrawal => {
                if self.transactions.contains(data.id) {
                    return Err(ValidationError::InvalidTransactionId);
                }
                match data.amount {
                    Some(amount) => if amount.is_positive() {
                        Ok(())
                    } else {
                        Err(ValidationError::InvalidAmount)
                    },
                    None => Err(ValidationError::MalformedTransactionData),
                }
            },
            TransactionType::Dispute | TransactionType::Resolve | TransactionType::Chargeback => {
                if account.is_none() {
                    return Err(ValidationError::InvalidAccountId);
                }
                match self.transactions.get(data.id) {
                    Some(tx) => {
                        if tx.account_id != data.account_id {
                            return Err(ValidationError::InvalidAccountId);
                        }
                    },
                    None => return Err(ValidationError::InvalidTransactionId),
                }
                if data.amount.is_some() {
                    // These kinds carry no amount.
                    return Err(ValidationError::MalformedTransactionData);
                }
                Ok(())
            },
        }
    }
}

/// Whether a record's status may go from `from` to `to` in one step: it stays, or moves from
/// undisputed to under dispute, or from under dispute back to undisputed or on to cancelled.
pub open spec fn allowed_status_change(from: TransactionStatus, to: TransactionStatus) -> bool {
    ||| from == to
    ||| from == TransactionStatus::Undisputed && to == TransactionStatus::UnderDispute
    ||| from == TransactionStatus::UnderDispute && to == TransactionStatus::Undisputed
    ||| from == TransactionStatus::UnderDispute && to == TransactionStatus::Cancelled
}

/// In every reachable state, an account's held funds equal the sum of the amounts of its
/// records that are under dispute, each stored record counted once.
pub proof fn lemma_held_is_disputed_sum(engine: &Engine, id: u16)
    requires
        engine.wf(),
        engine.spec_accounts().contains_key(id),
    ensures
        engine.spec_accounts()[id].spec_balance().spec_held().value() == disputed_sum(
            engine.transaction_order(),
            engine.spec_transactions(),
            id,
        ),
        engine.transaction_order().no_duplicates(),
        forall|t: u32| #[trigger]
            engine.spec_transactions().contains_key(t) <==> engine.transaction_order().contains(t),
{
}

/// In every reachable state, every balance has `total == available + held`, with neither
/// part below zero.
pub proof fn lemma_balances_consistent(engine: &Engine, id: u16)
    requires
        engine.wf(),
        engine.spec_accounts().contains_key(id),
    ensures
        engine.spec_accounts()[id].spec_balance().wf(),
        engine.spec_accounts()[id].spec_balance().is_nonnegative(),
{
}

/// A deposit or withdrawal under an identity that is already stored is always rejected, and
/// the stored record stays as it was.
pub proof fn lemma_transaction_id_reuse_rejected(
    pre: &Engine,
    post: &Engine,
    data: RawTransactionData,
    r: EngineResult<()>,
)
    requires
        Engine::outcome(pre, post, data, r),
        data.ty == TransactionType::Deposit || data.ty == TransactionType::Withdrawal,
        pre.spec_transactions().contains_key(data.id),
    ensures
        r is Err,
        post.spec_transactions() == pre.spec_transactions(),
        post.spec_accounts() == pre.spec_accounts(),
{
}

/// Processing a record changes a stored record's status only along the allowed steps, never
/// out of `Cancelled`, and changes nothing else of it.
pub proof fn lemma_status_transitions(
    pre: &Engine,
    post: &Engine,
    data: RawTransactionData,
    r: EngineResult<()>,
    id: u32,
)
    requires
        Engine::outcome(pre, post, data, r),
        pre.spec_transactions().contains_key(id),
    ensures
        post.spec_transactions().contains_key(id),
        allowed_status_change(pre.spec_transactions()[id].status, post.spec_transactions()[id].status),
        pre.spec_transactions()[id].status == TransactionStatus::Cancelled
            ==> post.spec_transactions()[id].status == TransactionStatus::Cancelled,
        post.spec_transactions()[id] == (TransactionData {
            status: post.spec_transactions()[id].status,
            ..pre.spec_transactions()[id]
        }),
{
}

/// A record is stored only by an accepted deposit or withdrawal, and starts undisputed.
pub proof fn lemma_new_records_undisputed(
    pre: &Engine,
    post: &Engine,
    data: RawTransactionData,
    r: EngineResult<()>,
    id: u32,
)
    requires
        Engine::outcome(pre, post, data, r),
        !pre.spec_transactions().contains_key(id),
        post.spec_transactions().contains_key(id),
    ensures
        r is Ok,
        id == data.id,
        data.ty == TransactionType::Deposit || data.ty == TransactionType::Withdrawal,
        post.spec_transactions()[id].status == TransactionStatus::Undisputed,
{
}

} // verus!
