use std::collections::HashMap;
use vstd::prelude::*;

use crate::amount::Amount;

verus! {

#[derive(Debug, Clone, Copy, PartialEq, Eq)]
pub enum BalanceOperationError {
    InsufficientAvailableFunds { requested: Amount, available: Amount },
    InsufficientHeldFunds { requested: Amount, available: Amount },
    /// The result has more significant digits than an amount can hold.
    AmountOutOfRange { requested: Amount },
}

/// Represents an atomic account balance operation.
#[derive(Debug, Clone, Copy)]
pub enum BalanceOperation {
    Deposit(Amount),
    WithdrawAvailable(Amount),
    Hold(Amount),
    Release(Amount),
    WithdrawHeld(Amount),
}

impl BalanceOperation {
    pub open spec fn amount(self) -> Amount {
        match self {
            BalanceOperation::Deposit(a) => a,
            BalanceOperation::WithdrawAvailable(a) => a,
            BalanceOperation::Hold(a) => a,
            BalanceOperation::Release(a) => a,
            BalanceOperation::WithdrawHeld(a) => a,
        }
    }

    /// How much the operation adds to the total.
    pub open spec fn total_change(self) -> int {
        match self {
            BalanceOperation::Deposit(a) => a.value(),
            BalanceOperation::WithdrawAvailable(a) => -a.value(),
            BalanceOperation::Hold(_) => 0,
            BalanceOperation::Release(_) => 0,
            BalanceOperation::WithdrawHeld(a) => -a.value(),
        }
    }

    /// How much the operation adds to the held funds.
    pub open spec fn held_change(self) -> int {
        match self {
            BalanceOperation::Deposit(_) => 0,
            BalanceOperation::WithdrawAvailable(_) => 0,
            BalanceOperation::Hold(a) => a.value(),
            BalanceOperation::Release(a) => -a.value(),
            BalanceOperation::WithdrawHeld(a) => -a.value(),
        }
    }
}

/// Client account balance representation.
///
/// `available` is kept equal to `total - held` by every operation.
#[derive(Debug, Clone, Copy)]
pub struct AccountBalance {
    available: Amount,
    held: Amount,
    total: Amount,
}

impl AccountBalance {
    pub closed spec fn spec_available(self) -> Amount {
        self.available
    }

    pub closed spec fn spec_held(self) -> Amount {
        self.held
    }

    pub closed spec fn spec_total(self) -> Amount {
        self.total
    }

    /// The total is the sum of the available and the held funds.
    pub open spec fn wf(self) -> bool {
        self.spec_total().value() == self.spec_available().value() + self.spec_held().value()
    }

    /// Neither the available nor the held funds are below zero.
    pub open spec fn is_nonnegative(self) -> bool {
        self.spec_available().value() >= 0 && self.spec_held().value() >= 0
    }

    /// Whether the funds that `op` draws on suffice.
    pub open spec fn has_funds(self, op: BalanceOperation) -> bool {
        match op {
            BalanceOperation::Deposit(_) => true,
            BalanceOperation::WithdrawAvailable(a) => self.spec_available().value() >= a.value(),
            BalanceOperation::Hold(a) => self.spec_available().value() >= a.value(),
            BalanceOperation::Release(a) => self.spec_held().value() >= a.value(),
            BalanceOperation::WithdrawHeld(a) => self.spec_held().value() >= a.value(),
        }
    }

    /// Whether the two fields that `op` changes can hold their new values.
    pub open spec fn fits(self, op: BalanceOperation) -> bool {
        let (available, held, total) = (self.spec_available(), self.spec_held(), self.spec_total());
        match op {
            BalanceOperation::Deposit(a) => Amount::can_add(total, a) && Amount::can_add(
                available,
                a,
            ),
            BalanceOperation::WithdrawAvailable(a) => Amount::can_sub(total, a) && Amount::can_sub(
                available,
                a,
            ),
            BalanceOperation::Hold(a) => Amount::can_add(held, a) && Amount::can_sub(available, a),
            BalanceOperation::Release(a) => Amount::can_sub(held, a) && Amount::can_add(
                available,
                a,
            ),
            BalanceOperation::WithdrawHeld(a) => Amount::can_sub(held, a) && Amount::can_sub(
                total,
                a,
            ),
        }
    }

    /// Whether `op` succeeds on this balance.
    pub open spec fn permits(self, op: BalanceOperation) -> bool {
        self.has_funds(op) && self.fits(op)
    }

    /// The error that `op` fails with on this balance, where it does not succeed.
    pub open spec fn failure(self, op: BalanceOperation) -> BalanceOperationError {
        if !self.has_funds(op) {
            match op {
                BalanceOperation::Release(a) => BalanceOperationError::InsufficientHeldFunds {
                    requested: a,
                    available: self.spec_held(),
                },
                BalanceOperation::WithdrawHeld(a) => BalanceOperationError::InsufficientHeldFunds {
                    requested: a,
                    available: self.spec_held(),
                },
                _ => BalanceOperationError::InsufficientAvailableFunds {
                    requested: op.amount(),
                    available: self.spec_available(),
                },
            }
        } else {
            BalanceOperationError::AmountOutOfRange { requested: op.amount() }
        }
    }

    /// The balance after `op`, where it succeeds.
    pub closed spec fn applied(self, op: BalanceOperation) -> AccountBalance {
        let (available, held, total) = (self.available, self.held, self.total);
        match op {
            BalanceOperation::Deposit(a) => AccountBalance {
                available: Amount::sum(available, a),
                held,
                total: Amount::sum(total, a),
            },
            BalanceOperation::WithdrawAvailable(a) => AccountBalance {
                available: Amount::difference(available, a),
                held,
                total: Amount::difference(total, a),
            },
            BalanceOperation::Hold(a) => AccountBalance {
                available: Amount::difference(available, a),
                held: Amount::sum(held, a),
                total,
            },
            BalanceOperation::Release(a) => AccountBalance {
                available: Amount::sum(available, a),
                held: Amount::difference(held, a),
                total,
            },
            BalanceOperation::WithdrawHeld(a) => AccountBalance {
                available,
                held: Amount::difference(held, a),
                total: Amount::difference(total, a),
            },
        }
    }

    /// The balance of a new account: everything zero.
    pub closed spec fn spec_new() -> AccountBalance {
        AccountBalance {
            available: Amount::spec_zero(),
            held: Amount::spec_zero(),
            total: Amount::spec_zero(),
        }
    }

    /// Each field of a new balance is zero.
    pub proof fn lemma_new_parts()
        ensures
            Self::spec_new().spec_available() == Amount::spec_zero(),
            Self::spec_new().spec_held() == Amount::spec_zero(),
            Self::spec_new().spec_total() == Amount::spec_zero(),
    {
    }

    /// The fields of the balance after `op`: the two that `op` changes are sums or
    /// differences with its amount, the third is kept.
    pub proof fn lemma_applied_parts(self, op: BalanceOperation)
        ensures
            ({
                let (n, a) = (self.applied(op), op.amount());
                match op {
                    BalanceOperation::Deposit(_) => {
                        &&& n.spec_available() == Amount::sum(self.spec_available(), a)
                        &&& n.spec_held() == self.spec_held()
                        &&& n.spec_total() == Amount::sum(self.spec_total(), a)
                    },
                    BalanceOperation::WithdrawAvailable(_) => {
                        &&& n.spec_available() == Amount::difference(self.spec_available(), a)
                        &&& n.spec_held() == self.spec_held()
                        &&& n.spec_total() == Amount::difference(self.spec_total(), a)
                    },
                    BalanceOperation::Hold(_) => {
                        &&& n.spec_available() == Amount::difference(self.spec_available(), a)
                        &&& n.spec_held() == Amount::sum(self.spec_held(), a)
                        &&& n.spec_total() == self.spec_total()
                    },
                    BalanceOperation::Release(_) => {
                        &&& n.spec_available() == Amount::sum(self.spec_available(), a)
                        &&& n.spec_held() == Amount::difference(self.spec_held(), a)
                        &&& n.spec_total() == self.spec_total()
                    },
                    BalanceOperation::WithdrawHeld(_) => {
                        &&& n.spec_available() == self.spec_available()
                        &&& n.spec_held() == Amount::difference(self.spec_held(), a)
                        &&& n.spec_total() == Amount::difference(self.spec_total(), a)
                    },
                }
            }),
    {
    }

    /// Two balances with the same three fields are the same balance.
    pub proof fn lemma_fields_determine(a: AccountBalance, b: AccountBalance)
        requires
            a.spec_available() == b.spec_available(),
            a.spec_held() == b.spec_held(),
            a.spec_total() == b.spec_total(),
        ensures
            a == b,
    {
    }

    pub proof fn lemma_new_values()
        ensures
            Self::spec_new().wf(),
            Self::spec_new().is_nonnegative(),
            Self::spec_new().spec_held().value() == 0,
            Self::spec_new().spec_total().value() == 0,
    {
        Amount::lemma_zero_value();
    }

    pub fn new() -> (r: AccountBalance)
        ensures
            r == Self::spec_new(),
            r.wf(),
            r.spec_available().value() == 0,
            r.spec_held().value() == 0,
            r.spec_total().value() == 0,
    {
        AccountBalance { available: Amount::zero(), held: Amount::zero(), total: Amount::zero() }
    }

    /// A balance of `total`, of which `held` is held: a deposit of `total` followed by a hold
    /// of `held` on a new balance.
    pub fn with_amount(total: Amount, held: Amount) -> (r: Result<AccountBalance, BalanceOperationError>)
        ensures
            ({
                let deposit = BalanceOperation::Deposit(total);
                let hold = BalanceOperation::Hold(held);
                let deposited = Self::spec_new().applied(deposit);
                match r {
                    Ok(b) => Self::spec_new().permits(deposit) && deposited.permits(hold) && b
                        == deposited.applied(hold),
                    Err(e) => if Self::spec_new().permits(deposit) {
                        !deposited.permits(hold) && e == deposited.failure(hold)
                    } else {
                        e == Self::spec_new().failure(deposit)
                    },
                }
            }),
            r matches Ok(b) ==> b.wf() && b.spec_total().value() == total.value()
                && b.spec_held().value() == held.value(),
    {
        let mut balance = Self::new();
        let deposited = balance.update(BalanceOperation::Deposit(total));
        if let Err(e) = deposited {
            return Err(e);
        }
        match balance.update(BalanceOperation::Hold(held)) {
            Ok(()) => Ok(balance),
            Err(e) => Err(e),
        }
    }

    /// Executes a balance operation atomically: on failure the balance is left as it was.
    pub fn update(&mut self, op: BalanceOperation) -> (r: Result<(), BalanceOperationError>)
        requires
            old(self).wf(),
        ensures
            r is Ok <==> old(self).permits(op),
            r is Ok ==> *final(self) == old(self).applied(op),
            r matches Err(e) ==> *final(self) == *old(self) && e == old(self).failure(op),
            final(self).wf(),
            r is Ok ==> final(self).spec_total().value() == old(self).spec_total().value()
                + op.total_change(),
            r is Ok ==> final(self).spec_held().value() == old(self).spec_held().value()
                + op.held_change(),
            old(self).is_nonnegative() && op.amount().value() >= 0
                ==> final(self).is_nonnegative(),
    {
        match op {
            BalanceOperation::Deposit(amount) => {
                match (self.total.checked_add(amount), self.available.checked_add(amount)) {
                    (Some(total), Some(available)) => {
                        self.total = total;
                        self.available = available;
                    },
                    _ => {
                        return Err(BalanceOperationError::AmountOutOfRange { requested: amount });
                    },
                }
            },
            BalanceOperation::WithdrawAvailable(amount) => {
                if let Err(e) = self.validate_available_amount(amount) {
                    return Err(e);
                }
                match (self.total.checked_sub(amount), self.available.checked_sub(amount)) {
                    (Some(total), Some(available)) => {
                        self.total = total;
                        self.available = available;
                    },
                    _ => {
                        return Err(BalanceOperationError::AmountOutOfRange { requested: amount });
                    },
                }
            },
            BalanceOperation::WithdrawHeld(amount) => {
                if let Err(e) = self.validate_held_amount(amount) {
                    return Err(e);
                }
                match (self.held.checked_sub(amount), self.total.checked_sub(amount)) {
                    (Some(held), Some(total)) => {
                        self.held = held;
                        self.total = total;
                    },
                    _ => {
                        return Err(BalanceOperationError::AmountOutOfRange { requested: amount });
                    },
                }
            },
            BalanceOperation::Hold(amount) => {
                if let Err(e) = self.validate_available_amount(amount) {
                    return Err(e);
                }
                match (self.held.checked_add(amount), self.available.checked_sub(amount)) {
                    (Some(held), Some(available)) => {
                        self.held = held;
                        self.available = available;
                    },
                    _ => {
                        return Err(BalanceOperationError::AmountOutOfRange { requested: amount });
                    },
                }
            },
            BalanceOperation::Release(amount) => {
                if let Err(e) = self.validate_held_amount(amount) {
                    return Err(e);
                }
                match (self.held.checked_sub(amount), self.available.checked_add(amount)) {
                    (Some(held), Some(available)) => {
                        self.held = held;
                        self.available = available;
                    },
                    _ => {
                        return Err(BalanceOperationError::AmountOutOfRange { requested: amount });
                    },
                }
            },
        }
        Ok(())
    }

    pub fn available(&self) -> (r: Amount)
        ensures
            r == self.spec_available(),
    {
        self.available
    }

    pub fn held(&self) -> (r: Amount)
        ensures
            r == self.spec_held(),
    {
        self.held
    }

    pub fn total(&self) -> (r: Amount)
        ensures
            r == self.spec_total(),
    {
        self.total
    }

    fn validate_available_amount(&self, amount: Amount) -> (r: Result<(), BalanceOperationError>)
        ensures
            r is Ok <==> self.spec_available().value() >= amount.value(),
            r matches Err(e) ==> e == (BalanceOperationError::InsufficientAvailableFunds {
                requested: amount,
                available: self.spec_available(),
            }),
    {
        if self.available.compare(amount) == -1 {
            Err(
                BalanceOperationError::InsufficientAvailableFunds {
                    requested: amount,
                    available: self.available,
                },
            )
        } else {
            Ok(())
        }
    }

    fn validate_held_amount(&self, amount: Amount) -> (r: Result<(), BalanceOperationError>)
        ensures
            r is Ok <==> self.spec_held().value() >= amount.value(),
            r matches Err(e) ==> e == (BalanceOperationError::InsufficientHeldFunds {
                requested: amount,
                available: self.spec_held(),
            }),
    {
        if self.held.compare(amount) == -1 {
            Err(BalanceOperationError::InsufficientHeldFunds { requested: amount, available: self.held })
        } else {
            Ok(())
        }
    }
}

impl PartialEq for AccountBalance {
    fn eq(&self, other: &AccountBalance) -> (r: bool) {
        self.available.compare(other.available) == 0 && self.held.compare(other.held) == 0
            && self.total.compare(other.total) == 0
    }
}

impl vstd::std_specs::cmp::PartialEqSpecImpl for AccountBalance {
    open spec fn obeys_eq_spec() -> bool {
        true
    }

    open spec fn eq_spec(&self, other: &AccountBalance) -> bool {
        &&& self.spec_available().value() == other.spec_available().value()
        &&& self.spec_held().value() == other.spec_held().value()
        &&& self.spec_total().value() == other.spec_total().value()
    }
}

impl Eq for AccountBalance {

}

/// Client account data.
#[derive(Debug, Clone, Copy)]
pub struct AccountData {
    id: u16,
    balance: AccountBalance,
    locked: bool,
}

impl AccountData {
    pub closed spec fn spec_id(self) -> u16 {
        self.id
    }

    pub closed spec fn spec_balance(self) -> AccountBalance {
        self.balance
    }

    pub closed spec fn spec_locked(self) -> bool {
        self.locked
    }

    /// A new, unlocked account with an empty balance.
    pub closed spec fn spec_new(id: u16) -> AccountData {
        AccountData { id, balance: AccountBalance::spec_new(), locked: false }
    }

    /// This account with `balance` in place of its balance and `locked` as its flag.
    pub closed spec fn with(self, balance: AccountBalance, locked: bool) -> AccountData {
        AccountData { id: self.id, balance, locked }
    }

    pub proof fn lemma_new(id: u16)
        ensures
            Self::spec_new(id).spec_id() == id,
            Self::spec_new(id).spec_balance() == AccountBalance::spec_new(),
            !Self::spec_new(id).spec_locked(),
    {
    }

    pub proof fn lemma_with(self, balance: AccountBalance, locked: bool)
        ensures
            self.with(balance, locked).spec_id() == self.spec_id(),
            self.with(balance, locked).spec_balance() == balance,
            self.with(balance, locked).spec_locked() == locked,
    {
    }

    pub proof fn lemma_with_twice(
        self,
        balance: AccountBalance,
        locked: bool,
        balance2: AccountBalance,
        locked2: bool,
    )
        ensures
            self.with(balance, locked).with(balance2, locked2) == self.with(balance2, locked2),
            self.with(self.spec_balance(), self.spec_locked()) == self,
    {
    }

    pub fn new(id: u16) -> (r: AccountData)
        ensures
            r == Self::spec_new(id),
            r.spec_id() == id,
            r.spec_balance() == AccountBalance::spec_new(),
            !r.spec_locked(),
    {
        AccountData { id, balance: AccountBalance::new(), locked: false }
    }

    pub fn id(&self) -> (r: u16)
        ensures
            r == self.spec_id(),
    {
        self.id
    }

    pub fn set_locked(&mut self, locked: bool)
        ensures
            *final(self) == old(self).with(old(self).spec_balance(), locked),
            final(self).spec_locked() == locked,
            final(self).spec_id() == old(self).spec_id(),
            final(self).spec_balance() == old(self).spec_balance(),
    {
        self.locked = locked;
    }

    pub fn locked(&self) -> (r: bool)
        ensures
            r == self.spec_locked(),
    {
        self.locked
    }

    pub fn balance(&self) -> (r: &AccountBalance)
        ensures
            *r == self.spec_balance(),
    {
        &self.balance
    }

    pub fn balance_mut(&mut self) -> (r: &mut AccountBalance)
        ensures
            *r == old(self).spec_balance(),
            *final(self) == old(self).with(*final(r), old(self).spec_locked()),
    {
        &mut self.balance
    }
}

/// Account database: accounts by identity, and the identities in the order in which the
/// accounts were created.
pub struct AccountStore {
    data: HashMap<u16, AccountData>,
    ids: Vec<u16>,
}

impl View for AccountStore {
    type V = Map<u16, AccountData>;

    closed spec fn view(&self) -> Map<u16, AccountData> {
        self.data@
    }
}

impl AccountStore {
    /// The identities of the accounts, in the order in which they were created.
    pub closed spec fn order(&self) -> Seq<u16> {
        self.ids@
    }

    /// Each account is stored under its own identity and listed once in `order`, and nothing
    /// else is listed.
    pub open spec fn wf(&self) -> bool {
        &&& self.order().no_duplicates()
        &&& forall|k: u16| #[trigger] self@.contains_key(k) <==> self.order().contains(k)
        &&& forall|k: u16| #[trigger] self@.contains_key(k) ==> self@[k].spec_id() == k
    }

    pub fn new() -> (r: AccountStore)
        ensures
            r@ == Map::<u16, AccountData>::empty(),
            r.order() == Seq::<u16>::empty(),
            r.wf(),
    {
        AccountStore { data: HashMap::new(), ids: Vec::new() }
    }

    pub fn contains(&self, id: u16) -> (r: bool)
        ensures
            r == self@.contains_key(id),
    {
        broadcast use vstd::std_specs::hash::group_hash_axioms;

        self.data.contains_key(&id)
    }

    pub fn get(&self, id: u16) -> (r: Option<&AccountData>)
        ensures
            r matches Some(a) ==> self@.contains_key(id) && *a == self@[id],
            r is None ==> !self@.contains_key(id),
    {
        broadcast use vstd::std_specs::hash::group_hash_axioms;

        self.data.get(&id)
    }

    /// The account `id`, created empty and unlocked where it does not exist yet.
    pub fn get_mut(&mut self, id: u16) -> (r: &mut AccountData)
        requires
            old(self).wf(),
        ensures
            *r == (if old(self)@.contains_key(id) {
                old(self)@[id]
            } else {
                AccountData::spec_new(id)
            }),
            final(self)@ == old(self)@.insert(id, *final(r)),
            r.spec_id() == id,
            final(self).order() == (if old(self)@.contains_key(id) {
                old(self).order()
            } else {
                old(self).order().push(id)
            }),
            final(r).spec_id() == id ==> final(self).wf(),
    {
        broadcast use vstd::std_specs::hash::group_hash_axioms;

        if !self.data.contains_key(&id) {
            self.ids.push(id);
            proof {
                assert(self.ids@.last() == id);
                assert forall|k: u16| #[trigger] self.ids@.contains(k) <==> (k == id
                    || old(self).ids@.contains(k)) by {
                    if old(self).ids@.contains(k) {
                        let j = choose|j: int| 0 <= j < old(self).ids@.len() && old(self).ids@[j] == k;
                        assert(self.ids@[j] == k);
                    }
                    if self.ids@.contains(k) && k != id {
                        let j = choose|j: int| 0 <= j < self.ids@.len() && self.ids@[j] == k;
                        assert(old(self).ids@[j] == k);
                    }
                }
            }
        }
        proof {
            assert forall|k: u16| #[trigger] self.ids@.contains(k) <==> (k == id
                || old(self)@.contains_key(k)) by {
                if k == id && old(self)@.contains_key(k) {
                    assert(old(self).ids@.contains(k));
                }
            }
        }
        self.data.entry(id).or_insert(AccountData::new(id))
    }

    pub fn balance(&self, id: u16) -> (r: Option<&AccountBalance>)
        ensures
            r matches Some(b) ==> self@.contains_key(id) && *b == self@[id].spec_balance(),
            r is None ==> !self@.contains_key(id),
    {
        match self.get(id) {
            Some(account) => Some(account.balance()),
            None => None,
        }
    }

    /// Every account, in the order in which they were created.
    pub fn all(&self) -> (r: Vec<AccountData>)
        requires
            self.wf(),
        ensures
            r@ == self.order().map_values(|k: u16| self@[k]),
    {
        broadcast use vstd::std_specs::hash::group_hash_axioms;

        let mut out: Vec<AccountData> = Vec::new();
        let mut i: usize = 0;
        while i < self.ids.len()
            invariant
                self.wf(),
                i <= self.ids@.len(),
                out@ == self.order().take(i as int).map_values(|k: u16| self@[k]),
            decreases self.ids@.len() - i,
        {
            let id = self.ids[i];
            proof {
                assert(self.order().contains(id));
            }
            match self.data.get(&id) {
                Some(account) => out.push(*account),
                None => {},
            }
            proof {
                assert(self.order().take(i + 1) =~= self.order().take(i as int).push(id));
            }
            i = i + 1;
        }
        proof {
            assert(self.order().take(i as int) =~= self.order());
        }
        out
    }
}

} // verus!
