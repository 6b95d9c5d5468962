use std::collections::HashMap;
use vstd::prelude::*;

use crate::amount::Amount;
use vstd::string::StringSliceAdditionalSpecFns;

verus! {

#[derive(Debug, Clone, Copy, PartialEq, Eq, Structural)]
pub enum TransactionStoreError {
    /// Only deposits and withdrawals are stored.
    InvalidType(TransactionType),
    AmountNotAvailable,
}

#[derive(Debug, Clone, Copy, PartialEq, Eq, Structural)]
pub enum TransactionType {
    Deposit,
    Withdrawal,
    Dispute,
    Resolve,
    Chargeback,
}

/// An ASCII letter in lower case; any other byte unchanged.
pub open spec fn ascii_lower(b: u8) -> u8 {
    if 65 <= b <= 90 {
        (b + 32) as u8
    } else {
        b
    }
}

/// Whether `name` spells `word`, a lower-case word, ignoring ASCII case.
pub open spec fn spells(name: Seq<u8>, word: Seq<u8>) -> bool {
    &&& name.len() == word.len()
    &&& forall|i: int| 0 <= i < name.len() ==> ascii_lower(#[trigger] name[i]) == word[i]
}

fn spells_exec(name: &[u8], word: &Vec<u8>) -> (r: bool)
    ensures
        r == spells(name@, word@),
{
    if name.len() != word.len() {
        return false;
    }
    let mut i: usize = 0;
    while i < name.len()
        invariant
            i <= name@.len(),
            name@.len() == word@.len(),
            forall|j: int| 0 <= j < i ==> ascii_lower(#[trigger] name@[j]) == word@[j],
        decreases name@.len() - i,
    {
        let b = name[i];
        let lower: u8 = if 65 <= b && b <= 90 {
            b + 32
        } else {
            b
        };
        if lower != word[i] {
            return false;
        }
        i = i + 1;
    }
    true
}

impl TransactionType {
    /// The kind's name in lower case, as ASCII bytes.
    pub open spec fn spec_name(self) -> Seq<u8> {
        match self {
            TransactionType::Deposit => seq![100u8, 101, 112, 111, 115, 105, 116],
            TransactionType::Withdrawal => seq![119u8, 105, 116, 104, 100, 114, 97, 119, 97, 108],
            TransactionType::Dispute => seq![100u8, 105, 115, 112, 117, 116, 101],
            TransactionType::Resolve => seq![114u8, 101, 115, 111, 108, 118, 101],
            TransactionType::Chargeback => seq![99u8, 104, 97, 114, 103, 101, 98, 97, 99, 107],
        }
    }

    fn name(self) -> (r: Vec<u8>)
        ensures
            r@ == self.spec_name(),
    {
        let r: Vec<u8> = match self {
            TransactionType::Deposit => vec![100u8, 101, 112, 111, 115, 105, 116],
            TransactionType::Withdrawal => vec![119u8, 105, 116, 104, 100, 114, 97, 119, 97, 108],
            TransactionType::Dispute => vec![100u8, 105, 115, 112, 117, 116, 101],
            TransactionType::Resolve => vec![114u8, 101, 115, 111, 108, 118, 101],
            TransactionType::Chargeback => vec![99u8, 104, 97, 114, 103, 101, 98, 97, 99, 107],
        };
        proof {
            assert(r@ =~= self.spec_name());
        }
        r
    }

    /// The kind that `name` names, in any mix of ASCII case ("deposit", "Dispute",
    /// "CHARGEBACK").
    pub fn from_name(name: &str) -> (r: Option<TransactionType>)
        ensures
            r matches Some(t) ==> spells(name.spec_bytes(), t.spec_name()),
            r is None ==> forall|t: TransactionType| !spells(name.spec_bytes(), #[trigger] t.spec_name()),
    {
        let bytes = name.as_bytes();
        let kinds = [
            TransactionType::Deposit,
            TransactionType::Withdrawal,
            TransactionType::Dispute,
            TransactionType::Resolve,
            TransactionType::Chargeback,
        ];
        let mut i: usize = 0;
        while i < 5
            invariant
                i <= 5,
                kinds@ == seq![
                    TransactionType::Deposit,
                    TransactionType::Withdrawal,
                    TransactionType::Dispute,
                    TransactionType::Resolve,
                    TransactionType::Chargeback,
                ],
                bytes@ == name.spec_bytes(),
                forall|j: int| 0 <= j < i ==> !spells(bytes@, #[trigger] kinds@[j].spec_name()),
            decreases 5 - i,
        {
            let kind = kinds[i];
            if spells_exec(bytes, &kind.name()) {
                return Some(kind);
            }
            i = i + 1;
        }
        proof {
            assert forall|t: TransactionType| !spells(name.spec_bytes(), #[trigger] t.spec_name()) by {
                match t {
                    TransactionType::Deposit => assert(kinds@[0] == t),
                    TransactionType::Withdrawal => assert(kinds@[1] == t),
                    TransactionType::Dispute => assert(kinds@[2] == t),
                    TransactionType::Resolve => assert(kinds@[3] == t),
                    TransactionType::Chargeback => assert(kinds@[4] == t),
                }
            }
        }
        None
    }
}

/// Raw transaction data coming from an input stream.
///
/// Needs validation before executing.
#[derive(Debug, Clone, Copy)]
pub struct RawTransactionData {
    pub id: u32,
    pub ty: TransactionType,
    pub account_id: u16,
    pub amount: Option<Amount>,
}

#[derive(Debug, Clone, Copy, PartialEq, Eq, Structural)]
pub enum TransactionStatus {
    /// Not disputed: the state a record is created in.
    Undisputed,
    UnderDispute,
    Cancelled,
}

#[derive(Debug, Clone, Copy, PartialEq, Eq, Structural)]
pub enum StoredTransactionType {
    Deposit,
    Withdrawal,
}

impl StoredTransactionType {
    /// The stored kind of a deposit or a withdrawal.
    pub open spec fn spec_from_type(ty: TransactionType) -> Result<
        StoredTransactionType,
        TransactionStoreError,
    > {
        match ty {
            TransactionType::Deposit => Ok(StoredTransactionType::Deposit),
            TransactionType::Withdrawal => Ok(StoredTransactionType::Withdrawal),
            _ => Err(TransactionStoreError::InvalidType(ty)),
        }
    }

    pub fn try_from(ty: TransactionType) -> (r: Result<StoredTransactionType, TransactionStoreError>)
        ensures
            r == Self::spec_from_type(ty),
    {
        match ty {
            TransactionType::Deposit => Ok(StoredTransactionType::Deposit),
            TransactionType::Withdrawal => Ok(StoredTransactionType::Withdrawal),
            _ => Err(TransactionStoreError::InvalidType(ty)),
        }
    }
}

/// Processed transaction data, as stored in the database.
#[derive(Debug, Clone, Copy)]
pub struct TransactionData {
    pub id: u32,
    pub ty: StoredTransactionType,
    pub account_id: u16,
    pub amount: Amount,
    pub status: TransactionStatus,
}

impl TransactionData {
    /// The record that an accepted deposit or withdrawal leaves.
    pub open spec fn spec_from_raw(raw: RawTransactionData) -> Result<
        TransactionData,
        TransactionStoreError,
    > {
        match StoredTransactionType::spec_from_type(raw.ty) {
            Err(e) => Err(e),
            Ok(ty) => match raw.amount {
                None => Err(TransactionStoreError::AmountNotAvailable),
                Some(amount) => Ok(
                    TransactionData {
                        id: raw.id,
                        ty,
                        account_id: raw.account_id,
                        amount,
                        status: TransactionStatus::Undisputed,
                    },
                ),
            },
        }
    }

    pub fn try_from(raw: &RawTransactionData) -> (r: Result<TransactionData, TransactionStoreError>)
        ensures
            r == Self::spec_from_raw(*raw),
    {
        let ty = match StoredTransactionType::try_from(raw.ty) {
            Ok(ty) => ty,
            Err(e) => return Err(e),
        };
        match raw.amount {
            None => Err(TransactionStoreError::AmountNotAvailable),
            Some(amount) => Ok(
                TransactionData {
                    id: raw.id,
                    ty,
                    account_id: raw.account_id,
                    amount,
                    status: TransactionStatus::Undisputed,
                },
            ),
        }
    }
}

/// Transaction database: records by identity, and, as a proof aid, the identities in the
/// order in which they were first stored.
pub struct TransactionStore {
    data: HashMap<u32, TransactionData>,
    order: Ghost<Seq<u32>>,
}

impl View for TransactionStore {
    type V = Map<u32, TransactionData>;

    closed spec fn view(&self) -> Map<u32, TransactionData> {
        self.data@
    }
}

impl TransactionStore {
    /// The identities of the records, in the order in which they were first stored.
    pub closed spec fn order(&self) -> Seq<u32> {
        self.order@
    }

    /// Each record is listed once in `order`, and nothing else is.
    pub open spec fn wf(&self) -> bool {
        &&& self.order().no_duplicates()
        &&& forall|k: u32| #[trigger] self@.contains_key(k) <==> self.order().contains(k)
    }

    pub fn new() -> (r: TransactionStore)
        ensures
            r@ == Map::<u32, TransactionData>::empty(),
            r.order() == Seq::<u32>::empty(),
            r.wf(),
    {
        TransactionStore { data: HashMap::new(), order: Ghost(Seq::empty()) }
    }

    pub fn contains(&self, id: u32) -> (r: bool)
        ensures
            r == self@.contains_key(id),
    {
        broadcast use vstd::std_specs::hash::group_hash_axioms;

        self.data.contains_key(&id)
    }

    pub fn get(&self, id: u32) -> (r: Option<&TransactionData>)
        ensures
            r matches Some(t) ==> self@.contains_key(id) && *t == self@[id],
            r is None ==> !self@.contains_key(id),
    {
        broadcast use vstd::std_specs::hash::group_hash_axioms;

        self.data.get(&id)
    }

    /// Stores `data` under its identity, in place of any record stored there before.
    pub fn insert(&mut self, data: TransactionData)
        requires
            old(self).wf(),
        ensures
            final(self)@ == old(self)@.insert(data.id, data),
            final(self).order() == (if old(self)@.contains_key(data.id) {
                old(self).order()
            } else {
                old(self).order().push(data.id)
            }),
            final(self).wf(),
    {
        broadcast use vstd::std_specs::hash::group_hash_axioms;

        let id = data.id;
        if !self.data.contains_key(&id) {
            let ghost prev = self.order@;
            self.order = Ghost(self.order@.push(id));
            proof {
                assert(self.order@.last() == id);
                assert(self.order@[prev.len() as int] == id);
                assert forall|k: u32| #[trigger] self.order@.contains(k) <==> (k == id
                    || prev.contains(k)) by {
                    if prev.contains(k) {
                        let j = choose|j: int| 0 <= j < prev.len() && prev[j] == k;
                        assert(self.order@[j] == k);
                    }
                    if self.order@.contains(k) && k != id {
                        let j = choose|j: int| 0 <= j < self.order@.len() && self.order@[j] == k;
                        assert(prev[j] == k);
                    }
                }
            }
        }
        proof {
            assert forall|k: u32| #[trigger] self.order@.contains(k) <==> (k == id
                || old(self)@.contains_key(k)) by {
                if k == id && old(self)@.contains_key(k) {
                    assert(old(self).order@.contains(k));
                }
            }
        }
        self.data.insert(id, data);
    }

    /// Sets the status of the record `id`, where one is stored; reports whether it was.
    pub fn set_status(&mut self, id: u32, status: TransactionStatus) -> (r: bool)
        requires
            old(self).wf(),
        ensures
            r == old(self)@.contains_key(id),
            r ==> final(self)@ == old(self)@.insert(
                id,
                TransactionData { status, ..old(self)@[id] },
            ),
            !r ==> final(self)@ == old(self)@,
            final(self).order() == old(self).order(),
            final(self).wf(),
    {
        broadcast use vstd::std_specs::hash::group_hash_axioms;

        let current = match self.data.get(&id) {
            Some(t) => *t,
            None => return false,
        };
        self.data.insert(id, TransactionData { status, ..current });
        proof {
            assert forall|k: u32| #[trigger] self@.contains_key(k) <==> self.order().contains(k) by {
                if k == id {
                    assert(old(self)@.contains_key(k));
                }
            }
        }
        true
    }
}

} // verus!
