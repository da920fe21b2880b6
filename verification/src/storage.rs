use crate::account::{Account, AccountView};
use crate::payments::{Tx, TxView};
use std::collections::HashMap;
use vstd::prelude::*;

verus! {

broadcast use vstd::std_specs::hash::group_hash_axioms;

/// The accounts of `accounts` whose client id is below `bound`, in ascending
/// order of client id.
pub open spec fn accounts_below(accounts: Map<u16, AccountView>, bound: int) -> Seq<AccountView>
    decreases bound,
{
    if bound <= 0 {
        Seq::empty()
    } else if accounts.contains_key((bound - 1) as u16) {
        accounts_below(accounts, bound - 1).push(accounts[(bound - 1) as u16])
    } else {
        accounts_below(accounts, bound - 1)
    }
}

/// Every account of `accounts`, in ascending order of client id.
pub open spec fn listed(accounts: Map<u16, AccountView>) -> Seq<AccountView> {
    accounts_below(accounts, 0x1_0000)
}

/// The views of a sequence of accounts.
pub open spec fn account_views(accounts: Seq<Account>) -> Seq<AccountView> {
    accounts.map_values(|account: Account| account@)
}

/// A store of accounts, one for each client id at most.
pub trait AccountsDal {
    /// The accounts that the store holds, by client id.
    spec fn account_map(&self) -> Map<u16, AccountView>;

    /// The account of client `id`, if the store holds one.
    fn account(&self, id: u16) -> (found: Option<Account>)
        ensures
            match found {
                Some(account) => self.account_map().contains_key(id) && account@
                    == self.account_map()[id] && account@.client_id == id,
                None => !self.account_map().contains_key(id),
            },
    ;

    /// Puts the account under its client id, in place of what was there.
    fn insert(&mut self, account: Account)
        ensures
            final(self).account_map() == old(self).account_map().insert(
                account@.client_id,
                account@,
            ),
    ;

    /// Every account of the store, in ascending order of client id.
    fn accounts(&self) -> (all: Vec<Account>)
        ensures
            account_views(all@) == listed(self.account_map()),
    ;
}

/// A store of transactions, one for each transaction id at most.
pub trait TxsDal {
    /// The transactions that the store holds, by id.
    spec fn tx_map(&self) -> Map<u32, TxView>;

    /// The transaction with this id, if the store holds one.
    fn tx(&self, id: u32) -> (found: Option<Tx>)
        ensures
            match found {
                Some(tx) => self.tx_map().contains_key(id) && tx@ == self.tx_map()[id] && tx@.id
                    == id,
                None => !self.tx_map().contains_key(id),
            },
    ;

    /// Puts the transaction under its id, in place of what was there.
    fn insert(&mut self, tx: Tx)
        ensures
            final(self).tx_map() == old(self).tx_map().insert(tx@.id, tx@),
    ;
}

/// Accounts in a hash map.
pub struct InMemoryAccountLedger {
    records: HashMap<u16, Account>,
}

impl InMemoryAccountLedger {
    #[verifier::type_invariant]
    spec fn keyed_by_client(self) -> bool {
        forall|id: u16| #[trigger]
            self.records@.contains_key(id) ==> self.records@[id]@.client_id == id
    }
}

impl Default for InMemoryAccountLedger {
    fn default() -> (ledger: Self)
        ensures
            ledger.account_map() == Map::<u16, AccountView>::empty(),
    {
        InMemoryAccountLedger { records: HashMap::new() }
    }
}

impl AccountsDal for InMemoryAccountLedger {
    closed spec fn account_map(&self) -> Map<u16, AccountView> {
        self.records@.map_values(|account: Account| account@)
    }

    fn account(&self, id: u16) -> (found: Option<Account>) {
        proof {
            use_type_invariant(self);
        }
        match self.records.get(&id) {
            Some(account) => Some(*account),
            None => None,
        }
    }

    fn insert(&mut self, account: Account) {
        proof {
            use_type_invariant(&*self);
        }
        // The map leaves `self` while it changes: an insertion may unwind.
        let mut records: HashMap<u16, Account> = HashMap::new();
        core::mem::swap(&mut self.records, &mut records);
        records.insert(account.client_id(), account);
        self.records = records;
    }

    fn accounts(&self) -> (all: Vec<Account>) {
        let mut all: Vec<Account> = Vec::new();
        let mut id: u32 = 0;
        while id < 0x1_0000
            invariant
                id <= 0x1_0000,
                account_views(all@) == accounts_below(self.account_map(), id as int),
            decreases 0x1_0000 - id,
        {
            match self.records.get(&(id as u16)) {
                Some(account) => {
                    all.push(*account);
                },
                None => {},
            }
            id += 1;
        }
        all
    }
}

/// Transactions in a hash map.
pub struct InMemoryTxLedger {
    records: HashMap<u32, Tx>,
}

impl InMemoryTxLedger {
    #[verifier::type_invariant]
    spec fn keyed_by_id(self) -> bool {
        forall|id: u32| #[trigger] self.records@.contains_key(id) ==> self.records@[id]@.id == id
    }
}

impl Default for InMemoryTxLedger {
    fn default() -> (ledger: Self)
        ensures
            ledger.tx_map() == Map::<u32, TxView>::empty(),
    {
        InMemoryTxLedger { records: HashMap::new() }
    }
}

impl TxsDal for InMemoryTxLedger {
    closed spec fn tx_map(&self) -> Map<u32, TxView> {
        self.records@.map_values(|tx: Tx| tx@)
    }

    fn tx(&self, id: u32) -> (found: Option<Tx>) {
        proof {
            use_type_invariant(self);
        }
        match self.records.get(&id) {
            Some(tx) => Some(*tx),
            None => None,
        }
    }

    fn insert(&mut self, tx: Tx) {
        proof {
            use_type_invariant(&*self);
        }
        // The map leaves `self` while it changes: an insertion may unwind.
        let mut records: HashMap<u32, Tx> = HashMap::new();
        core::mem::swap(&mut self.records, &mut records);
        records.insert(tx.id(), tx);
        self.records = records;
    }
}

} // verus!
