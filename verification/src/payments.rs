use crate::account::{Account, AccountView};
use crate::error::Error;
use crate::storage::{AccountsDal, TxsDal};
use vstd::prelude::*;

verus! {

/// The kind of a record.
#[derive(Debug, Clone, Copy, PartialEq, Eq, Structural)]
pub enum TxType {
    Dispute,
    Resolve,
    Chargeback,
    Deposit,
    Withdrawal,
}

/// The lower-case form of an upper-case ASCII letter, and any other character
/// as it is.
pub open spec fn ascii_lower(c: char) -> char {
    if 'A' <= c && c <= 'Z' {
        ((c as u8) + 32) as char
    } else {
        c
    }
}

/// Whether `text` is `name`, but for the case of its ASCII letters. `name` is
/// meant to be in lower case.
pub open spec fn spells(text: Seq<char>, name: Seq<char>) -> bool {
    text.map_values(|c: char| ascii_lower(c)) == name
}

/// The kind that `text` names.
pub open spec fn kind_named(text: Seq<char>) -> Option<TxType> {
    if spells(text, "deposit"@) {
        Some(TxType::Deposit)
    } else if spells(text, "withdrawal"@) {
        Some(TxType::Withdrawal)
    } else if spells(text, "dispute"@) {
        Some(TxType::Dispute)
    } else if spells(text, "resolve"@) {
        Some(TxType::Resolve)
    } else if spells(text, "chargeback"@) {
        Some(TxType::Chargeback)
    } else {
        None
    }
}

fn lower(c: char) -> (lowered: char)
    ensures
        lowered == ascii_lower(c),
{
    if 'A' <= c && c <= 'Z' {
        ((c as u8) + 32) as char
    } else {
        c
    }
}

fn is_spelling_of(text: &str, name: &str) -> (same: bool)
    ensures
        same == spells(text@, name@),
{
    let ghost lowered = text@.map_values(|c: char| ascii_lower(c));
    let len = name.unicode_len();
    if text.unicode_len() != len {
        return false;
    }
    let mut at: usize = 0;
    while at < len
        invariant
            at <= len,
            len == name@.len(),
            len == text@.len(),
            lowered == text@.map_values(|c: char| ascii_lower(c)),
            forall|i: int| 0 <= i < at ==> lowered[i] == name@[i],
        decreases len - at,
    {
        if lower(text.get_char(at)) != name.get_char(at) {
            assert(lowered[at as int] != name@[at as int]);
            return false;
        }
        at += 1;
    }
    assert(lowered =~= name@);
    true
}

impl TxType {
    /// Reads the kind of a record from its name: `deposit`, `withdrawal`,
    /// `dispute`, `resolve` or `chargeback`, in upper or lower case.
    pub fn from_name(text: &str) -> (kind: Option<TxType>)
        ensures
            kind == kind_named(text@),
    {
        if is_spelling_of(text, "deposit") {
            Some(TxType::Deposit)
        } else if is_spelling_of(text, "withdrawal") {
            Some(TxType::Withdrawal)
        } else if is_spelling_of(text, "dispute") {
            Some(TxType::Dispute)
        } else if is_spelling_of(text, "resolve") {
            Some(TxType::Resolve)
        } else if is_spelling_of(text, "chargeback") {
            Some(TxType::Chargeback)
        } else {
            None
        }
    }
}

/// What a [`Tx`] holds, as mathematical values.
pub struct TxView {
    pub kind: TxType,
    pub client: u16,
    pub id: u32,
    pub amount: Option<nat>,
    pub disputed: bool,
}

impl TxView {
    /// Whether the record is kept for later disputes.
    pub open spec fn storable(self) -> bool {
        self.kind == TxType::Withdrawal || self.kind == TxType::Deposit
    }
}

/// One record: a deposit or a withdrawal with its amount, or a dispute, a
/// resolve or a chargeback, whose `id` is that of the transaction it refers to.
#[derive(Debug, Clone, Copy)]
pub struct Tx {
    kind: TxType,
    client: u16,
    id: u32,
    amount: Option<u128>,
    disputed: bool,
}

impl View for Tx {
    type V = TxView;

    closed spec fn view(&self) -> TxView {
        TxView {
            kind: self.kind,
            client: self.client,
            id: self.id,
            amount: match self.amount {
                Some(amount) => Some(amount as nat),
                None => None,
            },
            disputed: self.disputed,
        }
    }
}

impl Tx {
    pub fn new(kind: TxType, client: u16, id: u32, amount: Option<u128>, disputed: bool) -> (tx:
        Tx)
        ensures
            tx@ == (TxView {
                kind,
                client,
                id,
                amount: match amount {
                    Some(amount) => Some(amount as nat),
                    None => None,
                },
                disputed,
            }),
    {
        Tx { kind, client, id, amount, disputed }
    }

    pub fn mark_disputed(&mut self)
        ensures
            final(self)@ == (TxView { disputed: true, ..old(self)@ }),
    {
        self.disputed = true;
    }

    pub fn disputed(&self) -> (disputed: bool)
        ensures
            disputed == self@.disputed,
    {
        self.disputed
    }

    pub fn storable(&self) -> (storable: bool)
        ensures
            storable == self@.storable(),
    {
        self.kind == TxType::Withdrawal || self.kind == TxType::Deposit
    }

    pub fn mark_resolved(&mut self)
        ensures
            final(self)@ == (TxView { disputed: false, ..old(self)@ }),
    {
        self.disputed = false;
    }

    pub fn mark_charged_back(&mut self)
        ensures
            final(self)@ == (TxView { disputed: false, ..old(self)@ }),
    {
        self.disputed = false;
    }

    pub fn id(&self) -> (id: u32)
        ensures
            id == self@.id,
    {
        self.id
    }

    pub fn amount(&self) -> (amount: Option<u128>)
        ensures
            match amount {
                Some(amount) => self@.amount == Some(amount as nat),
                None => self@.amount is None,
            },
    {
        self.amount
    }

    pub fn kind(&self) -> (kind: TxType)
        ensures
            kind == self@.kind,
    {
        self.kind
    }

    pub fn client(&self) -> (client: u16)
        ensures
            client == self@.client,
    {
        self.client
    }
}

/// The accounts and the stored transactions, as mathematical values.
#[verifier::ext_equal]
pub struct LedgerView {
    pub accounts: Map<u16, AccountView>,
    pub txs: Map<u32, TxView>,
}

/// What handling one record leaves behind, and what it reports.
#[verifier::ext_equal]
pub struct Handled {
    pub ledger: LedgerView,
    pub result: Result<(), Error>,
}

/// The accounts once `client` is known: an unseen client gets an unlocked
/// account without funds.
pub open spec fn opened(accounts: Map<u16, AccountView>, client: u16) -> Map<u16, AccountView> {
    if accounts.contains_key(client) {
        accounts
    } else {
        accounts.insert(client, AccountView::unlocked(client))
    }
}

/// A deposit adds its amount to the available funds of an unlocked account.
pub open spec fn deposited(account: AccountView, tx: TxView) -> Result<AccountView, Error> {
    if account.locked {
        Err(Error::AccountLocked(tx.client))
    } else if tx.amount is None {
        Err(Error::MissingAmount(tx.id))
    } else if account.available + tx.amount->0 > u128::MAX {
        Err(Error::MaxAvailableOverflow)
    } else {
        Ok(AccountView { available: account.available + tx.amount->0, ..account })
    }
}

/// A withdrawal takes its amount from the available funds of an unlocked
/// account that holds as much.
pub open spec fn withdrawn(account: AccountView, tx: TxView) -> Result<AccountView, Error> {
    if account.locked {
        Err(Error::AccountLocked(tx.client))
    } else if tx.amount is None {
        Err(Error::MissingAmount(tx.id))
    } else if tx.amount->0 > account.available {
        Err(Error::MinAvailableUnderflow)
    } else {
        Ok(AccountView { available: (account.available - tx.amount->0) as nat, ..account })
    }
}

/// A dispute of `target` moves its amount from the available to the held
/// funds and marks it disputed. The target must be an undisputed deposit, the
/// account unlocked, and the available funds must cover the amount.
pub open spec fn disputed(account: AccountView, target: TxView, tx: TxView) -> Result<
    (AccountView, TxView),
    Error,
> {
    if target.disputed {
        Err(Error::TxAlreadyDisputed(tx.id))
    } else if account.locked {
        Err(Error::AccountLocked(tx.client))
    } else if target.kind != TxType::Deposit {
        Err(Error::InvalidDispute(tx.id))
    } else if target.amount is None {
        Err(Error::MissingAmount(tx.id))
    } else if target.amount->0 > account.available {
        Err(Error::MinAvailableUnderflow)
    } else if account.held + target.amount->0 > u128::MAX {
        Err(Error::MaxHeldOverflow)
    } else {
        Ok(
            (
                AccountView {
                    available: (account.available - target.amount->0) as nat,
                    held: account.held + target.amount->0,
                    ..account
                },
                TxView { disputed: true, ..target },
            ),
        )
    }
}

/// A resolve of `target` moves its amount back from the held to the available
/// funds and ends the dispute. The target must be disputed, the account
/// unlocked, and the held funds must cover the amount.
pub open spec fn resolved(account: AccountView, target: TxView, tx: TxView) -> Result<
    (AccountView, TxView),
    Error,
> {
    if !target.disputed {
        Err(Error::TxNotDisputed(tx.id))
    } else if account.locked {
        Err(Error::AccountLocked(tx.client))
    } else if target.amount is None {
        Err(Error::MissingAmount(tx.id))
    } else if target.amount->0 > account.held {
        Err(Error::MinHeldUnderflow)
    } else if account.available + target.amount->0 > u128::MAX {
        Err(Error::MaxAvailableOverflow)
    } else {
        Ok(
            (
                AccountView {
                    available: account.available + target.amount->0,
                    held: (account.held - target.amount->0) as nat,
                    ..account
                },
                TxView { disputed: false, ..target },
            ),
        )
    }
}

/// A chargeback of `target` removes its amount from the held funds, locks the
/// account and ends the dispute. The target must be disputed, the account
/// unlocked, and the held funds must cover the amount.
pub open spec fn charged_back(account: AccountView, target: TxView, tx: TxView) -> Result<
    (AccountView, TxView),
    Error,
> {
    if !target.disputed {
        Err(Error::TxNotDisputed(tx.id))
    } else if account.locked {
        Err(Error::AccountLocked(tx.client))
    } else if target.amount is None {
        Err(Error::MissingAmount(tx.id))
    } else if target.amount->0 > account.held {
        Err(Error::MinHeldUnderflow)
    } else {
        Ok(
            (
                AccountView {
                    held: (account.held - target.amount->0) as nat,
                    locked: true,
                    ..account
                },
                TxView { disputed: false, ..target },
            ),
        )
    }
}

/// What a deposit or a withdrawal makes of the account of its client.
pub open spec fn moved(account: AccountView, tx: TxView) -> Result<AccountView, Error> {
    if tx.kind == TxType::Deposit {
        deposited(account, tx)
    } else {
        withdrawn(account, tx)
    }
}

/// What a dispute, a resolve or a chargeback makes of the account of its
/// client and of the transaction it refers to.
pub open spec fn settled(account: AccountView, target: TxView, tx: TxView) -> Result<
    (AccountView, TxView),
    Error,
> {
    if tx.kind == TxType::Dispute {
        disputed(account, target, tx)
    } else if tx.kind == TxType::Resolve {
        resolved(account, target, tx)
    } else {
        charged_back(account, target, tx)
    }
}

/// Handling one record. The account of the record's client is opened where
/// it is unseen, whatever follows. A deposit or withdrawal changes that
/// account alone. A dispute, resolve or chargeback looks for the stored
/// transaction with the record's id, whoever its client is, and changes that
/// transaction and the account of the record's client together. A record that
/// is rejected changes nothing more.
pub open spec fn handled(ledger: LedgerView, tx: TxView) -> Handled {
    let accounts = opened(ledger.accounts, tx.client);
    let untouched = LedgerView { accounts, txs: ledger.txs };
    if tx.storable() {
        match moved(accounts[tx.client], tx) {
            Ok(account) => Handled {
                ledger: LedgerView {
                    accounts: accounts.insert(tx.client, account),
                    txs: ledger.txs,
                },
                result: Ok(()),
            },
            Err(error) => Handled { ledger: untouched, result: Err(error) },
        }
    } else if !ledger.txs.contains_key(tx.id) {
        Handled { ledger: untouched, result: Err(Error::TxNotFound) }
    } else {
        match settled(accounts[tx.client], ledger.txs[tx.id], tx) {
            Ok((account, target)) => Handled {
                ledger: LedgerView {
                    accounts: accounts.insert(tx.client, account),
                    txs: ledger.txs.insert(tx.id, target),
                },
                result: Ok(()),
            },
            Err(error) => Handled { ledger: untouched, result: Err(error) },
        }
    }
}

/// Taking in one record: it is handled, and a deposit or withdrawal is then
/// stored under its id, in place of what was there, whether or not it was
/// rejected.
pub open spec fn applied(ledger: LedgerView, tx: TxView) -> Handled {
    let handled = handled(ledger, tx);
    if tx.storable() {
        Handled {
            ledger: LedgerView {
                accounts: handled.ledger.accounts,
                txs: handled.ledger.txs.insert(tx.id, tx),
            },
            result: handled.result,
        }
    } else {
        handled
    }
}

/// The ledger after a run of records, each taken in in turn.
pub open spec fn replayed(ledger: LedgerView, txs: Seq<TxView>) -> LedgerView
    decreases txs.len(),
{
    if txs.len() == 0 {
        ledger
    } else {
        applied(replayed(ledger, txs.drop_last()), txs.last()).ledger
    }
}

/// What each record of a run reports.
pub open spec fn outcomes(ledger: LedgerView, txs: Seq<TxView>) -> Seq<Result<(), Error>> {
    Seq::new(txs.len(), |i: int| applied(replayed(ledger, txs.take(i)), txs[i]).result)
}

/// The views of a sequence of records.
pub open spec fn tx_views(txs: Seq<Tx>) -> Seq<TxView> {
    txs.map_values(|tx: Tx| tx@)
}

fn deposit(account: Account, tx: &Tx) -> (outcome: Result<Account, Error>)
    requires
        account@.client_id == tx@.client,
    ensures
        match outcome {
            Ok(updated) => deposited(account@, tx@) == Ok::<AccountView, Error>(updated@),
            Err(error) => deposited(account@, tx@) == Err::<AccountView, Error>(error),
        },
{
    let mut account = account;
    if account.is_locked() {
        return Err(Error::AccountLocked(account.client_id()));
    }
    let amount = match tx.amount() {
        Some(amount) => amount,
        None => {
            return Err(Error::MissingAmount(tx.id()));
        },
    };
    match account.add_available(amount) {
        Ok(()) => Ok(account),
        Err(error) => Err(error),
    }
}

fn withdraw(account: Account, tx: &Tx) -> (outcome: Result<Account, Error>)
    requires
        account@.client_id == tx@.client,
    ensures
        match outcome {
            Ok(updated) => withdrawn(account@, tx@) == Ok::<AccountView, Error>(updated@),
            Err(error) => withdrawn(account@, tx@) == Err::<AccountView, Error>(error),
        },
{
    let mut account = account;
    if account.is_locked() {
        return Err(Error::AccountLocked(account.client_id()));
    }
    let amount = match tx.amount() {
        Some(amount) => amount,
        None => {
            return Err(Error::MissingAmount(tx.id()));
        },
    };
    match account.sub_available(amount) {
        Ok(()) => Ok(account),
        Err(error) => Err(error),
    }
}

fn dispute(account: Account, target: Tx, tx: &Tx) -> (outcome: Result<(Account, Tx), Error>)
    requires
        account@.client_id == tx@.client,
        target@.id == tx@.id,
    ensures
        match outcome {
            Ok((updated, marked)) => disputed(account@, target@, tx@) == Ok::<
                (AccountView, TxView),
                Error,
            >((updated@, marked@)),
            Err(error) => disputed(account@, target@, tx@) == Err::<(AccountView, TxView), Error>(
                error,
            ),
        },
{
    let mut account = account;
    let mut target = target;
    if target.disputed() {
        return Err(Error::TxAlreadyDisputed(target.id()));
    }
    if account.is_locked() {
        return Err(Error::AccountLocked(account.client_id()));
    }
    if target.kind() != TxType::Deposit {
        return Err(Error::InvalidDispute(target.id()));
    }
    let amount = match target.amount() {
        Some(amount) => amount,
        None => {
            return Err(Error::MissingAmount(target.id()));
        },
    };
    match account.sub_available(amount) {
        Ok(()) => {},
        Err(error) => {
            return Err(error);
        },
    }
    match account.add_held(amount) {
        Ok(()) => {},
        Err(error) => {
            return Err(error);
        },
    }
    target.mark_disputed();
    Ok((account, target))
}

fn resolve(account: Account, target: Tx, tx: &Tx) -> (outcome: Result<(Account, Tx), Error>)
    requires
        account@.client_id == tx@.client,
        target@.id == tx@.id,
    ensures
        match outcome {
            Ok((updated, marked)) => resolved(account@, target@, tx@) == Ok::<
                (AccountView, TxView),
                Error,
            >((updated@, marked@)),
            Err(error) => resolved(account@, target@, tx@) == Err::<(AccountView, TxView), Error>(
                error,
            ),
        },
{
    let mut account = account;
    let mut target = target;
    if !target.disputed() {
        return Err(Error::TxNotDisputed(target.id()));
    }
    if account.is_locked() {
        return Err(Error::AccountLocked(account.client_id()));
    }
    let amount = match target.amount() {
        Some(amount) => amount,
        None => {
            return Err(Error::MissingAmount(target.id()));
        },
    };
    match account.sub_held(amount) {
        Ok(()) => {},
        Err(error) => {
            return Err(error);
        },
    }
    match account.add_available(amount) {
        Ok(()) => {},
        Err(error) => {
            return Err(error);
        },
    }
    target.mark_resolved();
    Ok((account, target))
}

fn charge_back(account: Account, target: Tx, tx: &Tx) -> (outcome: Result<(Account, Tx), Error>)
    requires
        account@.client_id == tx@.client,
        target@.id == tx@.id,
    ensures
        match outcome {
            Ok((updated, marked)) => charged_back(account@, target@, tx@) == Ok::<
                (AccountView, TxView),
                Error,
            >((updated@, marked@)),
            Err(error) => charged_back(account@, target@, tx@) == Err::<
                (AccountView, TxView),
                Error,
            >(error),
        },
{
    let mut account = account;
    let mut target = target;
    if !target.disputed() {
        return Err(Error::TxNotDisputed(target.id()));
    }
    if account.is_locked() {
        return Err(Error::AccountLocked(account.client_id()));
    }
    let amount = match target.amount() {
        Some(amount) => amount,
        None => {
            return Err(Error::MissingAmount(target.id()));
        },
    };
    match account.sub_held(amount) {
        Ok(()) => {},
        Err(error) => {
            return Err(error);
        },
    }
    account.set_locked(true);
    target.mark_charged_back();
    Ok((account, target))
}

/// What can be handled against an engine.
pub trait TxHandle<A: AccountsDal, T: TxsDal> {
    fn handle(&self, engine: &mut Engine<A, T>) -> Result<(), Error>;
}

impl<A: AccountsDal, T: TxsDal> TxHandle<A, T> for Tx {
    /// Applies the record to the engine's accounts and stored transactions,
    /// as [`handled`] says. The record itself is not stored.
    fn handle(&self, engine: &mut Engine<A, T>) -> (result: Result<(), Error>)
        ensures
            final(engine)@ == handled(old(engine)@, self@).ledger,
            result == handled(old(engine)@, self@).result,
    {
        let account = match engine.account(self.client) {
            Some(account) => account,
            None => {
                AccountsDal::insert(engine, Account::new_unlocked(self.client));
                match engine.account(self.client) {
                    Some(account) => account,
                    None => {
                        return Err(Error::UnexpectedMissingAccount(self.client));
                    },
                }
            },
        };
        match self.kind {
            TxType::Deposit => {
                let updated = deposit(account, self)?;
                AccountsDal::insert(engine, updated);
            },
            TxType::Withdrawal => {
                let updated = withdraw(account, self)?;
                AccountsDal::insert(engine, updated);
            },
            TxType::Dispute => match engine.tx(self.id) {
                None => {
                    return Err(Error::TxNotFound);
                },
                Some(target) => {
                    let (updated, marked) = dispute(account, target, self)?;
                    TxsDal::insert(engine, marked);
                    AccountsDal::insert(engine, updated);
                },
            },
            TxType::Resolve => match engine.tx(self.id) {
                None => {
                    return Err(Error::TxNotFound);
                },
                Some(target) => {
                    let (updated, marked) = resolve(account, target, self)?;
                    TxsDal::insert(engine, marked);
                    AccountsDal::insert(engine, updated);
                },
            },
            TxType::Chargeback => match engine.tx(self.id) {
                None => {
                    return Err(Error::TxNotFound);
                },
                Some(target) => {
                    let (updated, marked) = charge_back(account, target, self)?;
                    TxsDal::insert(engine, marked);
                    AccountsDal::insert(engine, updated);
                },
            },
        }
        Ok(())
    }
}

/// The accounts and the stored transactions that records are applied to.
pub struct Engine<A: AccountsDal, T: TxsDal> {
    accounts: A,
    txs: T,
}

impl<A: AccountsDal, T: TxsDal> View for Engine<A, T> {
    type V = LedgerView;

    closed spec fn view(&self) -> LedgerView {
        LedgerView { accounts: self.accounts.account_map(), txs: self.txs.tx_map() }
    }
}

impl<A: AccountsDal, T: TxsDal> AccountsDal for Engine<A, T> {
    open spec fn account_map(&self) -> Map<u16, AccountView> {
        self@.accounts
    }

    fn account(&self, id: u16) -> (found: Option<Account>) {
        self.accounts.account(id)
    }

    fn insert(&mut self, account: Account)
        ensures
            final(self)@.txs == old(self)@.txs,
    {
        self.accounts.insert(account)
    }

    fn accounts(&self) -> (all: Vec<Account>) {
        self.accounts.accounts()
    }
}

impl<A: AccountsDal, T: TxsDal> TxsDal for Engine<A, T> {
    open spec fn tx_map(&self) -> Map<u32, TxView> {
        self@.txs
    }

    fn tx(&self, id: u32) -> (found: Option<Tx>) {
        self.txs.tx(id)
    }

    fn insert(&mut self, tx: Tx)
        ensures
            final(self)@.accounts == old(self)@.accounts,
    {
        self.txs.insert(tx)
    }
}

impl<A: AccountsDal, T: TxsDal> Engine<A, T> {
    pub fn new(accounts: A, txs: T) -> (engine: Self)
        ensures
            engine@ == (LedgerView { accounts: accounts.account_map(), txs: txs.tx_map() }),
    {
        Engine { accounts, txs }
    }

    /// Takes in one record: handles it, then stores it if it is a deposit or
    /// a withdrawal, whatever handling reported.
    pub fn apply(&mut self, tx: Tx) -> (result: Result<(), Error>)
        ensures
            final(self)@ == applied(old(self)@, tx@).ledger,
            result == applied(old(self)@, tx@).result,
    {
        let result = tx.handle(self);
        if tx.storable() {
            TxsDal::insert(self, tx);
        }
        result
    }

    /// Takes in a run of records in order. A record that is rejected does not
    /// stop the run: what each record reported comes back, in order.
    pub fn handle_txs(&mut self, txs: Vec<Tx>) -> (results: Vec<Result<(), Error>>)
        ensures
            final(self)@ == replayed(old(self)@, tx_views(txs@)),
            results@ == outcomes(old(self)@, tx_views(txs@)),
    {
        let ghost start = self@;
        let ghost views = tx_views(txs@);
        let mut results: Vec<Result<(), Error>> = Vec::new();
        let mut done: usize = 0;
        while done < txs.len()
            invariant
                done <= txs.len(),
                views == tx_views(txs@),
                self@ == replayed(start, views.take(done as int)),
                results@ == outcomes(start, views.take(done as int)),
            decreases txs.len() - done,
        {
            proof {
                assert(views.take(done + 1).drop_last() == views.take(done as int));
                assert forall|i: int| 0 <= i <= done implies #[trigger] views.take(done + 1).take(
                    i,
                ) == views.take(i) by {
                    assert(views.take(done + 1).take(i) =~= views.take(i));
                }
                assert forall|i: int| 0 <= i < done implies #[trigger] views.take(
                    done as int,
                ).take(i) == views.take(i) by {
                    assert(views.take(done as int).take(i) =~= views.take(i));
                }
            }
            let result = self.apply(txs[done]);
            results.push(result);
            done += 1;
        }
        proof {
            assert(views.take(done as int) == views);
        }
        results
    }
}

} // verus!
