use payments_engine::account::Account;
use payments_engine::amount::{amount_field, amount_to_string, parse_amount};
use payments_engine::error::Error;
use payments_engine::payments::{Engine, Tx, TxHandle, TxType};
use payments_engine::storage::{AccountsDal, InMemoryAccountLedger, InMemoryTxLedger, TxsDal};

type Ledger = Engine<InMemoryAccountLedger, InMemoryTxLedger>;

fn engine() -> Ledger {
    Engine::new(InMemoryAccountLedger::default(), InMemoryTxLedger::default())
}

fn units(text: &str) -> u128 {
    parse_amount(text).unwrap()
}

fn deposit(client: u16, id: u32, amount: &str) -> Tx {
    Tx::new(TxType::Deposit, client, id, Some(units(amount)), false)
}

fn withdrawal(client: u16, id: u32, amount: &str) -> Tx {
    Tx::new(TxType::Withdrawal, client, id, Some(units(amount)), false)
}

fn dispute(client: u16, id: u32) -> Tx {
    Tx::new(TxType::Dispute, client, id, None, false)
}

fn resolve(client: u16, id: u32) -> Tx {
    Tx::new(TxType::Resolve, client, id, None, false)
}

fn chargeback(client: u16, id: u32) -> Tx {
    Tx::new(TxType::Chargeback, client, id, None, false)
}

fn balances(engine: &Ledger, client: u16) -> (u128, u128, bool) {
    let account = engine.account(client).unwrap();
    (account.available(), account.held(), account.is_locked())
}

#[test]
fn deposits_and_a_withdrawal_add_up() {
    let mut engine = engine();
    assert_eq!(engine.apply(deposit(1, 1, "1.0")), Ok(()));
    assert_eq!(engine.apply(deposit(1, 3, "2.0")), Ok(()));
    assert_eq!(engine.apply(withdrawal(1, 4, "1.5")), Ok(()));
    assert_eq!(balances(&engine, 1), (15_000, 0, false));
    // Only a dispute of the first deposit brings the available funds to 0.5.
    assert_eq!(engine.apply(dispute(1, 1)), Ok(()));
    assert_eq!(balances(&engine, 1), (5_000, 10_000, false));
    let account = engine.account(1).unwrap();
    assert_eq!(amount_to_string(account.available()), "0.5");
    assert_eq!(amount_to_string(account.held()), "1.0");
}

#[test]
fn a_dispute_holds_funds_and_a_resolve_frees_them() {
    let mut engine = engine();
    assert_eq!(engine.apply(deposit(1, 1, "10.1")), Ok(()));
    assert_eq!(engine.apply(dispute(1, 1)), Ok(()));
    assert_eq!(balances(&engine, 1), (0, 101_000, false));
    assert!(engine.tx(1).unwrap().disputed());
    assert_eq!(engine.apply(resolve(1, 1)), Ok(()));
    assert_eq!(balances(&engine, 1), (101_000, 0, false));
    assert!(!engine.tx(1).unwrap().disputed());
}

#[test]
fn a_chargeback_removes_held_funds_and_locks() {
    let mut engine = engine();
    assert_eq!(engine.apply(deposit(1, 1, "10.1")), Ok(()));
    assert_eq!(engine.apply(dispute(1, 1)), Ok(()));
    assert_eq!(engine.apply(chargeback(1, 1)), Ok(()));
    assert_eq!(balances(&engine, 1), (0, 0, true));
    assert!(!engine.tx(1).unwrap().disputed());
    assert_eq!(engine.apply(deposit(1, 2, "1.0")), Err(Error::AccountLocked(1)));
    assert_eq!(balances(&engine, 1), (0, 0, true));
}

#[test]
fn a_dispute_of_an_unknown_tx_is_rejected() {
    let mut engine = engine();
    assert_eq!(engine.apply(deposit(1, 1, "5")), Ok(()));
    assert_eq!(engine.apply(dispute(1, 99)), Err(Error::TxNotFound));
    assert_eq!(engine.apply(resolve(1, 99)), Err(Error::TxNotFound));
    assert_eq!(engine.apply(chargeback(1, 99)), Err(Error::TxNotFound));
    assert_eq!(balances(&engine, 1), (50_000, 0, false));
}

#[test]
fn a_withdrawal_beyond_the_available_funds_is_rejected() {
    let mut engine = engine();
    assert_eq!(engine.apply(deposit(1, 1, "10")), Ok(()));
    assert_eq!(
        engine.apply(withdrawal(1, 5, "100")),
        Err(Error::MinAvailableUnderflow)
    );
    assert_eq!(balances(&engine, 1), (100_000, 0, false));
}

#[test]
fn a_literal_with_five_fractional_digits_is_no_amount() {
    assert_eq!(
        parse_amount("1.00001"),
        Err(Error::InvalidAmount("1.00001".to_string()))
    );
    assert_eq!(
        amount_field(Some("1.00001")),
        Err(Error::InvalidAmount("1.00001".to_string()))
    );
}

#[test]
fn an_unseen_client_gets_an_account_even_when_rejected() {
    let mut engine = engine();
    assert!(engine.account(7).is_none());
    assert_eq!(dispute(7, 1).handle(&mut engine), Err(Error::TxNotFound));
    assert_eq!(balances(&engine, 7), (0, 0, false));
    assert_eq!(engine.account(7).unwrap().client_id(), 7);
    assert_eq!(engine.accounts().len(), 1);
}

#[test]
fn handling_does_not_store_the_record() {
    let mut engine = engine();
    assert_eq!(deposit(1, 1, "3").handle(&mut engine), Ok(()));
    assert!(engine.tx(1).is_none());
    assert_eq!(dispute(1, 1).handle(&mut engine), Err(Error::TxNotFound));
}

#[test]
fn applying_stores_deposits_and_withdrawals_only() {
    let mut engine = engine();
    assert_eq!(engine.apply(deposit(1, 1, "3")), Ok(()));
    assert_eq!(engine.apply(dispute(1, 1)), Ok(()));
    assert_eq!(engine.apply(resolve(1, 1)), Ok(()));
    assert_eq!(engine.apply(withdrawal(1, 2, "1")), Ok(()));
    assert_eq!(engine.apply(chargeback(1, 3)), Err(Error::TxNotFound));
    assert_eq!(engine.tx(1).unwrap().kind(), TxType::Deposit);
    assert_eq!(engine.tx(2).unwrap().kind(), TxType::Withdrawal);
    assert!(engine.tx(3).is_none());
}

#[test]
fn a_rejected_deposit_is_stored_all_the_same() {
    let mut engine = engine();
    assert_eq!(engine.apply(deposit(1, 1, "10")), Ok(()));
    assert_eq!(engine.apply(dispute(1, 1)), Ok(()));
    assert_eq!(engine.apply(chargeback(1, 1)), Ok(()));
    assert_eq!(engine.apply(deposit(1, 2, "4")), Err(Error::AccountLocked(1)));
    let stored = engine.tx(2).unwrap();
    assert_eq!(stored.amount(), Some(40_000));
    assert_eq!(stored.client(), 1);
    assert!(!stored.disputed());
}

#[test]
fn a_rejected_withdrawal_can_be_the_target_of_no_dispute() {
    let mut engine = engine();
    assert_eq!(engine.apply(deposit(1, 1, "1")), Ok(()));
    assert_eq!(
        engine.apply(withdrawal(1, 2, "5")),
        Err(Error::MinAvailableUnderflow)
    );
    assert_eq!(engine.apply(dispute(1, 2)), Err(Error::InvalidDispute(2)));
    assert_eq!(balances(&engine, 1), (10_000, 0, false));
}

#[test]
fn a_deposit_that_moved_no_funds_can_still_be_disputed() {
    let mut engine = engine();
    AccountsDal::insert(&mut engine, Account::new(1, u128::MAX - 10, 0, false));
    let rejected = Tx::new(TxType::Deposit, 1, 1, Some(11), false);
    assert_eq!(engine.apply(rejected), Err(Error::MaxAvailableOverflow));
    assert_eq!(balances(&engine, 1), (u128::MAX - 10, 0, false));
    assert_eq!(engine.apply(dispute(1, 1)), Ok(()));
    assert_eq!(balances(&engine, 1), (u128::MAX - 21, 11, false));
}

#[test]
fn a_record_with_the_id_of_a_stored_one_replaces_it() {
    let mut engine = engine();
    assert_eq!(engine.apply(deposit(1, 1, "2")), Ok(()));
    assert_eq!(engine.apply(dispute(1, 1)), Ok(()));
    assert!(engine.tx(1).unwrap().disputed());
    assert_eq!(engine.apply(deposit(1, 1, "3")), Ok(()));
    let stored = engine.tx(1).unwrap();
    assert!(!stored.disputed());
    assert_eq!(stored.amount(), Some(30_000));
    assert_eq!(balances(&engine, 1), (30_000, 20_000, false));
    assert_eq!(engine.apply(resolve(1, 1)), Err(Error::TxNotDisputed(1)));
}

#[test]
fn a_deposit_or_withdrawal_without_amount_is_rejected() {
    let mut engine = engine();
    let bare = Tx::new(TxType::Deposit, 1, 8, None, false);
    assert_eq!(engine.apply(bare), Err(Error::MissingAmount(8)));
    let bare = Tx::new(TxType::Withdrawal, 1, 9, None, false);
    assert_eq!(engine.apply(bare), Err(Error::MissingAmount(9)));
    assert_eq!(balances(&engine, 1), (0, 0, false));
    assert_eq!(engine.apply(dispute(1, 8)), Err(Error::MissingAmount(8)));
    assert!(!engine.tx(8).unwrap().disputed());
}

#[test]
fn a_resolve_or_chargeback_of_a_tx_without_amount_is_rejected() {
    let mut engine = engine();
    TxsDal::insert(&mut engine, Tx::new(TxType::Deposit, 1, 8, None, true));
    assert_eq!(engine.apply(resolve(1, 8)), Err(Error::MissingAmount(8)));
    assert_eq!(engine.apply(chargeback(1, 8)), Err(Error::MissingAmount(8)));
    assert!(engine.tx(8).unwrap().disputed());
    assert_eq!(balances(&engine, 1), (0, 0, false));
}

#[test]
fn a_deposit_beyond_the_range_is_rejected() {
    let mut engine = engine();
    let most = Tx::new(TxType::Deposit, 1, 1, Some(u128::MAX), false);
    assert_eq!(engine.apply(most), Ok(()));
    let one = Tx::new(TxType::Deposit, 1, 2, Some(1), false);
    assert_eq!(engine.apply(one), Err(Error::MaxAvailableOverflow));
    assert_eq!(balances(&engine, 1), (u128::MAX, 0, false));
}

#[test]
fn a_dispute_that_would_overflow_the_held_funds_changes_nothing() {
    let mut engine = engine();
    AccountsDal::insert(&mut engine, Account::new(1, 10, u128::MAX - 5, false));
    TxsDal::insert(&mut engine, Tx::new(TxType::Deposit, 1, 1, Some(6), false));
    assert_eq!(engine.apply(dispute(1, 1)), Err(Error::MaxHeldOverflow));
    assert_eq!(balances(&engine, 1), (10, u128::MAX - 5, false));
    assert!(!engine.tx(1).unwrap().disputed());
}

#[test]
fn a_dispute_beyond_the_available_funds_changes_nothing() {
    let mut engine = engine();
    assert_eq!(engine.apply(deposit(1, 1, "5")), Ok(()));
    assert_eq!(engine.apply(withdrawal(1, 2, "1")), Ok(()));
    assert_eq!(engine.apply(dispute(1, 1)), Err(Error::MinAvailableUnderflow));
    assert_eq!(balances(&engine, 1), (40_000, 0, false));
    assert!(!engine.tx(1).unwrap().disputed());
}

#[test]
fn a_resolve_that_would_overflow_the_available_funds_changes_nothing() {
    let mut engine = engine();
    AccountsDal::insert(&mut engine, Account::new(1, u128::MAX - 5, 10, false));
    TxsDal::insert(&mut engine, Tx::new(TxType::Deposit, 1, 1, Some(6), true));
    assert_eq!(engine.apply(resolve(1, 1)), Err(Error::MaxAvailableOverflow));
    assert_eq!(balances(&engine, 1), (u128::MAX - 5, 10, false));
    assert!(engine.tx(1).unwrap().disputed());
}

#[test]
fn a_resolve_or_chargeback_beyond_the_held_funds_changes_nothing() {
    let mut engine = engine();
    AccountsDal::insert(&mut engine, Account::new(1, 100, 5, false));
    TxsDal::insert(&mut engine, Tx::new(TxType::Deposit, 1, 1, Some(6), true));
    assert_eq!(engine.apply(resolve(1, 1)), Err(Error::MinHeldUnderflow));
    assert_eq!(engine.apply(chargeback(1, 1)), Err(Error::MinHeldUnderflow));
    assert_eq!(balances(&engine, 1), (100, 5, false));
    assert!(engine.tx(1).unwrap().disputed());
}

#[test]
fn a_locked_account_is_changed_by_no_record() {
    let mut engine = engine();
    AccountsDal::insert(&mut engine, Account::new(1, 100, 50, true));
    TxsDal::insert(&mut engine, Tx::new(TxType::Deposit, 1, 1, Some(10), false));
    TxsDal::insert(&mut engine, Tx::new(TxType::Deposit, 1, 2, Some(10), true));
    let records = vec![
        Tx::new(TxType::Deposit, 1, 10, Some(1), false),
        Tx::new(TxType::Withdrawal, 1, 11, Some(1), false),
        dispute(1, 1),
        resolve(1, 2),
        chargeback(1, 2),
        dispute(1, 2),
        resolve(1, 1),
        dispute(1, 404),
        Tx::new(TxType::Deposit, 2, 12, Some(1), false),
        dispute(2, 1),
    ];
    let results = engine.handle_txs(records);
    assert_eq!(
        results,
        vec![
            Err(Error::AccountLocked(1)),
            Err(Error::AccountLocked(1)),
            Err(Error::AccountLocked(1)),
            Err(Error::AccountLocked(1)),
            Err(Error::AccountLocked(1)),
            Err(Error::TxAlreadyDisputed(2)),
            Err(Error::TxNotDisputed(1)),
            Err(Error::TxNotFound),
            Ok(()),
            Err(Error::MinAvailableUnderflow),
        ]
    );
    assert_eq!(balances(&engine, 1), (100, 50, true));
}

#[test]
fn a_second_dispute_is_rejected_and_changes_nothing() {
    let mut engine = engine();
    assert_eq!(engine.apply(deposit(1, 1, "10")), Ok(()));
    assert_eq!(engine.apply(deposit(1, 2, "10")), Ok(()));
    assert_eq!(engine.apply(dispute(1, 1)), Ok(()));
    assert_eq!(engine.apply(dispute(1, 1)), Err(Error::TxAlreadyDisputed(1)));
    assert_eq!(balances(&engine, 1), (100_000, 100_000, false));
    assert!(engine.tx(1).unwrap().disputed());
    // The same once the account is locked.
    assert_eq!(engine.apply(dispute(1, 2)), Ok(()));
    assert_eq!(engine.apply(chargeback(1, 2)), Ok(()));
    assert_eq!(engine.apply(dispute(1, 1)), Err(Error::TxAlreadyDisputed(1)));
    assert_eq!(balances(&engine, 1), (0, 100_000, true));
}

#[test]
fn a_disputed_tx_that_is_no_deposit_is_reported_as_disputed() {
    let mut engine = engine();
    TxsDal::insert(&mut engine, Tx::new(TxType::Withdrawal, 1, 1, Some(10), true));
    assert_eq!(engine.apply(dispute(1, 1)), Err(Error::TxAlreadyDisputed(1)));
}

#[test]
fn a_locked_account_is_reported_before_the_kind_of_the_target() {
    let mut engine = engine();
    AccountsDal::insert(&mut engine, Account::new(1, 0, 0, true));
    TxsDal::insert(&mut engine, Tx::new(TxType::Withdrawal, 1, 1, Some(10), false));
    assert_eq!(engine.apply(dispute(1, 1)), Err(Error::AccountLocked(1)));
}

#[test]
fn only_a_disputed_tx_can_be_resolved_or_charged_back() {
    let mut engine = engine();
    assert_eq!(engine.apply(deposit(1, 1, "10")), Ok(()));
    assert_eq!(engine.apply(resolve(1, 1)), Err(Error::TxNotDisputed(1)));
    assert_eq!(engine.apply(chargeback(1, 1)), Err(Error::TxNotDisputed(1)));
    assert_eq!(engine.apply(dispute(1, 1)), Ok(()));
    assert_eq!(engine.apply(resolve(1, 1)), Ok(()));
    assert_eq!(engine.apply(resolve(1, 1)), Err(Error::TxNotDisputed(1)));
    assert_eq!(engine.apply(chargeback(1, 1)), Err(Error::TxNotDisputed(1)));
    assert_eq!(engine.apply(dispute(1, 1)), Ok(()));
    assert_eq!(engine.apply(chargeback(1, 1)), Ok(()));
    assert_eq!(engine.apply(chargeback(1, 1)), Err(Error::TxNotDisputed(1)));
    assert_eq!(balances(&engine, 1), (0, 0, true));
}

#[test]
fn a_dispute_acts_on_the_account_of_its_own_client() {
    let mut engine = engine();
    assert_eq!(engine.apply(deposit(1, 1, "10")), Ok(()));
    assert_eq!(engine.apply(deposit(2, 2, "30")), Ok(()));
    assert_eq!(engine.apply(dispute(2, 1)), Ok(()));
    assert_eq!(balances(&engine, 1), (100_000, 0, false));
    assert_eq!(balances(&engine, 2), (200_000, 100_000, false));
    assert!(engine.tx(1).unwrap().disputed());
    assert_eq!(engine.tx(1).unwrap().client(), 1);
}

#[test]
fn a_run_reports_every_record_and_goes_on_after_a_rejection() {
    let mut engine = engine();
    let kind = |name: &str| TxType::from_name(name).unwrap();
    let amount = |text: &str| amount_field(Some(text)).unwrap();
    let records = vec![
        Tx::new(kind("deposit"), 1, 1, amount("1.0"), false),
        Tx::new(kind("deposit"), 2, 2, amount("2.0"), false),
        Tx::new(kind("deposit"), 1, 3, amount("2.0"), false),
        Tx::new(kind("withdrawal"), 1, 4, amount("1.5"), false),
        Tx::new(kind("withdrawal"), 2, 5, amount("3.0"), false),
        Tx::new(kind("dispute"), 1, 1, amount(""), false),
    ];
    let results = engine.handle_txs(records);
    assert_eq!(
        results,
        vec![
            Ok(()),
            Ok(()),
            Ok(()),
            Ok(()),
            Err(Error::MinAvailableUnderflow),
            Ok(()),
        ]
    );
    assert_eq!(2, engine.accounts().len());
    assert_eq!(balances(&engine, 1), (5_000, 10_000, false));
    assert_eq!(balances(&engine, 2), (20_000, 0, false));
    assert_eq!(amount_to_string(engine.account(1).unwrap().available()), "0.5");
    assert_eq!(amount_to_string(engine.account(2).unwrap().available()), "2.0");
    assert!(engine.tx(5).is_some());
}

#[test]
fn a_run_is_the_same_as_applying_each_record_in_turn() {
    let records = vec![
        deposit(1, 1, "7.25"),
        deposit(2, 2, "1"),
        dispute(1, 1),
        withdrawal(1, 3, "1"),
        resolve(1, 1),
        withdrawal(1, 4, "1"),
        dispute(2, 2),
        chargeback(2, 2),
        deposit(2, 5, "1"),
    ];
    let mut stepwise = engine();
    let mut expected = Vec::new();
    for record in records.iter() {
        expected.push(stepwise.apply(*record));
    }
    let mut whole = engine();
    let results = whole.handle_txs(records);
    assert_eq!(results, expected);
    assert_eq!(results[3], Err(Error::MinAvailableUnderflow));
    assert_eq!(results[8], Err(Error::AccountLocked(2)));
    for client in [1u16, 2] {
        assert_eq!(balances(&whole, client), balances(&stepwise, client));
    }
    assert_eq!(balances(&whole, 1), (62_500, 0, false));
    assert_eq!(balances(&whole, 2), (0, 0, true));
    assert_eq!(whole.handle_txs(Vec::new()), Vec::new());
    assert_eq!(balances(&whole, 1), (62_500, 0, false));
}

#[test]
fn the_engine_lists_its_accounts_by_client() {
    let mut engine = engine();
    for client in [9u16, 4, 6] {
        assert_eq!(engine.apply(deposit(client, client as u32, "1")), Ok(()));
    }
    let clients: Vec<u16> = engine.accounts().iter().map(|account| account.client_id()).collect();
    assert_eq!(clients, vec![4, 6, 9]);
}

#[test]
fn an_engine_starts_from_the_stores_it_is_given() {
    let mut accounts = InMemoryAccountLedger::default();
    accounts.insert(Account::new(3, 50, 0, false));
    let mut txs = InMemoryTxLedger::default();
    txs.insert(Tx::new(TxType::Deposit, 3, 30, Some(20), false));
    let mut engine = Engine::new(accounts, txs);
    assert_eq!(balances(&engine, 3), (50, 0, false));
    assert_eq!(engine.apply(dispute(3, 30)), Ok(()));
    assert_eq!(balances(&engine, 3), (30, 20, false));
}

#[test]
fn balances_never_go_below_zero() {
    let mut engine = engine();
    let records = vec![
        deposit(1, 1, "1"),
        withdrawal(1, 2, "1.0001"),
        withdrawal(1, 3, "1"),
        withdrawal(1, 4, "0.0001"),
        dispute(1, 1),
        resolve(1, 1),
    ];
    let results = engine.handle_txs(records);
    assert_eq!(
        results,
        vec![
            Ok(()),
            Err(Error::MinAvailableUnderflow),
            Ok(()),
            Err(Error::MinAvailableUnderflow),
            Err(Error::MinAvailableUnderflow),
            Err(Error::TxNotDisputed(1)),
        ]
    );
    let account = engine.account(1).unwrap();
    assert_eq!((account.available(), account.held()), (0, 0));
    assert_eq!(account.total(), account.available() + account.held());
}
