//! What holds of every account and of every run of records.

use crate::account::AccountView;
use crate::amount::{
    amount_text, digit, fraction_text, pow10, scaled_amount, whole_text, DecimalView,
};
use crate::error::Error;
use crate::payments::{applied, handled, opened, replayed, LedgerView, TxType, TxView};
use vstd::prelude::*;

verus! {

/// Neither balance of an account is ever below zero, and its total is the sum
/// of the two.
pub proof fn lemma_balances_are_sound(account: AccountView)
    ensures
        account.available >= 0,
        account.held >= 0,
        account.total() == account.available + account.held,
{
}

/// No record takes a balance out of the range of `u128`: what would do so is
/// rejected.
pub proof fn lemma_balances_stay_in_range(ledger: LedgerView, tx: TxView)
    requires
        balances_in_range(ledger.accounts),
    ensures
        balances_in_range(handled(ledger, tx).ledger.accounts),
        balances_in_range(applied(ledger, tx).ledger.accounts),
{
}

/// A locked account is left as it is by every record, and a record of its own
/// client is rejected.
pub proof fn lemma_locked_account_is_frozen(ledger: LedgerView, tx: TxView, client: u16)
    requires
        ledger.accounts.contains_key(client),
        ledger.accounts[client].locked,
    ensures
        handled(ledger, tx).ledger.accounts.contains_key(client),
        handled(ledger, tx).ledger.accounts[client] == ledger.accounts[client],
        applied(ledger, tx).ledger.accounts.contains_key(client),
        applied(ledger, tx).ledger.accounts[client] == ledger.accounts[client],
        tx.client == client ==> handled(ledger, tx).result is Err,
        tx.client == client ==> applied(ledger, tx).result is Err,
{
}

/// A locked account is the same after any run of records: it stays locked,
/// with the balances it had.
pub proof fn lemma_locked_account_stays_frozen(ledger: LedgerView, txs: Seq<TxView>, client: u16)
    requires
        ledger.accounts.contains_key(client),
        ledger.accounts[client].locked,
    ensures
        replayed(ledger, txs).accounts.contains_key(client),
        replayed(ledger, txs).accounts[client] == ledger.accounts[client],
    decreases txs.len(),
{
    if txs.len() > 0 {
        lemma_locked_account_stays_frozen(ledger, txs.drop_last(), client);
        lemma_locked_account_is_frozen(replayed(ledger, txs.drop_last()), txs.last(), client);
    }
}

/// A dispute is accepted only where it refers to a stored deposit that is not
/// disputed, and leaves it disputed. A resolve or a chargeback is accepted
/// only where it refers to a stored transaction that is disputed, and leaves
/// it undisputed.
pub proof fn lemma_dispute_state_machine(ledger: LedgerView, tx: TxView)
    requires
        !tx.storable(),
        handled(ledger, tx).result is Ok,
    ensures
        ledger.txs.contains_key(tx.id),
        handled(ledger, tx).ledger.txs.contains_key(tx.id),
        tx.kind == TxType::Dispute ==> {
            &&& ledger.txs[tx.id].kind == TxType::Deposit
            &&& !ledger.txs[tx.id].disputed
            &&& handled(ledger, tx).ledger.txs[tx.id].disputed
        },
        tx.kind != TxType::Dispute ==> {
            &&& ledger.txs[tx.id].disputed
            &&& !handled(ledger, tx).ledger.txs[tx.id].disputed
        },
{
}

/// Whether every disputed transaction of `txs` is a deposit.
pub open spec fn only_deposits_disputed(txs: Map<u32, TxView>) -> bool {
    forall|id: u32| #[trigger]
        txs.contains_key(id) && txs[id].disputed ==> txs[id].kind == TxType::Deposit
}

/// Whether every balance of `accounts` is in the range of `u128`.
pub open spec fn balances_in_range(accounts: Map<u16, AccountView>) -> bool {
    forall|client: u16| #[trigger]
        accounts.contains_key(client) ==> accounts[client].available <= u128::MAX
            && accounts[client].held <= u128::MAX
}

/// Where every disputed transaction is a deposit, that is so again once a
/// record that is not itself marked disputed has been taken in.
pub proof fn lemma_only_deposits_get_disputed(ledger: LedgerView, tx: TxView)
    requires
        only_deposits_disputed(ledger.txs),
        !tx.disputed,
    ensures
        only_deposits_disputed(handled(ledger, tx).ledger.txs),
        only_deposits_disputed(applied(ledger, tx).ledger.txs),
{
}

/// Where every disputed transaction is a deposit, that is so again after a
/// run of records of which none is itself marked disputed.
pub proof fn lemma_only_deposits_stay_disputed(ledger: LedgerView, txs: Seq<TxView>)
    requires
        only_deposits_disputed(ledger.txs),
        forall|i: int| 0 <= i < txs.len() ==> !(#[trigger] txs[i]).disputed,
    ensures
        only_deposits_disputed(replayed(ledger, txs).txs),
    decreases txs.len(),
{
    if txs.len() > 0 {
        lemma_only_deposits_stay_disputed(ledger, txs.drop_last());
        lemma_only_deposits_get_disputed(replayed(ledger, txs.drop_last()), txs.last());
    }
}

/// A dispute of a transaction that is disputed already is rejected as such,
/// whatever else holds, and changes no transaction and no balance: at most
/// the account of an unseen client is opened.
pub proof fn lemma_disputed_again(ledger: LedgerView, tx: TxView)
    requires
        tx.kind == TxType::Dispute,
        ledger.txs.contains_key(tx.id),
        ledger.txs[tx.id].disputed,
    ensures
        handled(ledger, tx).result == Err::<(), Error>(Error::TxAlreadyDisputed(tx.id)),
        handled(ledger, tx).ledger.txs == ledger.txs,
        handled(ledger, tx).ledger.accounts == opened(ledger.accounts, tx.client),
        forall|client: u16| #[trigger]
            ledger.accounts.contains_key(client) ==> handled(ledger, tx).ledger.accounts[client]
                == ledger.accounts[client],
        applied(ledger, tx) == handled(ledger, tx),
{
}

/// A dispute that was accepted is rejected when it comes again, and then
/// changes nothing.
pub proof fn lemma_dispute_twice(ledger: LedgerView, tx: TxView)
    requires
        tx.kind == TxType::Dispute,
        handled(ledger, tx).result is Ok,
    ensures
        handled(handled(ledger, tx).ledger, tx).result == Err::<(), Error>(
            Error::TxAlreadyDisputed(tx.id),
        ),
        handled(handled(ledger, tx).ledger, tx).ledger == handled(ledger, tx).ledger,
{
    let once = handled(ledger, tx).ledger;
    lemma_disputed_again(once, tx);
    assert(opened(once.accounts, tx.client) == once.accounts);
}

/// The number that a run of decimal digits spells.
pub open spec fn numeral_value(digits: Seq<char>) -> nat
    decreases digits.len(),
{
    if digits.len() == 0 {
        0
    } else {
        numeral_value(digits.drop_last()) * 10 + (digits.last() as nat - '0' as nat) as nat
    }
}

/// The decimal that a plain numeral stands for, `whole` being its digits
/// before the point and `fraction` those behind it.
pub open spec fn plain_numeral(whole: Seq<char>, fraction: Seq<char>) -> DecimalView {
    DecimalView {
        negative: false,
        magnitude: numeral_value(whole + fraction),
        scale: fraction.len() as int,
    }
}

proof fn lemma_whole_text_spells(number: nat)
    ensures
        numeral_value(whole_text(number)) == number,
    decreases number,
{
    assert(digit(number % 10) as nat == '0' as nat + number % 10);
    if number >= 10 {
        lemma_whole_text_spells(number / 10);
        assert(whole_text(number).drop_last() =~= whole_text(number / 10));
    } else {
        assert(whole_text(number).drop_last() =~= Seq::<char>::empty());
        assert(numeral_value(Seq::<char>::empty()) == 0);
    }
}

proof fn lemma_one_more_digit(digits: Seq<char>, last: char)
    ensures
        numeral_value(digits.push(last)) == numeral_value(digits) * 10 + (last as nat
            - '0' as nat) as nat,
{
    assert(digits.push(last).drop_last() =~= digits);
}

/// The text written for an amount is a plain numeral: the digits of the whole
/// part, a point, and one to four digits. Read as the decimal that such a
/// numeral stands for, it gives the amount that was written.
pub proof fn lemma_written_amount_reads_back(amount: u128)
    ensures
        amount_text(amount as nat) == whole_text(amount as nat / 10_000) + seq!['.']
            + fraction_text(amount as nat % 10_000),
        1 <= fraction_text(amount as nat % 10_000).len() <= 4,
        scaled_amount(
            plain_numeral(
                whole_text(amount as nat / 10_000),
                fraction_text(amount as nat % 10_000),
            ),
        ) == Some(amount),
{
    let units = amount as nat / 10_000;
    let fraction = amount as nat % 10_000;
    let whole = whole_text(units);
    let text = fraction_text(fraction);
    let read = plain_numeral(whole, text);
    let d1 = digit(fraction / 1000);
    let d2 = digit(fraction / 100 % 10);
    let d3 = digit(fraction / 10 % 10);
    let d4 = digit(fraction % 10);
    let digits = seq![d1, d2, d3, d4];
    lemma_whole_text_spells(units);
    assert(pow10(0) == 1 && pow10(1) == 10 && pow10(2) == 100 && pow10(3) == 1000) by {
        reveal_with_fuel(pow10, 5);
    }
    assert(amount == units * 10_000 + fraction);
    assert(d1 as nat == '0' as nat + fraction / 1000);
    assert(d2 as nat == '0' as nat + fraction / 100 % 10);
    assert(d3 as nat == '0' as nat + fraction / 10 % 10);
    assert(d4 as nat == '0' as nat + fraction % 10);
    lemma_one_more_digit(whole, d1);
    lemma_one_more_digit(whole.push(d1), d2);
    lemma_one_more_digit(whole.push(d1).push(d2), d3);
    lemma_one_more_digit(whole.push(d1).push(d2).push(d3), d4);
    assert(numeral_value(whole.push(d1)) == units * 10 + fraction / 1000);
    assert(numeral_value(whole.push(d1).push(d2)) == units * 100 + fraction / 100);
    assert(numeral_value(whole.push(d1).push(d2).push(d3)) == units * 1000 + fraction / 10);
    assert(numeral_value(whole.push(d1).push(d2).push(d3).push(d4)) == units * 10_000 + fraction);
    if fraction % 1000 == 0 {
        assert(text =~= digits.take(1));
        assert(whole + text =~= whole.push(d1));
        assert(read.magnitude == units * 10 + fraction / 1000);
        assert(read.magnitude * pow10(3) == amount);
    } else if fraction % 100 == 0 {
        assert(text =~= digits.take(2));
        assert(whole + text =~= whole.push(d1).push(d2));
        assert(read.magnitude == units * 100 + fraction / 100);
        assert(read.magnitude * pow10(2) == amount);
    } else if fraction % 10 == 0 {
        assert(text =~= digits.take(3));
        assert(whole + text =~= whole.push(d1).push(d2).push(d3));
        assert(read.magnitude == units * 1000 + fraction / 10);
        assert(read.magnitude * pow10(1) == amount);
    } else {
        assert(text =~= digits);
        assert(whole + text =~= whole.push(d1).push(d2).push(d3).push(d4));
        assert(read.magnitude == units * 10_000 + fraction);
        assert(read.magnitude * pow10(0) == amount);
    }
}

} // verus!
