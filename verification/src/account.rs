use crate::error::Error;
use vstd::prelude::*;

verus! {

/// What an [`Account`] holds, as mathematical values.
pub struct AccountView {
    pub client_id: u16,
    pub available: nat,
    pub held: nat,
    pub locked: bool,
}

impl AccountView {
    /// The funds of the account, available and held together.
    pub open spec fn total(self) -> nat {
        self.available + self.held
    }

    /// The account of a client that has not been seen before.
    pub open spec fn unlocked(client_id: u16) -> AccountView {
        AccountView { client_id, available: 0, held: 0, locked: false }
    }
}

/// The balances of one client, in ten-thousandths.
#[derive(Debug, Clone, Copy)]
pub struct Account {
    client_id: u16,
    available: u128,
    held: u128,
    locked: bool,
}

impl View for Account {
    type V = AccountView;

    closed spec fn view(&self) -> AccountView {
        AccountView {
            client_id: self.client_id,
            available: self.available as nat,
            held: self.held as nat,
            locked: self.locked,
        }
    }
}

impl Account {
    pub fn new(client_id: u16, available: u128, held: u128, locked: bool) -> (account: Account)
        ensures
            account@ == (AccountView {
                client_id,
                available: available as nat,
                held: held as nat,
                locked,
            }),
    {
        Account { client_id, available, held, locked }
    }

    pub fn new_unlocked(client_id: u16) -> (account: Account)
        ensures
            account@ == AccountView::unlocked(client_id),
    {
        Account { client_id, available: 0, held: 0, locked: false }
    }

    pub fn client_id(&self) -> (client_id: u16)
        ensures
            client_id == self@.client_id,
    {
        self.client_id
    }

    pub fn available(&self) -> (available: u128)
        ensures
            available == self@.available,
    {
        self.available
    }

    pub fn held(&self) -> (held: u128)
        ensures
            held == self@.held,
    {
        self.held
    }

    /// The available and the held funds together. The sum has to fit in
    /// `u128`.
    pub fn total(&self) -> (total: u128)
        requires
            self@.available + self@.held <= u128::MAX,
        ensures
            total == self@.total(),
    {
        self.available + self.held
    }

    /// The available and the held funds together, where the sum fits in
    /// `u128`.
    pub fn checked_total(&self) -> (total: Result<u128, Error>)
        ensures
            total == (if self@.total() <= u128::MAX {
                Ok::<u128, Error>(self@.total() as u128)
            } else {
                Err(Error::TotalOverflow)
            }),
    {
        match self.available.checked_add(self.held) {
            Some(_) => Ok(self.total()),
            None => Err(Error::TotalOverflow),
        }
    }

    /// Adds `amount` to the available funds, unless the sum leaves the range
    /// of `u128`: then the account stays as it was.
    pub fn add_available(&mut self, amount: u128) -> (result: Result<(), Error>)
        ensures
            result == (if old(self)@.available + amount <= u128::MAX {
                Ok::<(), Error>(())
            } else {
                Err(Error::MaxAvailableOverflow)
            }),
            final(self)@ == (if result is Ok {
                AccountView {
                    available: old(self)@.available + amount as nat,
                    ..old(self)@
                }
            } else {
                old(self)@
            }),
    {
        match self.available.checked_add(amount) {
            Some(sum) => {
                self.available = sum;
                Ok(())
            },
            None => Err(Error::MaxAvailableOverflow),
        }
    }

    /// Takes `amount` from the available funds, unless they hold less: then
    /// the account stays as it was.
    pub fn sub_available(&mut self, amount: u128) -> (result: Result<(), Error>)
        ensures
            result == (if amount <= old(self)@.available {
                Ok::<(), Error>(())
            } else {
                Err(Error::MinAvailableUnderflow)
            }),
            final(self)@ == (if result is Ok {
                AccountView {
                    available: (old(self)@.available - amount) as nat,
                    ..old(self)@
                }
            } else {
                old(self)@
            }),
    {
        match self.available.checked_sub(amount) {
            Some(rest) => {
                self.available = rest;
                Ok(())
            },
            None => Err(Error::MinAvailableUnderflow),
        }
    }

    /// Adds `amount` to the held funds, unless the sum leaves the range of
    /// `u128`: then the account stays as it was.
    pub fn add_held(&mut self, amount: u128) -> (result: Result<(), Error>)
        ensures
            result == (if old(self)@.held + amount <= u128::MAX {
                Ok::<(), Error>(())
            } else {
                Err(Error::MaxHeldOverflow)
            }),
            final(self)@ == (if result is Ok {
                AccountView { held: old(self)@.held + amount as nat, ..old(self)@ }
            } else {
                old(self)@
            }),
    {
        match self.held.checked_add(amount) {
            Some(sum) => {
                self.held = sum;
                Ok(())
            },
            None => Err(Error::MaxHeldOverflow),
        }
    }

    /// Takes `amount` from the held funds, unless they hold less: then the
    /// account stays as it was.
    pub fn sub_held(&mut self, amount: u128) -> (result: Result<(), Error>)
        ensures
            result == (if amount <= old(self)@.held {
                Ok::<(), Error>(())
            } else {
                Err(Error::MinHeldUnderflow)
            }),
            final(self)@ == (if result is Ok {
                AccountView { held: (old(self)@.held - amount) as nat, ..old(self)@ }
            } else {
                old(self)@
            }),
    {
        match self.held.checked_sub(amount) {
            Some(rest) => {
                self.held = rest;
                Ok(())
            },
            None => Err(Error::MinHeldUnderflow),
        }
    }

    pub fn is_locked(&self) -> (locked: bool)
        ensures
            locked == self@.locked,
    {
        self.locked
    }

    pub fn set_locked(&mut self, locked: bool)
        ensures
            final(self)@ == (AccountView { locked, ..old(self)@ }),
    {
        self.locked = locked;
    }
}

} // verus!
