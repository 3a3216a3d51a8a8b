//! Client accounts.

use crate::amount::Amount;
use vstd::prelude::*;

verus! {

/// The balances of one client.
#[derive(Clone, Copy, Debug, PartialEq)]
pub struct Account {
    pub available: Amount,
    pub held: Amount,
    pub total: Amount,
    pub locked: bool,
}

/// An account with its balances as numbers of ten-thousandths.
pub ghost struct AccountView {
    pub available: int,
    pub held: int,
    pub total: int,
    pub locked: bool,
}

impl View for Account {
    type V = AccountView;

    open spec fn view(&self) -> AccountView {
        AccountView {
            available: self.available@,
            held: self.held@,
            total: self.total@,
            locked: self.locked,
        }
    }
}

/// The account a client gets on its first deposit.
pub open spec fn empty_account() -> AccountView {
    AccountView { available: 0, held: 0, total: 0, locked: false }
}

impl Default for Account {
    fn default() -> (r: Account)
        ensures
            r@ == empty_account(),
    {
        Account {
            available: Amount::zero(),
            held: Amount::zero(),
            total: Amount::zero(),
            locked: false,
        }
    }
}

} // verus!
