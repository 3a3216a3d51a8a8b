//! The ledger: the account map, the transaction log, and the state machine
//! that applies one record to them.

use crate::account::{empty_account, Account, AccountView};
use crate::amount::{checked_add_spec, checked_sub_spec, in_amount_range, Amount};
use crate::hmap::ShardedRwLockMap;
use crate::transaction::{ClientId, EngineError, Transaction, TransactionType, TxId, TxView};
use vstd::prelude::*;

verus! {

broadcast use vstd::std_specs::hash::group_hash_axioms;

/// The ledger as numbers: the accounts and the logged transactions.
pub ghost struct LedgerView {
    pub accounts: Map<ClientId, AccountView>,
    pub log: Map<TxId, TxView>,
}

/// Every balance and every logged amount is a representable amount.
pub open spec fn amounts_in_range(s: LedgerView) -> bool {
    &&& forall|c: ClientId| #[trigger]
        s.accounts.contains_key(c) ==> {
            &&& in_amount_range(s.accounts[c].available)
            &&& in_amount_range(s.accounts[c].held)
            &&& in_amount_range(s.accounts[c].total)
        }
    &&& forall|t: TxId| #[trigger]
        s.log.contains_key(t) ==> match s.log[t].amount {
            Some(a) => in_amount_range(a),
            None => true,
        }
}

/// The ledger before any record.
pub open spec fn empty_ledger() -> LedgerView {
    LedgerView { accounts: Map::empty(), log: Map::empty() }
}

/// The amount a dispute, resolve or chargeback `r` moves for the logged
/// record `referred`: its amount, negated for a withdrawal; or why `r` may not
/// refer to it.
pub open spec fn referred_amount(r: TxView, referred: TxView) -> Result<int, EngineError> {
    if referred.client != r.client {
        Err(EngineError::DifferentClient)
    } else if r.ty == TransactionType::Dispute && referred.disputed {
        Err(EngineError::TransactionAlreadyDisputed)
    } else if (r.ty == TransactionType::Resolve || r.ty == TransactionType::Chargeback)
        && !referred.disputed {
        Err(EngineError::TransactionNotDisputed)
    } else {
        match referred.amount {
            None => Err(EngineError::ReferredTransactionNoAmount),
            Some(a) => Ok(
                if referred.ty == TransactionType::Withdrawal {
                    -a
                } else {
                    a
                },
            ),
        }
    }
}

/// `acct` with new available, held and total balances.
pub open spec fn with_balances(acct: AccountView, available: int, held: int, total: int) -> AccountView {
    AccountView { available, held, total, locked: acct.locked }
}

/// `t` with its disputed flag set to `d`.
pub open spec fn with_disputed(t: TxView, d: bool) -> TxView {
    TxView { ty: t.ty, client: t.client, tx: t.tx, amount: t.amount, disputed: d }
}

/// A deposit: credits available and total, creating the account if needed,
/// and logs the record.
pub open spec fn deposit_step(s: LedgerView, r: TxView) -> Result<LedgerView, EngineError> {
    match r.amount {
        None => Err(EngineError::NoAmount),
        Some(x) => if x <= 0 {
            Err(EngineError::DepositAmountInvalid)
        } else if s.log.contains_key(r.tx) {
            Err(EngineError::TransactionRepeated)
        } else {
            let acct = if s.accounts.contains_key(r.client) {
                s.accounts[r.client]
            } else {
                empty_account()
            };
            if acct.locked {
                Err(EngineError::AccountLocked)
            } else {
                match (checked_add_spec(acct.available, x), checked_add_spec(acct.total, x)) {
                    (Some(av), Some(tot)) => Ok(
                        LedgerView {
                            accounts: s.accounts.insert(
                                r.client,
                                with_balances(acct, av, acct.held, tot),
                            ),
                            log: s.log.insert(r.tx, with_disputed(r, false)),
                        },
                    ),
                    _ => Err(EngineError::AdditionOverflow),
                }
            }
        },
    }
}

/// A withdrawal: debits available and total of an existing account that has
/// the funds, and logs the record.
pub open spec fn withdrawal_step(s: LedgerView, r: TxView) -> Result<LedgerView, EngineError> {
    match r.amount {
        None => Err(EngineError::NoAmount),
        Some(x) => if x <= 0 {
            Err(EngineError::WithdrawalAmountInvalid)
        } else if s.log.contains_key(r.tx) {
            Err(EngineError::TransactionRepeated)
        } else if !s.accounts.contains_key(r.client) {
            Err(EngineError::AccountNotFound)
        } else {
            let acct = s.accounts[r.client];
            if acct.locked {
                Err(EngineError::AccountLocked)
            } else if acct.available < x {
                Err(EngineError::InsufficientFunds)
            } else {
                match (checked_sub_spec(acct.available, x), checked_sub_spec(acct.total, x)) {
                    (Some(av), Some(tot)) => Ok(
                        LedgerView {
                            accounts: s.accounts.insert(
                                r.client,
                                with_balances(acct, av, acct.held, tot),
                            ),
                            log: s.log.insert(r.tx, with_disputed(r, false)),
                        },
                    ),
                    _ => Err(EngineError::SubtractionOverflow),
                }
            }
        },
    }
}

/// What a dispute, resolve or chargeback `r` finds: the account, the logged
/// record it refers to and the amount that moves; or why it stops.
pub open spec fn referral(s: LedgerView, r: TxView) -> Result<(AccountView, TxView, int), EngineError> {
    if !s.accounts.contains_key(r.client) {
        Err(EngineError::AccountNotFound)
    } else if s.accounts[r.client].locked {
        Err(EngineError::AccountLocked)
    } else if !s.log.contains_key(r.tx) {
        Err(EngineError::TransactionNotFound)
    } else {
        match referred_amount(r, s.log[r.tx]) {
            Err(e) => Err(e),
            Ok(a) => Ok((s.accounts[r.client], s.log[r.tx], a)),
        }
    }
}

/// A dispute: moves the referred amount from available to held and marks the
/// record disputed.
pub open spec fn dispute_step(s: LedgerView, r: TxView) -> Result<LedgerView, EngineError> {
    match referral(s, r) {
        Err(e) => Err(e),
        Ok((acct, referred, a)) => match checked_sub_spec(acct.available, a) {
            None => Err(EngineError::SubtractionOverflow),
            Some(av) => match checked_add_spec(acct.held, a) {
                None => Err(EngineError::AdditionOverflow),
                Some(h) => Ok(
                    LedgerView {
                        accounts: s.accounts.insert(r.client, with_balances(acct, av, h, acct.total)),
                        log: s.log.insert(r.tx, with_disputed(referred, true)),
                    },
                ),
            },
        },
    }
}

/// A resolve: moves the referred amount from held back to available and
/// clears the record's disputed flag.
pub open spec fn resolve_step(s: LedgerView, r: TxView) -> Result<LedgerView, EngineError> {
    match referral(s, r) {
        Err(e) => Err(e),
        Ok((acct, referred, a)) => match checked_add_spec(acct.available, a) {
            None => Err(EngineError::AdditionOverflow),
            Some(av) => match checked_sub_spec(acct.held, a) {
                None => Err(EngineError::SubtractionOverflow),
                Some(h) => Ok(
                    LedgerView {
                        accounts: s.accounts.insert(r.client, with_balances(acct, av, h, acct.total)),
                        log: s.log.insert(r.tx, with_disputed(referred, false)),
                    },
                ),
            },
        },
    }
}

/// A chargeback: takes the referred amount out of held and total and locks
/// the account; the record stays disputed.
pub open spec fn chargeback_step(s: LedgerView, r: TxView) -> Result<LedgerView, EngineError> {
    match referral(s, r) {
        Err(e) => Err(e),
        Ok((acct, referred, a)) => match checked_sub_spec(acct.total, a) {
            None => Err(EngineError::SubtractionOverflow),
            Some(tot) => match checked_sub_spec(acct.held, a) {
                None => Err(EngineError::SubtractionOverflow),
                Some(h) => Ok(
                    LedgerView {
                        accounts: s.accounts.insert(
                            r.client,
                            AccountView { available: acct.available, held: h, total: tot, locked: true },
                        ),
                        log: s.log,
                    },
                ),
            },
        },
    }
}

/// The ledger after applying `r`, or the error that rejects it.
#[verifier::opaque]
pub open spec fn step(s: LedgerView, r: TxView) -> Result<LedgerView, EngineError> {
    match r.ty {
        TransactionType::Deposit => deposit_step(s, r),
        TransactionType::Withdrawal => withdrawal_step(s, r),
        TransactionType::Dispute => dispute_step(s, r),
        TransactionType::Resolve => resolve_step(s, r),
        TransactionType::Chargeback => chargeback_step(s, r),
    }
}

/// The ledger after `r` is tried: the new ledger, or the same one when `r`
/// is rejected.
pub open spec fn after(s: LedgerView, r: TxView) -> LedgerView {
    match step(s, r) {
        Ok(s2) => s2,
        Err(_) => s,
    }
}

/// The ledger after trying each record of `rs` in order.
pub open spec fn run(s: LedgerView, rs: Seq<TxView>) -> LedgerView
    decreases rs.len(),
{
    if rs.len() == 0 {
        s
    } else {
        after(run(s, rs.drop_last()), rs.last())
    }
}

/// The records that `run(s, rs)` rejects, in order, each with its position
/// in `rs` and the error.
pub open spec fn rejections(s: LedgerView, rs: Seq<TxView>) -> Seq<(usize, EngineError)>
    decreases rs.len(),
{
    if rs.len() == 0 {
        Seq::empty()
    } else {
        let prev = rejections(s, rs.drop_last());
        match step(run(s, rs.drop_last()), rs.last()) {
            Ok(_) => prev,
            Err(e) => prev.push(((rs.len() - 1) as usize, e)),
        }
    }
}

/// The views of a sequence of records.
pub open spec fn views(ts: Seq<Transaction>) -> Seq<TxView> {
    ts.map_values(|t: Transaction| t@)
}

/// The ledger after a trusted snapshot is read in: each logged record put
/// under its id, then each account under its client, later rows replacing
/// earlier ones; nothing is checked.
pub open spec fn reloaded(s: LedgerView, txs: Seq<TxView>, accounts: Seq<(ClientId, AccountView)>) -> LedgerView
    decreases txs.len() + accounts.len(),
{
    if accounts.len() > 0 {
        let prev = reloaded(s, txs, accounts.drop_last());
        LedgerView {
            accounts: prev.accounts.insert(accounts.last().0, accounts.last().1),
            log: prev.log,
        }
    } else if txs.len() > 0 {
        let prev = reloaded(s, txs.drop_last(), accounts);
        LedgerView { accounts: prev.accounts, log: prev.log.insert(txs.last().tx, txs.last()) }
    } else {
        s
    }
}

/// `r` is the outcome `res` prescribes, and the ledger went from `before` to
/// `after` accordingly: to the new ledger on success, nowhere on failure.
pub open spec fn applied(
    before: LedgerView,
    after: LedgerView,
    res: Result<LedgerView, EngineError>,
    r: Result<(), EngineError>,
) -> bool {
    match res {
        Ok(s2) => r is Ok && after == s2,
        Err(e) => r == Err::<(), EngineError>(e) && after == before,
    }
}

/// The balances of an account lie in the amount range.
fn account_in_range(a: &Account)
    ensures
        in_amount_range(a@.available),
        in_amount_range(a@.held),
        in_amount_range(a@.total),
{
    let _available: i128 = a.available.units();
    let _held: i128 = a.held.units();
    let _total: i128 = a.total.units();
}

/// The amount of a record, if any, lies in the amount range.
fn transaction_in_range(t: &Transaction)
    ensures
        t@.amount matches Some(v) ==> in_amount_range(v),
{
    match t.amount {
        Some(a) => {
            let _units: i128 = a.units();
        },
        None => {},
    }
}

/// The store: client accounts and the log of deposits and withdrawals.
pub struct Engine {
    pub accounts: ShardedRwLockMap<ClientId, Account>,
    pub transaction_log: ShardedRwLockMap<TxId, Transaction>,
}

impl Default for Engine {
    fn default() -> (r: Engine)
        ensures
            r.wf(),
            r.ledger() == empty_ledger(),
    {
        Engine::new()
    }
}

impl Engine {
    /// Both maps are well formed, and every balance and logged amount is
    /// a representable amount.
    pub open spec fn wf(&self) -> bool {
        &&& self.accounts.wf()
        &&& self.transaction_log.wf()
        &&& amounts_in_range(self.ledger())
    }

    /// The ledger this store holds.
    pub open spec fn ledger(&self) -> LedgerView {
        LedgerView {
            accounts: self.accounts@.map_values(|a: Account| a@),
            log: self.transaction_log@.map_values(|t: Transaction| t@),
        }
    }

    /// An empty store.
    pub fn new() -> (r: Engine)
        ensures
            r.wf(),
            r.ledger() == empty_ledger(),
    {
        let r = Engine { accounts: ShardedRwLockMap::new(), transaction_log: ShardedRwLockMap::new() };
        assert(r.ledger().accounts =~= Map::empty());
        assert(r.ledger().log =~= Map::empty());
        r
    }

    /// `a + b`, or `AdditionOverflow`.
    fn safe_add(a: &Amount, b: &Amount) -> (r: Result<Amount, EngineError>)
        ensures
            match checked_add_spec(a@, b@) {
                Some(v) => r matches Ok(x) && x@ == v,
                None => r == Err::<Amount, EngineError>(EngineError::AdditionOverflow),
            },
    {
        match a.checked_add(b) {
            Some(v) => Ok(v),
            None => Err(EngineError::AdditionOverflow),
        }
    }

    /// `a - b`, or `SubtractionOverflow`.
    fn safe_sub(a: &Amount, b: &Amount) -> (r: Result<Amount, EngineError>)
        ensures
            match checked_sub_spec(a@, b@) {
                Some(v) => r matches Ok(x) && x@ == v,
                None => r == Err::<Amount, EngineError>(EngineError::SubtractionOverflow),
            },
    {
        match a.checked_sub(b) {
            Some(v) => Ok(v),
            None => Err(EngineError::SubtractionOverflow),
        }
    }

    /// The amount that `tx` moves when it refers to the logged `referred_tx`:
    /// its amount, negated for a withdrawal; or why `tx` may not refer to it.
    pub fn check_transaction_semantic(tx: &Transaction, referred_tx: &Transaction) -> (r: Result<
        Amount,
        EngineError,
    >)
        ensures
            match referred_amount(tx@, referred_tx@) {
                Ok(v) => r matches Ok(x) && x@ == v,
                Err(e) => r == Err::<Amount, EngineError>(e),
            },
    {
        if referred_tx.client != tx.client {
            return Err(EngineError::DifferentClient);
        }
        match tx.ty {
            TransactionType::Dispute => {
                if referred_tx.disputed {
                    return Err(EngineError::TransactionAlreadyDisputed);
                }
            },
            TransactionType::Resolve | TransactionType::Chargeback => {
                if !referred_tx.disputed {
                    return Err(EngineError::TransactionNotDisputed);
                }
            },
            _ => {},
        }
        match referred_tx.amount {
            None => Err(EngineError::ReferredTransactionNoAmount),
            Some(a) => {
                if referred_tx.ty == TransactionType::Withdrawal {
                    Ok(a.negate())
                } else {
                    Ok(a)
                }
            },
        }
    }

    /// Reads in a snapshot of a previous session: puts every record in the
    /// log under its id and every account under its client, without checking
    /// them; later rows replace earlier ones.
    pub fn load_from_previous_session(
        &mut self,
        transactions: &Vec<Transaction>,
        accounts: &Vec<(ClientId, Account)>,
    )
        requires
            old(self).wf(),
        ensures
            final(self).wf(),
            final(self).ledger() == reloaded(
                old(self).ledger(),
                views(transactions@),
                accounts@.map_values(|p: (ClientId, Account)| (p.0, p.1@)),
            ),
    {
        let ghost start = self.ledger();
        let ghost acct_views = accounts@.map_values(|p: (ClientId, Account)| (p.0, p.1@));
        let mut i: usize = 0;
        while i < transactions.len()
            invariant
                i <= transactions@.len(),
                self.wf(),
                self.ledger() == reloaded(start, views(transactions@).take(i as int), Seq::empty()),
            decreases transactions@.len() - i,
        {
            let t = transactions[i];
            transaction_in_range(&t);
            let ghost before = self.ledger();
            self.transaction_log.insert(t.tx, t);
            proof {
                assert(views(transactions@).take(i + 1).drop_last() =~= views(transactions@).take(
                    i as int,
                ));
                assert(self.ledger().log =~= before.log.insert(t.tx, t@));
                assert(self.ledger().accounts =~= before.accounts);
            }
            i = i + 1;
        }
        assert(views(transactions@).take(i as int) =~= views(transactions@));
        assert(acct_views.take(0) =~= Seq::<(ClientId, AccountView)>::empty());
        let mut j: usize = 0;
        while j < accounts.len()
            invariant
                j <= accounts@.len(),
                self.wf(),
                acct_views == accounts@.map_values(|p: (ClientId, Account)| (p.0, p.1@)),
                self.ledger() == reloaded(start, views(transactions@), acct_views.take(j as int)),
            decreases accounts@.len() - j,
        {
            let (c, a) = accounts[j];
            account_in_range(&a);
            let ghost before = self.ledger();
            self.accounts.insert(c, a);
            proof {
                assert(acct_views.take(j + 1).drop_last() =~= acct_views.take(j as int));
                assert(self.ledger().accounts =~= before.accounts.insert(c, a@));
                assert(self.ledger().log =~= before.log);
            }
            j = j + 1;
        }
        assert(acct_views.take(j as int) =~= acct_views);
    }

    /// Applies a deposit.
    pub fn process_deposit(&mut self, tx: &Transaction) -> (r: Result<(), EngineError>)
        requires
            old(self).wf(),
        ensures
            final(self).wf(),
            applied(old(self).ledger(), final(self).ledger(), deposit_step(old(self).ledger(), tx@), r),
    {
        let amount = match tx.amount {
            None => return Err(EngineError::NoAmount),
            Some(a) => a,
        };
        if !amount.is_positive() {
            return Err(EngineError::DepositAmountInvalid);
        }
        if self.transaction_log.contains_key(tx.tx) {
            return Err(EngineError::TransactionRepeated);
        }
        let account = match self.accounts.get(tx.client) {
            Some(a) => a,
            None => Account::default(),
        };
        if account.locked {
            return Err(EngineError::AccountLocked);
        }
        let available = match Engine::safe_add(&account.available, &amount) {
            Ok(v) => v,
            Err(e) => return Err(e),
        };
        let total = match Engine::safe_add(&account.total, &amount) {
            Ok(v) => v,
            Err(e) => return Err(e),
        };
        let updated = Account { available, held: account.held, total, locked: false };
        let logged = Transaction {
            ty: tx.ty,
            client: tx.client,
            tx: tx.tx,
            amount: tx.amount,
            disputed: false,
        };
        account_in_range(&updated);
        transaction_in_range(&logged);
        let ghost before = self.ledger();
        self.accounts.insert(tx.client, updated);
        self.transaction_log.insert(tx.tx, logged);
        proof {
            assert(self.ledger().accounts =~= before.accounts.insert(tx.client, updated@));
            assert(self.ledger().log =~= before.log.insert(tx.tx, logged@));
        }
        Ok(())
    }

    /// Applies a withdrawal.
    pub fn process_withdrawal(&mut self, tx: &Transaction) -> (r: Result<(), EngineError>)
        requires
            old(self).wf(),
        ensures
            final(self).wf(),
            applied(old(self).ledger(), final(self).ledger(), withdrawal_step(old(self).ledger(), tx@), r),
    {
        let amount = match tx.amount {
            None => return Err(EngineError::NoAmount),
            Some(a) => a,
        };
        if !amount.is_positive() {
            return Err(EngineError::WithdrawalAmountInvalid);
        }
        if self.transaction_log.contains_key(tx.tx) {
            return Err(EngineError::TransactionRepeated);
        }
        let account = match self.accounts.get(tx.client) {
            Some(a) => a,
            None => return Err(EngineError::AccountNotFound),
        };
        if account.locked {
            return Err(EngineError::AccountLocked);
        }
        if !account.available.ge(&amount) {
            return Err(EngineError::InsufficientFunds);
        }
        let available = match Engine::safe_sub(&account.available, &amount) {
            Ok(v) => v,
            Err(e) => return Err(e),
        };
        let total = match Engine::safe_sub(&account.total, &amount) {
            Ok(v) => v,
            Err(e) => return Err(e),
        };
        let updated = Account { available, held: account.held, total, locked: false };
        let logged = Transaction {
            ty: tx.ty,
            client: tx.client,
            tx: tx.tx,
            amount: tx.amount,
            disputed: false,
        };
        account_in_range(&updated);
        transaction_in_range(&logged);
        let ghost before = self.ledger();
        self.accounts.insert(tx.client, updated);
        self.transaction_log.insert(tx.tx, logged);
        proof {
            assert(self.ledger().accounts =~= before.accounts.insert(tx.client, updated@));
            assert(self.ledger().log =~= before.log.insert(tx.tx, logged@));
        }
        Ok(())
    }

    /// The account of `client`, if it exists and is not locked.
    fn try_get_account(&self, client: ClientId) -> (r: Result<Account, EngineError>)
        requires
            self.wf(),
        ensures
            match r {
                Ok(a) => {
                    &&& self.ledger().accounts.contains_key(client)
                    &&& self.ledger().accounts[client] == a@
                    &&& !a.locked
                },
                Err(e) => {
                    ||| !self.ledger().accounts.contains_key(client) && e
                        == EngineError::AccountNotFound
                    ||| self.ledger().accounts.contains_key(client)
                        && self.ledger().accounts[client].locked && e
                        == EngineError::AccountLocked
                },
            },
    {
        match self.accounts.get(client) {
            None => Err(EngineError::AccountNotFound),
            Some(a) => {
                if a.locked {
                    Err(EngineError::AccountLocked)
                } else {
                    Ok(a)
                }
            },
        }
    }

    /// What a dispute, resolve or chargeback finds: the account, the logged
    /// record and the amount that moves.
    fn find_referral(&self, tx: &Transaction) -> (r: Result<(Account, Transaction, Amount), EngineError>)
        requires
            self.wf(),
        ensures
            match referral(self.ledger(), tx@) {
                Ok((acct, referred, a)) => r matches Ok((x, y, z)) && x@ == acct && y@ == referred && z@ == a,
                Err(e) => r == Err::<(Account, Transaction, Amount), EngineError>(e),
            },
    {
        let account = match self.try_get_account(tx.client) {
            Ok(a) => a,
            Err(e) => return Err(e),
        };
        let referred = match self.transaction_log.get(tx.tx) {
            Some(t) => t,
            None => return Err(EngineError::TransactionNotFound),
        };
        match Engine::check_transaction_semantic(tx, &referred) {
            Ok(a) => Ok((account, referred, a)),
            Err(e) => Err(e),
        }
    }

    /// Applies a dispute.
    pub fn process_dispute(&mut self, tx: &Transaction) -> (r: Result<(), EngineError>)
        requires
            old(self).wf(),
        ensures
            final(self).wf(),
            applied(old(self).ledger(), final(self).ledger(), dispute_step(old(self).ledger(), tx@), r),
    {
        let (account, referred, amount) = match self.find_referral(tx) {
            Ok(f) => f,
            Err(e) => return Err(e),
        };
        let available = match Engine::safe_sub(&account.available, &amount) {
            Ok(v) => v,
            Err(e) => return Err(e),
        };
        let held = match Engine::safe_add(&account.held, &amount) {
            Ok(v) => v,
            Err(e) => return Err(e),
        };
        let updated = Account { available, held, total: account.total, locked: account.locked };
        let marked = Transaction { disputed: true, ..referred };
        account_in_range(&updated);
        transaction_in_range(&marked);
        let ghost before = self.ledger();
        self.accounts.insert(tx.client, updated);
        self.transaction_log.insert(tx.tx, marked);
        proof {
            assert(self.ledger().accounts =~= before.accounts.insert(tx.client, updated@));
            assert(self.ledger().log =~= before.log.insert(tx.tx, marked@));
        }
        Ok(())
    }

    /// Applies a resolve.
    pub fn process_resolve(&mut self, tx: &Transaction) -> (r: Result<(), EngineError>)
        requires
            old(self).wf(),
        ensures
            final(self).wf(),
            applied(old(self).ledger(), final(self).ledger(), resolve_step(old(self).ledger(), tx@), r),
    {
        let (account, referred, amount) = match self.find_referral(tx) {
            Ok(f) => f,
            Err(e) => return Err(e),
        };
        let available = match Engine::safe_add(&account.available, &amount) {
            Ok(v) => v,
            Err(e) => return Err(e),
        };
        let held = match Engine::safe_sub(&account.held, &amount) {
            Ok(v) => v,
            Err(e) => return Err(e),
        };
        let updated = Account { available, held, total: account.total, locked: account.locked };
        let cleared = Transaction { disputed: false, ..referred };
        account_in_range(&updated);
        transaction_in_range(&cleared);
        let ghost before = self.ledger();
        self.accounts.insert(tx.client, updated);
        self.transaction_log.insert(tx.tx, cleared);
        proof {
            assert(self.ledger().accounts =~= before.accounts.insert(tx.client, updated@));
            assert(self.ledger().log =~= before.log.insert(tx.tx, cleared@));
        }
        Ok(())
    }

    /// Applies a chargeback.
    pub fn process_chargeback(&mut self, tx: &Transaction) -> (r: Result<(), EngineError>)
        requires
            old(self).wf(),
        ensures
            final(self).wf(),
            applied(old(self).ledger(), final(self).ledger(), chargeback_step(old(self).ledger(), tx@), r),
    {
        let (account, _referred, amount) = match self.find_referral(tx) {
            Ok(f) => f,
            Err(e) => return Err(e),
        };
        let total = match Engine::safe_sub(&account.total, &amount) {
            Ok(v) => v,
            Err(e) => return Err(e),
        };
        let held = match Engine::safe_sub(&account.held, &amount) {
            Ok(v) => v,
            Err(e) => return Err(e),
        };
        let updated = Account { available: account.available, held, total, locked: true };
        account_in_range(&updated);
        let ghost before = self.ledger();
        self.accounts.insert(tx.client, updated);
        proof {
            assert(self.ledger().accounts =~= before.accounts.insert(tx.client, updated@));
        }
        Ok(())
    }

    /// Applies the records in order; a rejected record is skipped and the
    /// rest still apply. Returns the rejected records' positions and errors,
    /// in order.
    pub fn process_transactions(&mut self, records: &Vec<Transaction>) -> (r: Vec<(usize, EngineError)>)
        requires
            old(self).wf(),
        ensures
            final(self).wf(),
            final(self).ledger() == run(old(self).ledger(), views(records@)),
            r@ == rejections(old(self).ledger(), views(records@)),
    {
        let ghost start = self.ledger();
        let mut errors: Vec<(usize, EngineError)> = Vec::new();
        let mut i: usize = 0;
        while i < records.len()
            invariant
                i <= records@.len(),
                self.wf(),
                self.ledger() == run(start, views(records@).take(i as int)),
                errors@ == rejections(start, views(records@).take(i as int)),
            decreases records@.len() - i,
        {
            let ghost prefix = views(records@).take(i as int);
            let ghost next = views(records@).take(i + 1);
            proof {
                assert(next.drop_last() =~= prefix);
                assert(next.last() == records@[i as int]@);
            }
            let res = self.process_transaction(&records[i]);
            match res {
                Ok(()) => {},
                Err(e) => errors.push((i, e)),
            }
            i = i + 1;
        }
        proof {
            assert(views(records@).take(i as int) =~= views(records@));
        }
        errors
    }

    /// Applies one record of any kind; a rejected record leaves the ledger
    /// as it was.
    pub fn process_transaction(&mut self, tx: &Transaction) -> (r: Result<(), EngineError>)
        requires
            old(self).wf(),
        ensures
            final(self).wf(),
            applied(old(self).ledger(), final(self).ledger(), step(old(self).ledger(), tx@), r),
            final(self).ledger() == after(old(self).ledger(), tx@),
    {
        proof {
            reveal(step);
        }
        match tx.ty {
            TransactionType::Deposit => self.process_deposit(tx),
            TransactionType::Withdrawal => self.process_withdrawal(tx),
            TransactionType::Dispute => self.process_dispute(tx),
            TransactionType::Resolve => self.process_resolve(tx),
            TransactionType::Chargeback => self.process_chargeback(tx),
        }
    }
}

} // verus!
