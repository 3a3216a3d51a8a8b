//! Properties of the ledger state machine that hold for every ledger and
//! every sequence of records.

use crate::account::{empty_account, AccountView};
use crate::engine::{after, amounts_in_range, empty_ledger, run, step, LedgerView};
use crate::transaction::{ClientId, EngineError, TransactionType, TxId, TxView};
use crate::amount::{in_amount_range, pow10, round4, AMOUNT_LIMIT};
use vstd::prelude::*;

verus! {

/// Every account's available and held balances add up to its total.
pub open spec fn balanced(s: LedgerView) -> bool {
    forall|c: ClientId| #[trigger]
        s.accounts.contains_key(c) ==> s.accounts[c].available + s.accounts[c].held
            == s.accounts[c].total
}

/// Applying any record keeps every account balanced.
pub proof fn lemma_step_keeps_balance(s: LedgerView, r: TxView)
    requires
        balanced(s),
    ensures
        balanced(after(s, r)),
{
    reveal(step);
}

/// From a balanced ledger, and so from the empty one, every sequence of
/// records leaves every account balanced.
pub proof fn lemma_run_keeps_balance(s: LedgerView, rs: Seq<TxView>)
    requires
        balanced(s),
    ensures
        balanced(run(s, rs)),
    decreases rs.len(),
{
    if rs.len() > 0 {
        lemma_run_keeps_balance(s, rs.drop_last());
        lemma_step_keeps_balance(run(s, rs.drop_last()), rs.last());
    }
}

/// The empty ledger is balanced.
pub proof fn lemma_empty_balanced()
    ensures
        balanced(empty_ledger()),
{
}

/// Whether the record at position `i` of `rs` applies when `rs` runs from `s`.
#[verifier::opaque]
pub open spec fn applies_at(s: LedgerView, rs: Seq<TxView>, i: int) -> bool {
    step(run(s, rs.take(i)), rs[i]) is Ok
}

/// Whether, in `rs` run from `s`, the record at position `i` is an applied
/// dispute of `t` that no later applied resolve of `t` follows: the last
/// applied dispute or resolve of `t` is a dispute.
pub open spec fn open_dispute_at(s: LedgerView, rs: Seq<TxView>, t: TxId, i: int) -> bool {
    &&& 0 <= i < rs.len()
    &&& rs[i].ty == TransactionType::Dispute
    &&& rs[i].tx == t
    &&& applies_at(s, rs, i)
    &&& forall|j: int|
        #![trigger rs[j]]
        i < j < rs.len() && rs[j].tx == t && rs[j].ty == TransactionType::Resolve ==> !applies_at(
            s,
            rs,
            j,
        )
}

/// How one record can leave a logged record disputed: it was disputed
/// before and the record is no applied resolve of it, or the record is an
/// applied dispute of it.
proof fn lemma_disputed_after_step(s: LedgerView, r: TxView, t: TxId)
    requires
        after(s, r).log.contains_key(t),
        after(s, r).log[t].disputed,
        !(r.tx == t && r.ty == TransactionType::Dispute && step(s, r) is Ok),
    ensures
        s.log.contains_key(t),
        s.log[t].disputed,
        !(r.tx == t && r.ty == TransactionType::Resolve && step(s, r) is Ok),
{
    reveal(step);
}

/// A disputed record stays logged and disputed under any record but an
/// applied resolve of it; an applied dispute of a record leaves it logged
/// and disputed.
proof fn lemma_disputed_kept(s: LedgerView, r: TxView, t: TxId)
    ensures
        s.log.contains_key(t) && s.log[t].disputed && !(r.tx == t && r.ty
            == TransactionType::Resolve && step(s, r) is Ok) ==> after(s, r).log.contains_key(t)
            && after(s, r).log[t].disputed,
        r.tx == t && r.ty == TransactionType::Dispute && step(s, r) is Ok ==> after(
            s,
            r,
        ).log.contains_key(t) && after(s, r).log[t].disputed,
{
    reveal(step);
}

proof fn lemma_applies_in_prefix(s: LedgerView, rs: Seq<TxView>, j: int)
    requires
        0 <= j < rs.len() - 1,
    ensures
        applies_at(s, rs, j) == applies_at(s, rs.drop_last(), j),
        rs[j] == rs.drop_last()[j],
{
    reveal(applies_at);
    assert(rs.take(j) =~= rs.drop_last().take(j));
}

proof fn lemma_applies_last(s: LedgerView, rs: Seq<TxView>)
    requires
        rs.len() > 0,
    ensures
        applies_at(s, rs, rs.len() - 1) == step(run(s, rs.drop_last()), rs.last()) is Ok,
{
    reveal(applies_at);
    assert(rs.take(rs.len() - 1) =~= rs.drop_last());
}

/// In a run from the empty ledger, a logged record is disputed exactly when
/// an applied dispute of it stands with no applied resolve after it. (A
/// chargeback does not clear the flag: the record stays disputed for good.)
pub proof fn lemma_disputed_iff_open_dispute(rs: Seq<TxView>, t: TxId)
    ensures
        (run(empty_ledger(), rs).log.contains_key(t) && run(empty_ledger(), rs).log[t].disputed)
            <==> exists|i: int| open_dispute_at(empty_ledger(), rs, t, i),
    decreases rs.len(),
{
    let e = empty_ledger();
    if rs.len() == 0 {
        assert(run(e, rs) == e);
    } else {
        let n = rs.len() as int;
        let p = rs.drop_last();
        let sp = run(e, p);
        let r = rs.last();
        lemma_applies_last(e, rs);
        lemma_disputed_iff_open_dispute(p, t);
        lemma_disputed_kept(sp, r, t);
        if run(e, rs).log.contains_key(t) && run(e, rs).log[t].disputed {
            if r.tx == t && r.ty == TransactionType::Dispute && step(sp, r) is Ok {
                assert(open_dispute_at(e, rs, t, n - 1));
            } else {
                lemma_disputed_after_step(sp, r, t);
                let i = choose|i: int| open_dispute_at(e, p, t, i);
                lemma_applies_in_prefix(e, rs, i);
                assert forall|j: int|
                    #![trigger rs[j]]
                    i < j < rs.len() && rs[j].tx == t && rs[j].ty == TransactionType::Resolve
                        implies !applies_at(e, rs, j) by {
                    if j < n - 1 {
                        lemma_applies_in_prefix(e, rs, j);
                    }
                }
                assert(open_dispute_at(e, rs, t, i));
            }
        }
        if exists|i: int| open_dispute_at(e, rs, t, i) {
            let i = choose|i: int| open_dispute_at(e, rs, t, i);
            if i < n - 1 {
                lemma_applies_in_prefix(e, rs, i);
                assert forall|j: int|
                    #![trigger p[j]]
                    i < j < p.len() && p[j].tx == t && p[j].ty == TransactionType::Resolve
                        implies !applies_at(e, p, j) by {
                    lemma_applies_in_prefix(e, rs, j);
                    assert(rs[j] == p[j]);
                }
                assert(open_dispute_at(e, p, t, i));
                assert(rs[n - 1] == r);
            }
        }
    }
}

/// A locked account is frozen: no record, of any kind, changes it, and it
/// never disappears.
pub proof fn lemma_locked_account_frozen(s: LedgerView, r: TxView, c: ClientId)
    requires
        s.accounts.contains_key(c),
        s.accounts[c].locked,
    ensures
        after(s, r).accounts.contains_key(c),
        after(s, r).accounts[c] == s.accounts[c],
{
    reveal(step);
}

/// Only a chargeback on the account's own client locks an account.
pub proof fn lemma_lock_only_by_chargeback(s: LedgerView, r: TxView, c: ClientId)
    requires
        after(s, r).accounts.contains_key(c),
        after(s, r).accounts[c].locked,
        !(s.accounts.contains_key(c) && s.accounts[c].locked),
    ensures
        step(s, r) is Ok,
        r.ty == TransactionType::Chargeback,
        r.client == c,
{
    reveal(step);
}

/// Whether `r` is a record of kind `ty` that refers to the logged record `d`.
pub open spec fn refers_to(r: TxView, ty: TransactionType, d: TxView) -> bool {
    r.ty == ty && r.client == d.client && r.tx == d.tx
}

/// A dispute and then a resolve of a deposit leave the accounts as the
/// deposit alone left them.
pub proof fn lemma_dispute_resolve_restores(s: LedgerView, d: TxView, disp: TxView, res: TxView)
    requires
        amounts_in_range(s),
        d.ty == TransactionType::Deposit,
        step(s, d) is Ok,
        refers_to(disp, TransactionType::Dispute, d),
        refers_to(res, TransactionType::Resolve, d),
    ensures
        after(after(after(s, d), disp), res).accounts == after(s, d).accounts,
{
    reveal(step);
    let s1 = after(s, d);
    let s2 = after(s1, disp);
    if step(s1, disp) is Ok {
        assert(s2.accounts =~= s1.accounts.insert(
            d.client,
            s2.accounts[d.client],
        ));
        assert(after(s2, res).accounts =~= s1.accounts);
    }
}

/// A deposit, a dispute and a chargeback of it, on an account that starts
/// at zero, leave the account at zero and locked.
pub proof fn lemma_chargeback_conservation(
    s: LedgerView,
    d: TxView,
    disp: TxView,
    cb: TxView,
)
    requires
        amounts_in_range(s),
        !s.accounts.contains_key(d.client) || s.accounts[d.client] == empty_account(),
        d.ty == TransactionType::Deposit,
        step(s, d) is Ok,
        refers_to(disp, TransactionType::Dispute, d),
        refers_to(cb, TransactionType::Chargeback, d),
    ensures
        after(after(after(s, d), disp), cb).accounts[d.client] == (AccountView {
            available: 0,
            held: 0,
            total: 0,
            locked: true,
        }),
{
    reveal(step);
}

/// A deposit, a dispute and a resolve of it, and then a withdrawal of the
/// same amount, on an account that starts at zero, leave the account at
/// zero and unlocked.
pub proof fn lemma_resolved_deposit_withdrawable(
    s: LedgerView,
    d: TxView,
    disp: TxView,
    res: TxView,
    w: TxView,
)
    requires
        amounts_in_range(s),
        !s.accounts.contains_key(d.client) || s.accounts[d.client] == empty_account(),
        d.ty == TransactionType::Deposit,
        step(s, d) is Ok,
        refers_to(disp, TransactionType::Dispute, d),
        refers_to(res, TransactionType::Resolve, d),
        w.ty == TransactionType::Withdrawal,
        w.client == d.client,
        w.amount == d.amount,
        w.tx != d.tx,
        !s.log.contains_key(w.tx),
    ensures
        after(after(after(after(s, d), disp), res), w).accounts[d.client] == empty_account(),
{
    reveal(step);
}

/// After a dispute and a resolve of a deposit, a second deposit under the
/// same id is rejected as repeated, and the accounts stay as the first
/// deposit left them.
pub proof fn lemma_tx_id_reuse_rejected(
    s: LedgerView,
    d: TxView,
    disp: TxView,
    res: TxView,
    d2: TxView,
)
    requires
        amounts_in_range(s),
        d.ty == TransactionType::Deposit,
        step(s, d) is Ok,
        refers_to(disp, TransactionType::Dispute, d),
        refers_to(res, TransactionType::Resolve, d),
        d2.ty == TransactionType::Deposit,
        d2.tx == d.tx,
        d2.amount matches Some(x) && x > 0,
    ensures
        step(after(after(after(s, d), disp), res), d2) == Err::<LedgerView, EngineError>(
            EngineError::TransactionRepeated,
        ),
        after(after(after(after(s, d), disp), res), d2).accounts == after(s, d).accounts,
{
    reveal(step);
    lemma_dispute_resolve_restores(s, d, disp, res);
}

/// A dispute of a withdrawal of `w` raises available by `w`, lowers held by
/// `w` and leaves total as it was.
pub proof fn lemma_disputed_withdrawal(s: LedgerView, disp: TxView, w: int)
    requires
        disp.ty == TransactionType::Dispute,
        step(s, disp) is Ok,
        s.log[disp.tx].ty == TransactionType::Withdrawal,
        s.log[disp.tx].amount == Some(w),
    ensures
        after(s, disp).accounts[disp.client].available == s.accounts[disp.client].available + w,
        after(s, disp).accounts[disp.client].held == s.accounts[disp.client].held - w,
        after(s, disp).accounts[disp.client].total == s.accounts[disp.client].total,
{
    reveal(step);
}

/// Two deposits that reach the top of the range apply; a third, of any
/// positive amount, is rejected as an addition overflow and logs nothing,
/// and the total stays the sum of the first two.
pub proof fn lemma_deposits_overflow_at_limit(s: LedgerView, d1: TxView, d2: TxView, d3: TxView, h: int, eps: int)
    requires
        amounts_in_range(s),
        !s.accounts.contains_key(d1.client),
        d1.ty == TransactionType::Deposit && d2.ty == TransactionType::Deposit && d3.ty
            == TransactionType::Deposit,
        d2.client == d1.client && d3.client == d1.client,
        d1.tx != d2.tx && d1.tx != d3.tx && d2.tx != d3.tx,
        !s.log.contains_key(d1.tx) && !s.log.contains_key(d2.tx) && !s.log.contains_key(d3.tx),
        d1.amount == Some(h) && d2.amount == Some(h) && d3.amount == Some(eps),
        h > 0 && eps > 0,
        h + h <= AMOUNT_LIMIT,
        h + h + eps > AMOUNT_LIMIT,
    ensures
        step(s, d1) is Ok,
        step(after(s, d1), d2) is Ok,
        step(after(after(s, d1), d2), d3) == Err::<LedgerView, EngineError>(
            EngineError::AdditionOverflow,
        ),
        after(after(after(s, d1), d2), d3).accounts[d1.client].total == h + h,
        after(after(after(s, d1), d2), d3).accounts[d1.client].available == h + h,
        !after(after(after(s, d1), d2), d3).log.contains_key(d3.tx),
{
    reveal(step);
}

/// A dispute of a deposit on an account whose available balance sits at
/// the bottom of the range (as a corrupt snapshot may leave it) is rejected
/// as a subtraction overflow, and nothing changes.
pub proof fn lemma_dispute_underflows_at_bottom(s: LedgerView, disp: TxView, x: int)
    requires
        disp.ty == TransactionType::Dispute,
        s.accounts.contains_key(disp.client),
        !s.accounts[disp.client].locked,
        s.accounts[disp.client].available == -AMOUNT_LIMIT,
        s.log.contains_key(disp.tx),
        s.log[disp.tx].ty == TransactionType::Deposit,
        s.log[disp.tx].client == disp.client,
        !s.log[disp.tx].disputed,
        s.log[disp.tx].amount == Some(x),
        x > 0,
    ensures
        step(s, disp) == Err::<LedgerView, EngineError>(EngineError::SubtractionOverflow),
        after(s, disp) == s,
{
    reveal(step);
}

proof fn lemma_pow10_even(k: nat)
    requires
        k >= 1,
    ensures
        pow10(k) % 2 == 0,
        pow10(k) >= 10,
    decreases k,
{
    let p = pow10((k - 1) as nat);
    assert(pow10(k) == 10 * p);
    if k > 1 {
        lemma_pow10_even((k - 1) as nat);
    }
    assert((10 * p) % 2 == 0) by (nonlinear_arith);
    assert(p >= 1) by {
        if k > 1 {
            lemma_pow10_even((k - 1) as nat);
        }
    }
}

/// A decimal less than half a ten-thousandth away from zero rounds to zero,
/// and a withdrawal of that amount is rejected, changing nothing.
pub proof fn lemma_tiny_withdrawal_rejected(s: LedgerView, w: TxView, m: int, scale: nat)
    requires
        scale > 4,
        2 * (if m < 0 {
            -m
        } else {
            m
        }) < pow10((scale - 4) as nat),
        w.ty == TransactionType::Withdrawal,
        w.amount == Some(round4(m, scale)),
    ensures
        round4(m, scale) == 0,
        step(s, w) == Err::<LedgerView, EngineError>(EngineError::WithdrawalAmountInvalid),
        after(s, w) == s,
{
    let d = pow10((scale - 4) as nat) as int;
    lemma_pow10_even((scale - 4) as nat);
    let a = if m < 0 {
        -m
    } else {
        m
    };
    assert((a + d / 2) / d == 0) by (nonlinear_arith)
        requires
            0 <= a,
            2 * a < d,
            d % 2 == 0,
            d >= 10,
    ;
    reveal(step);
}

} // verus!
