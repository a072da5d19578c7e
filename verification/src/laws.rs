//! What holds of the loan ledger across its operations, proved over
//! `VaultState`. The operations of `LoanVault` are bound to the same
//! functions of the state by their contracts.

use vstd::prelude::*;
use vstd::set::fold::is_fun_commutative;
use vstd::set::fold::lemma_fold_empty;
use vstd::set::fold::lemma_fold_insert;
use soroban_sdk::Address;
use crate::arith::lemma_quotient_at_least;
use crate::loan::Loan;
use crate::loan::LoanError;
use crate::loan::LoanStatus;
use crate::sums::lemma_sum_is_not_negative;
use crate::sums::lemma_sums_agree;
use crate::terms::accrued_interest;
use crate::terms::collateral_ratio;
use crate::terms::LOAN_TERM;
use crate::vault::VaultState;

verus! {

/// Collateral that reaches the minimum ratio keeps the leverage far under
/// its maximum: at 150 percent of the principal, the principal is at most 66
/// percent of the collateral.
pub proof fn lemma_min_collateral_bounds_leverage(principal: int, collateral: int)
    requires
        principal > 0,
        collateral > 0,
        collateral * 100 / principal >= 150,
    ensures
        principal * 100 / collateral <= 66,
{
    lemma_quotient_at_least(collateral * 100, principal, 150);
    lemma_quotient_at_least(principal * 100, collateral, 67);
}

/// A loan with positive principal and collateral is granted exactly when
/// the collateral is at least 150 percent of the principal and the principal
/// at most 300 percent of the collateral, as long as the end of its term and
/// the new total can be written down.
pub proof fn law_create_succeeds_iff_terms_hold(
    pre: VaultState,
    asset: Address,
    principal: i128,
    collateral: i128,
    now: u64,
)
    requires
        principal > 0,
        collateral > 0,
        now + LOAN_TERM <= u64::MAX,
        pre.total(asset) + principal <= i128::MAX,
    ensures
        pre.create_outcome(asset, principal, collateral, now) is Ok <==> (collateral * 100
            / (principal as int) >= 150 && principal * 100 / (collateral as int) <= 300),
        collateral * 100 / (principal as int) < 150 ==> pre.create_outcome(
            asset,
            principal,
            collateral,
            now,
        ) == Err::<(), LoanError>(LoanError::InsufficientCollateral),
{
}

/// No loan is refused for its leverage: whatever passes the test of the
/// collateral ratio passes that of the leverage.
pub proof fn law_leverage_never_refuses(
    pre: VaultState,
    asset: Address,
    principal: i128,
    collateral: i128,
    now: u64,
)
    ensures
        pre.create_outcome(asset, principal, collateral, now) != Err::<(), LoanError>(
            LoanError::ExcessiveLeverage,
        ),
{
    if principal > 0 && collateral > 0 && collateral_ratio(collateral as int, principal as int)
        >= 150 {
        lemma_min_collateral_bounds_leverage(principal as int, collateral as int);
    }
}

/// Granting a loan raises the total of its asset by exactly the principal,
/// puts the loan on record as active, and leaves the other totals and the
/// other loans as they were.
pub proof fn law_create_adds_principal(
    pre: VaultState,
    asset: Address,
    principal: i128,
    collateral: i128,
    account: Address,
    now: u64,
)
    requires
        pre.create_outcome(asset, principal, collateral, now) is Ok,
    ensures
        ({
            let post = pre.after_create(asset, principal, collateral, account, now);
            &&& post.total(asset) == pre.total(asset) + principal
            &&& post.loan(asset, account) is Some
            &&& post.loan(asset, account)->Some_0.status == LoanStatus::Active
            &&& post.loan(asset, account)->Some_0.principal == principal
            &&& post.loan(asset, account)->Some_0.collateral == collateral
            &&& post.loan(asset, account)->Some_0.wf()
            &&& forall|other: Address| other != asset ==> post.total(other) == pre.total(other)
            &&& forall|a: Address, u: Address|
                (u, a) != (account, asset) ==> post.loan(a, u) == pre.loan(a, u)
        }),
{
}

/// While time runs forward, a repayment is accepted exactly when it covers
/// the principal and the interest accrued, rounded down; the status of the
/// loan plays no part. This holds as long as the new total can be written down.
pub proof fn law_repay_succeeds_iff_due_is_covered(
    pre: VaultState,
    asset: Address,
    amount: i128,
    account: Address,
    now: u64,
)
    requires
        pre.loan(asset, account) is Some,
        pre.loan(asset, account)->Some_0.principal > 0,
        now >= pre.loan(asset, account)->Some_0.start_time,
        pre.total(asset) - pre.loan(asset, account)->Some_0.principal >= i128::MIN,
    ensures
        ({
            let loan = pre.loan(asset, account)->Some_0;
            let elapsed = now - loan.start_time;
            &&& pre.repay_outcome(asset, amount, account, now) is Ok <==> amount >= loan.principal
                + loan.principal * loan.interest_rate_bps * elapsed / (31_536_000int * 10_000)
            &&& pre.repay_outcome(asset, amount, account, now) is Err ==> pre.repay_outcome(
                asset,
                amount,
                account,
                now,
            ) == Err::<(), LoanError>(LoanError::InsufficientRepayment)
        }),
{
    let loan = pre.loan(asset, account)->Some_0;
    let elapsed = now - loan.start_time;
    assert(loan.principal * loan.interest_rate_bps * elapsed >= 0) by (nonlinear_arith)
        requires
            loan.principal > 0,
            loan.interest_rate_bps >= 0,
            elapsed >= 0,
    ;
}

/// No interest has accrued at the moment a loan is granted: what is due
/// then is the principal.
pub proof fn law_nothing_accrues_in_no_time(principal: int, rate_bps: int)
    ensures
        accrued_interest(principal, rate_bps, 0) == 0,
{
    assert(principal * rate_bps * 0 == 0) by (nonlinear_arith);
}

/// Closing a loan, by a repayment or a liquidation that succeeds, lowers the
/// total of its asset by exactly its principal, whatever interest has
/// accrued. The loan stays on record with its new status and with its terms
/// unchanged; the other totals and the other loans stay as they were.
pub proof fn law_close_removes_principal(
    pre: VaultState,
    asset: Address,
    account: Address,
    amount: i128,
    now: u64,
    price: i128,
    status: LoanStatus,
)
    requires
        pre.wf(),
        pre.repay_outcome(asset, amount, account, now) is Ok || pre.liquidate_outcome(
            asset,
            account,
            price,
        ) is Ok,
    ensures
        ({
            let loan = pre.loan(asset, account)->Some_0;
            let post = pre.after_close(asset, account, status);
            &&& pre.loan(asset, account) is Some
            &&& post.total(asset) == pre.total(asset) - loan.principal
            &&& post.loan(asset, account) == Some(loan.with_status(status))
            &&& forall|other: Address| other != asset ==> post.total(other) == pre.total(other)
            &&& forall|a: Address, u: Address|
                (u, a) != (account, asset) ==> post.loan(a, u) == pre.loan(a, u)
        }),
{
    assert(pre.loans.contains_key((account, asset)));
}

/// A loan is liquidated exactly when its collateral, valued at the price,
/// is less than 150 percent of its principal, and is refused as not
/// liquidatable otherwise; the status of the loan plays no part. This holds
/// as long as the new total can be written down.
pub proof fn law_liquidate_succeeds_iff_undercollateralized(
    pre: VaultState,
    asset: Address,
    account: Address,
    price: i128,
)
    requires
        pre.loan(asset, account) is Some,
        pre.loan(asset, account)->Some_0.principal > 0,
        pre.total(asset) - pre.loan(asset, account)->Some_0.principal >= i128::MIN,
    ensures
        ({
            let loan = pre.loan(asset, account)->Some_0;
            let ratio = loan.collateral * price / 1_000_000 * 100 / (loan.principal as int);
            &&& pre.liquidate_outcome(asset, account, price) is Ok <==> ratio < 150
            &&& ratio >= 150 ==> pre.liquidate_outcome(asset, account, price) == Err::<
                (),
                LoanError,
            >(LoanError::NotLiquidatable)
        }),
{
    let loan = pre.loan(asset, account)->Some_0;
    let product: int = loan.collateral * price;
    let principal: int = loan.principal as int;
    lemma_quotient_at_least(product, 1_000_000, 0);
    if product < 0 {
        // rounded down or towards zero, the value is not positive, and
        // neither is the ratio
        let floored = product / 1_000_000;
        let truncated = -((-product) / 1_000_000);
        lemma_quotient_at_least(-product, 1_000_000, 0);
        lemma_quotient_at_least(floored * 100, principal, 0);
        lemma_quotient_at_least(-(truncated * 100), principal, 0);
    }
}

/// Every operation keeps the terms of the loans on record as they were
/// granted.
pub proof fn law_operations_keep_loans_well_formed(
    pre: VaultState,
    asset: Address,
    principal: i128,
    collateral: i128,
    account: Address,
    now: u64,
    status: LoanStatus,
)
    requires
        pre.wf(),
    ensures
        pre.create_outcome(asset, principal, collateral, now) is Ok ==> pre.after_create(
            asset,
            principal,
            collateral,
            account,
            now,
        ).wf(),
        pre.loan(asset, account) is Some ==> pre.after_close(asset, account, status).wf(),
{
}

/// Putting a loan on record moves what is outstanding in an asset by the
/// difference between what the new loan adds to it and what the loan that it
/// replaces added.
proof fn lemma_outstanding_after_record(
    pre: VaultState,
    asset: Address,
    account: Address,
    loan: Loan,
    total: int,
    of: Address,
)
    requires
        pre.loans.dom().finite(),
    ensures
        ({
            let post = pre.record(asset, account, loan, total);
            post.outstanding(of) == pre.outstanding(of) - pre.weight(of, (account, asset))
                + post.weight(of, (account, asset))
        }),
{
    let post = pre.record(asset, account, loan, total);
    let key = (account, asset);
    let others = pre.loans.dom().remove(key);
    let f = pre.summand(of);
    let g = post.summand(of);
    assert(is_fun_commutative(f));
    assert(is_fun_commutative(g));
    assert(post.loans.dom() =~= others.insert(key));
    lemma_fold_insert(others, 0int, g, key);
    assert forall|sum: int, other: (Address, Address)| others.contains(other) implies #[trigger] f(
        sum,
        other,
    ) == g(sum, other) by {
        assert(post.loans[other] == pre.loans[other]);
    }
    lemma_sums_agree(others, f, g);
    if pre.loans.dom().contains(key) {
        assert(pre.loans.dom() =~= others.insert(key));
        lemma_fold_insert(others, 0int, f, key);
    } else {
        assert(pre.loans.dom() =~= others);
    }
}

/// What is outstanding in an asset is at least the principal of any one
/// active loan in it.
pub proof fn law_outstanding_covers_each_active_loan(
    pre: VaultState,
    asset: Address,
    account: Address,
)
    requires
        pre.wf(),
    ensures
        pre.outstanding(asset) >= pre.active_principal(asset, account) >= 0,
{
    let key = (account, asset);
    let f = pre.summand(asset);
    let others = pre.loans.dom().remove(key);
    assert(is_fun_commutative(f));
    assert forall|sum: int, other: (Address, Address)|
        pre.loans.dom().contains(other) implies #[trigger] f(sum, other) >= sum by {
        assert(pre.loans[other].wf());
    }
    lemma_sum_is_not_negative(others, f);
    if pre.loans.dom().contains(key) {
        assert(pre.loans[key].wf());
        assert(pre.loans.dom() =~= others.insert(key));
        lemma_fold_insert(others, 0int, f, key);
    } else {
        assert(pre.loans.dom() =~= others);
    }
}

/// While the total of an asset is balanced, an active loan in it is
/// liquidated exactly when its collateral, valued at the price, is less than
/// 150 percent of its principal: the total never stands in the way.
pub proof fn law_balanced_ledger_liquidates_every_undercollateralized_loan(
    pre: VaultState,
    asset: Address,
    account: Address,
    price: i128,
)
    requires
        pre.wf(),
        pre.balanced(asset),
        pre.active_principal(asset, account) > 0,
    ensures
        ({
            let loan = pre.loan(asset, account)->Some_0;
            let ratio = loan.collateral * price / 1_000_000 * 100 / (loan.principal as int);
            pre.liquidate_outcome(asset, account, price) is Ok <==> ratio < 150
        }),
{
    assert(pre.loans.contains_key((account, asset)));
    law_outstanding_covers_each_active_loan(pre, asset, account);
    law_liquidate_succeeds_iff_undercollateralized(pre, asset, account, price);
}

/// Nothing is outstanding in a ledger without loans, and every total is balanced.
pub proof fn law_empty_ledger_is_balanced(asset: Address)
    ensures
        VaultState::empty().outstanding(asset) == 0,
        VaultState::empty().balanced(asset),
        VaultState::empty().wf(),
{
    lemma_fold_empty(0int, VaultState::empty().summand(asset));
    assert(VaultState::empty().loans.dom() =~= Set::empty());
}

/// Granting a loan raises what is outstanding in its asset by the principal,
/// less the principal of the active loan that it replaces, if there is one;
/// the total rises by the principal in any case. So the total stays balanced
/// where the account has no active loan in the asset, and runs ahead of what
/// is outstanding by the principal of that loan where it has one. What is
/// outstanding in other assets, and their totals, stay as they were.
pub proof fn law_create_keeps_balance_unless_it_replaces_an_active_loan(
    pre: VaultState,
    asset: Address,
    principal: i128,
    collateral: i128,
    account: Address,
    now: u64,
    other: Address,
)
    requires
        pre.wf(),
        pre.create_outcome(asset, principal, collateral, now) is Ok,
    ensures
        ({
            let post = pre.after_create(asset, principal, collateral, account, now);
            &&& post.outstanding(asset) == pre.outstanding(asset) - pre.active_principal(
                asset,
                account,
            ) + principal
            &&& post.total(asset) - post.outstanding(asset) == pre.total(asset) - pre.outstanding(
                asset,
            ) + pre.active_principal(asset, account)
            &&& pre.active_principal(asset, account) == 0 && pre.balanced(asset)
                ==> post.balanced(asset)
            &&& other != asset ==> post.outstanding(other) == pre.outstanding(other)
            &&& other != asset ==> post.total(other) == pre.total(other)
        }),
{
    let loan = VaultState::granted(principal, collateral, now);
    let total = pre.total(asset) + principal;
    lemma_outstanding_after_record(pre, asset, account, loan, total, asset);
    lemma_outstanding_after_record(pre, asset, account, loan, total, other);
}

/// Closing a loan lowers what is outstanding in its asset by its principal
/// where it was active, and not at all where it was closed before; the total
/// falls by the principal in any case. So the total stays balanced where the
/// loan was active, and falls behind what is outstanding by the principal
/// where it was not. What is outstanding in other assets, and their totals,
/// stay as they were.
pub proof fn law_close_keeps_balance_if_the_loan_was_active(
    pre: VaultState,
    asset: Address,
    account: Address,
    amount: i128,
    now: u64,
    price: i128,
    status: LoanStatus,
    other: Address,
)
    requires
        pre.wf(),
        pre.repay_outcome(asset, amount, account, now) is Ok || pre.liquidate_outcome(
            asset,
            account,
            price,
        ) is Ok,
        status != LoanStatus::Active,
    ensures
        ({
            let post = pre.after_close(asset, account, status);
            let loan = pre.loan(asset, account)->Some_0;
            &&& post.outstanding(asset) == pre.outstanding(asset) - pre.active_principal(
                asset,
                account,
            )
            &&& post.total(asset) - post.outstanding(asset) == pre.total(asset) - pre.outstanding(
                asset,
            ) - loan.principal + pre.active_principal(asset, account)
            &&& loan.status == LoanStatus::Active && pre.balanced(asset) ==> post.balanced(asset)
            &&& other != asset ==> post.outstanding(other) == pre.outstanding(other)
            &&& other != asset ==> post.total(other) == pre.total(other)
        }),
{
    assert(pre.loans.contains_key((account, asset)));
    let loan = pre.loan(asset, account)->Some_0;
    let total = pre.total(asset) - loan.principal;
    lemma_outstanding_after_record(pre, asset, account, loan.with_status(status), total, asset);
    lemma_outstanding_after_record(pre, asset, account, loan.with_status(status), total, other);
}

/// A loan that was closed stays closed: repayment and liquidation never make
/// a loan active, and they change nothing of a loan but its status. Only a
/// new grant puts an active loan on record.
pub proof fn law_closed_loans_stay_closed(
    pre: VaultState,
    asset: Address,
    account: Address,
    status: LoanStatus,
)
    requires
        pre.loan(asset, account) is Some,
        status != LoanStatus::Active,
    ensures
        ({
            let before = pre.loan(asset, account)->Some_0;
            let after = pre.after_close(asset, account, status).loan(asset, account)->Some_0;
            &&& after.status == status
            &&& after.status.is_terminal()
            &&& after.with_status(before.status) == before
        }),
{
}

} // verus!
