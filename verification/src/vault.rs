//! The loan ledger: one loan for each account and asset, and for each asset
//! the running total of principal.
//!
//! `VaultState` is the ledger as mathematics sees it, with every operation as
//! a function from state to outcome and next state. `LoanVault` keeps that
//! state in maps of the host and carries the operations out.
//!
//! No operation asks for the status of a loan. A loan can be granted over
//! one that is still active, and a loan that was closed can be closed again;
//! either way the total of the asset departs from the principal that is
//! outstanding in it. Until then the two are equal: `laws` proves that, and
//! says by how much each such step moves them apart.

use vstd::prelude::*;
use soroban_sdk::Address;
use soroban_sdk::Env;
use crate::guard::require;
use crate::host::balance_table_get;
use crate::host::balance_table_new;
use crate::host::balance_table_set;
use crate::host::balances;
use crate::host::ledger_timestamp;
use crate::host::loan_rows;
use crate::host::loan_table_get;
use crate::host::loan_table_new;
use crate::host::loan_table_set;
use crate::host::BalanceTable;
use crate::host::LoanTable;
use crate::loan::Loan;
use crate::loan::LoanError;
use crate::loan::LoanRow;
use crate::loan::LoanStatus;
use crate::terms::collateral_ratio;
use crate::terms::covers_total_due;
use crate::terms::has_min_collateral;
use crate::terms::is_liquidatable;
use crate::terms::leverage;
use crate::terms::priced_collateral_ratio;
use crate::terms::total_due;
use crate::terms::within_max_leverage;
use crate::terms::INTEREST_RATE_BPS;
use crate::terms::LOAN_TERM;
use crate::terms::MAX_LEVERAGE;
use crate::terms::MIN_COLLATERAL_RATIO;

verus! {

/// The state of the loan ledger.
pub struct VaultState {
    /// The loan of each account in each asset, by account and asset. A loan
    /// that was repaid or liquidated stays on record.
    pub loans: Map<(Address, Address), Loan>,
    /// What has been recorded as the total principal of each asset.
    pub totals: Map<Address, i128>,
}

impl VaultState {
    /// The ledger before its first operation.
    pub open spec fn empty() -> VaultState {
        VaultState { loans: Map::empty(), totals: Map::empty() }
    }

    /// The loan of `account` in `asset`, if there is one on record.
    pub open spec fn loan(self, asset: Address, account: Address) -> Option<Loan> {
        if self.loans.contains_key((account, asset)) {
            Some(self.loans[(account, asset)])
        } else {
            None
        }
    }

    /// The total principal of `asset`: zero where none was ever recorded.
    pub open spec fn total(self, asset: Address) -> int {
        if self.totals.contains_key(asset) {
            self.totals[asset] as int
        } else {
            0
        }
    }

    /// This state with `loan` on record for `account` in `asset`, and with
    /// the total of `asset` set to `total`.
    pub open spec fn record(
        self,
        asset: Address,
        account: Address,
        loan: Loan,
        total: int,
    ) -> VaultState {
        VaultState {
            loans: self.loans.insert((account, asset), loan),
            totals: self.totals.insert(asset, total as i128),
        }
    }

    /// The loan that `create_loan` grants at time `now`.
    pub open spec fn granted(principal: i128, collateral: i128, now: u64) -> Loan {
        Loan {
            principal,
            collateral,
            interest_rate_bps: INTEREST_RATE_BPS,
            start_time: now,
            end_time: (now + LOAN_TERM) as u64,
            status: LoanStatus::Active,
        }
    }

    /// Whether a loan is granted at time `now`, and if not, why.
    pub open spec fn create_outcome(
        self,
        asset: Address,
        principal: i128,
        collateral: i128,
        now: u64,
    ) -> Result<(), LoanError> {
        if principal <= 0 || collateral <= 0 {
            Err(LoanError::InvalidInput)
        } else if collateral_ratio(collateral as int, principal as int) < MIN_COLLATERAL_RATIO {
            Err(LoanError::InsufficientCollateral)
        } else if leverage(principal as int, collateral as int) > MAX_LEVERAGE {
            Err(LoanError::ExcessiveLeverage)
        } else if now + LOAN_TERM > u64::MAX || self.total(asset) + principal > i128::MAX {
            Err(LoanError::Overflow)
        } else {
            Ok(())
        }
    }

    /// The state after a loan was granted at time `now`.
    pub open spec fn after_create(
        self,
        asset: Address,
        principal: i128,
        collateral: i128,
        account: Address,
        now: u64,
    ) -> VaultState {
        self.record(
            asset,
            account,
            VaultState::granted(principal, collateral, now),
            self.total(asset) + principal,
        )
    }

    /// Whether `amount` repays the loan of `account` in `asset` at time
    /// `now`, and if not, why. The status of the loan is not asked for.
    pub open spec fn repay_outcome(
        self,
        asset: Address,
        amount: i128,
        account: Address,
        now: u64,
    ) -> Result<(), LoanError> {
        match self.loan(asset, account) {
            None => Err(LoanError::LoanNotFound),
            Some(loan) => {
                if amount < total_due(
                    loan.principal as int,
                    loan.interest_rate_bps as int,
                    now - loan.start_time,
                ) {
                    Err(LoanError::InsufficientRepayment)
                } else if self.total(asset) - loan.principal < i128::MIN {
                    Err(LoanError::Overflow)
                } else {
                    Ok(())
                }
            },
        }
    }

    /// Whether the loan of `account` in `asset` is liquidated at `price`, and
    /// if not, why. The status of the loan is not asked for.
    pub open spec fn liquidate_outcome(
        self,
        asset: Address,
        account: Address,
        price: i128,
    ) -> Result<(), LoanError> {
        match self.loan(asset, account) {
            None => Err(LoanError::LoanNotFound),
            Some(loan) => {
                if priced_collateral_ratio(
                    loan.collateral as int,
                    price as int,
                    loan.principal as int,
                ) >= MIN_COLLATERAL_RATIO {
                    Err(LoanError::NotLiquidatable)
                } else if self.total(asset) - loan.principal < i128::MIN {
                    Err(LoanError::Overflow)
                } else {
                    Ok(())
                }
            },
        }
    }

    /// The state after the loan of `account` in `asset` was closed with
    /// `status`: the loan keeps its terms, and the total of the asset falls
    /// by its principal.
    pub open spec fn after_close(
        self,
        asset: Address,
        account: Address,
        status: LoanStatus,
    ) -> VaultState
        recommends
            self.loan(asset, account).is_some(),
    {
        let loan = self.loans[(account, asset)];
        self.record(asset, account, loan.with_status(status), self.total(asset) - loan.principal)
    }

    /// What the loan of `account` in `asset` adds to the principal that is
    /// outstanding: its principal while it is active, and nothing after.
    pub open spec fn active_principal(self, asset: Address, account: Address) -> int {
        match self.loan(asset, account) {
            Some(loan) => if loan.status == LoanStatus::Active {
                loan.principal as int
            } else {
                0
            },
            None => 0,
        }
    }

    /// What the loan under `key` adds to the principal that is outstanding
    /// in `asset`: nothing, where it is a loan in another asset.
    pub open spec fn weight(self, asset: Address, key: (Address, Address)) -> int {
        if key.1 == asset {
            self.active_principal(asset, key.0)
        } else {
            0
        }
    }

    /// The step that adds the weight of one loan to a sum.
    pub open spec fn summand(self, asset: Address) -> spec_fn(int, (Address, Address)) -> int {
        |sum: int, key: (Address, Address)| sum + self.weight(asset, key)
    }

    /// The principal of the active loans in `asset`, summed over all accounts.
    pub open spec fn outstanding(self, asset: Address) -> int
        recommends
            self.loans.dom().finite(),
    {
        self.loans.dom().fold(0int, self.summand(asset))
    }

    /// Whether the total recorded for `asset` is the principal that is
    /// outstanding in it.
    pub open spec fn balanced(self, asset: Address) -> bool {
        self.total(asset) == self.outstanding(asset)
    }

    /// There are finitely many loans on record, and each has the terms under
    /// which loans are granted.
    pub open spec fn wf(self) -> bool {
        &&& self.loans.dom().finite()
        &&& forall|key: (Address, Address)| #[trigger]
            self.loans.contains_key(key) ==> self.loans[key].wf()
    }
}

/// The loan ledger, kept in maps of the host.
pub struct LoanVault {
    loans: LoanTable,
    total_loans: BalanceTable,
}

/// Whether a stored row is that of a loan as the ledger grants them.
pub open spec fn row_is_sound(row: LoanRow) -> bool {
    row.5 <= 2 && Loan::of_row(row).wf()
}

impl View for LoanVault {
    type V = VaultState;

    closed spec fn view(&self) -> VaultState {
        VaultState {
            loans: loan_rows(self.loans).map_values(|row: LoanRow| Loan::of_row(row)),
            totals: balances(self.total_loans),
        }
    }
}

impl Clone for LoanVault {
    /// A ledger in the same state, which goes its own way from here.
    fn clone(&self) -> (copy: LoanVault)
        ensures
            copy@ == self@,
            copy@.wf(),
    {
        proof {
            use_type_invariant(self);
            self.lemma_view_wf();
        }
        LoanVault { loans: self.loans.clone(), total_loans: self.total_loans.clone() }
    }
}

impl LoanVault {
    #[verifier::type_invariant]
    spec fn rows_are_sound(self) -> bool {
        &&& loan_rows(self.loans).dom().finite()
        &&& forall|key: (Address, Address)| #[trigger]
            loan_rows(self.loans).contains_key(key) ==> row_is_sound(loan_rows(self.loans)[key])
    }

    /// Sound rows are the rows of well-formed loans.
    proof fn lemma_view_wf(self)
        requires
            self.rows_are_sound(),
        ensures
            self@.wf(),
    {
        assert(self@.loans.dom() =~= loan_rows(self.loans).dom());
    }

    /// A ledger without loans.
    pub fn initialize(env: &Env) -> (vault: LoanVault)
        ensures
            vault@ == VaultState::empty(),
            vault@.wf(),
    {
        let vault = LoanVault { loans: loan_table_new(env), total_loans: balance_table_new(env) };
        assert(vault@.loans =~= Map::empty());
        vault
    }

    /// The loan of `user` in `asset`, in whatever status it is.
    pub fn get_loan(&self, asset: &Address, user: &Address) -> (found: Result<Loan, LoanError>)
        ensures
            found == (match self@.loan(*asset, *user) {
                Some(loan) => Ok(loan),
                None => Err(LoanError::LoanNotFound),
            }),
            found is Ok ==> found->Ok_0.wf(),
            self@.wf(),
    {
        proof {
            use_type_invariant(self);
            self.lemma_view_wf();
        }
        match loan_table_get(&self.loans, user, asset) {
            Some(row) => match Loan::from_row(&row) {
                Some(loan) => Ok(loan),
                None => Err(LoanError::LoanNotFound),
            },
            None => Err(LoanError::LoanNotFound),
        }
    }

    /// The total principal recorded for `asset`: zero where none was.
    pub fn get_total_loans(&self, asset: &Address) -> (total: i128)
        ensures
            total == self@.total(*asset),
            self@.wf(),
    {
        proof {
            use_type_invariant(self);
            self.lemma_view_wf();
        }
        match balance_table_get(&self.total_loans, asset) {
            Some(total) => total,
            None => 0,
        }
    }

    /// Grants `user` a loan of `amount` in `asset` against `collateral`, at
    /// the time of the current ledger. A loan that `user` already has in
    /// `asset` is replaced, whatever its status, and its principal stays in
    /// the total.
    pub fn create_loan(
        &mut self,
        env: &Env,
        asset: &Address,
        amount: i128,
        collateral: i128,
        user: &Address,
    ) -> (granted: Result<(), LoanError>)
        ensures
            exists|now: u64|
                (granted == #[trigger] old(self)@.create_outcome(*asset, amount, collateral, now)
                    && (granted is Ok ==> final(self)@ == old(self)@.after_create(
                    *asset,
                    amount,
                    collateral,
                    *user,
                    now,
                ))),
            granted is Err ==> final(self)@ == old(self)@,
            final(self)@.wf(),
    {
        let now = ledger_timestamp(env);
        self.create_loan_at(asset, amount, collateral, user, now)
    }

    /// Grants `user` a loan of `amount` in `asset` against `collateral`, at time `now`.
    pub fn create_loan_at(
        &mut self,
        asset: &Address,
        amount: i128,
        collateral: i128,
        user: &Address,
        now: u64,
    ) -> (granted: Result<(), LoanError>)
        ensures
            granted == old(self)@.create_outcome(*asset, amount, collateral, now),
            granted is Ok ==> final(self)@ == old(self)@.after_create(
                *asset,
                amount,
                collateral,
                *user,
                now,
            ),
            granted is Err ==> final(self)@ == old(self)@,
            final(self)@.wf(),
    {
        proof {
            use_type_invariant(&*self);
            self.lemma_view_wf();
        }
        require(amount > 0 && collateral > 0, LoanError::InvalidInput)?;
        require(has_min_collateral(collateral, amount), LoanError::InsufficientCollateral)?;
        require(within_max_leverage(amount, collateral), LoanError::ExcessiveLeverage)?;
        let end_time = match now.checked_add(LOAN_TERM) {
            Some(end_time) => end_time,
            None => { return Err(LoanError::Overflow); },
        };
        let raised = match self.get_total_loans(asset).checked_add(amount) {
            Some(raised) => raised,
            None => { return Err(LoanError::Overflow); },
        };
        let loan = Loan {
            principal: amount,
            collateral,
            interest_rate_bps: INTEREST_RATE_BPS,
            start_time: now,
            end_time,
            status: LoanStatus::Active,
        };
        self.store(asset, user, loan, raised);
        Ok(())
    }

    /// Repays the loan of `user` in `asset` with `amount`, at the time of the
    /// current ledger. A loan that was repaid or liquidated before is repaid
    /// again, and its principal leaves the total again.
    pub fn repay_loan(
        &mut self,
        env: &Env,
        asset: &Address,
        amount: i128,
        user: &Address,
    ) -> (repaid: Result<(), LoanError>)
        ensures
            exists|now: u64|
                repaid == #[trigger] old(self)@.repay_outcome(*asset, amount, *user, now),
            repaid is Ok ==> final(self)@ == old(self)@.after_close(
                *asset,
                *user,
                LoanStatus::Repaid,
            ),
            repaid is Err ==> final(self)@ == old(self)@,
            final(self)@.wf(),
    {
        let now = ledger_timestamp(env);
        self.repay_loan_at(asset, amount, user, now)
    }

    /// Repays the loan of `user` in `asset` with `amount`, at time `now`.
    pub fn repay_loan_at(
        &mut self,
        asset: &Address,
        amount: i128,
        user: &Address,
        now: u64,
    ) -> (repaid: Result<(), LoanError>)
        ensures
            repaid == old(self)@.repay_outcome(*asset, amount, *user, now),
            repaid is Ok ==> final(self)@ == old(self)@.after_close(
                *asset,
                *user,
                LoanStatus::Repaid,
            ),
            repaid is Err ==> final(self)@ == old(self)@,
            final(self)@.wf(),
    {
        proof {
            use_type_invariant(&*self);
            self.lemma_view_wf();
        }
        let loan = self.get_loan(asset, user)?;
        require(
            covers_total_due(amount, loan.principal, loan.interest_rate_bps, loan.start_time, now),
            LoanError::InsufficientRepayment,
        )?;
        self.close(asset, user, loan, LoanStatus::Repaid)
    }

    /// Liquidates the loan of `user` in `asset` at the price that `oracle`
    /// gives for the asset. A loan that was repaid or liquidated before is
    /// liquidated again, and its principal leaves the total again.
    pub fn liquidate_loan<O: PriceOracle>(
        &mut self,
        oracle: &O,
        asset: &Address,
        user: &Address,
    ) -> (liquidated: Result<(), LoanError>)
        ensures
            liquidated == old(self)@.liquidate_outcome(*asset, *user, oracle.price(*asset)),
            liquidated is Ok ==> final(self)@ == old(self)@.after_close(
                *asset,
                *user,
                LoanStatus::Liquidated,
            ),
            liquidated is Err ==> final(self)@ == old(self)@,
            final(self)@.wf(),
    {
        let price = oracle.price_of(asset);
        self.liquidate_loan_at(asset, user, price)
    }

    /// Liquidates the loan of `user` in `asset` at `price`.
    pub fn liquidate_loan_at(
        &mut self,
        asset: &Address,
        user: &Address,
        price: i128,
    ) -> (liquidated: Result<(), LoanError>)
        ensures
            liquidated == old(self)@.liquidate_outcome(*asset, *user, price),
            liquidated is Ok ==> final(self)@ == old(self)@.after_close(
                *asset,
                *user,
                LoanStatus::Liquidated,
            ),
            liquidated is Err ==> final(self)@ == old(self)@,
            final(self)@.wf(),
    {
        proof {
            use_type_invariant(&*self);
            self.lemma_view_wf();
        }
        let loan = self.get_loan(asset, user)?;
        require(
            is_liquidatable(loan.collateral, loan.principal, price),
            LoanError::NotLiquidatable,
        )?;
        self.close(asset, user, loan, LoanStatus::Liquidated)
    }

    /// Puts `loan` on record for `user` in `asset` and sets the total of `asset`.
    fn store(&mut self, asset: &Address, user: &Address, loan: Loan, total: i128)
        requires
            loan.wf(),
        ensures
            final(self)@ == old(self)@.record(*asset, *user, loan, total as int),
            final(self)@.wf(),
    {
        proof {
            use_type_invariant(&*self);
            self.lemma_view_wf();
        }
        loan_table_set(&mut self.loans, user, asset, loan.to_row());
        balance_table_set(&mut self.total_loans, asset, total);
        assert(final(self)@.loans =~= old(self)@.loans.insert((*user, *asset), loan));
    }

    /// Closes `loan`, which is on record for `user` in `asset`, with `status`.
    fn close(
        &mut self,
        asset: &Address,
        user: &Address,
        loan: Loan,
        status: LoanStatus,
    ) -> (closed: Result<(), LoanError>)
        requires
            old(self)@.loan(*asset, *user) == Some(loan),
            loan.wf(),
        ensures
            closed == (if old(self)@.total(*asset) - loan.principal < i128::MIN {
                Err::<(), LoanError>(LoanError::Overflow)
            } else {
                Ok::<(), LoanError>(())
            }),
            closed is Ok ==> final(self)@ == old(self)@.after_close(*asset, *user, status),
            closed is Err ==> final(self)@ == old(self)@,
            final(self)@.wf(),
    {
        proof {
            use_type_invariant(&*self);
            self.lemma_view_wf();
        }
        let lowered = match self.get_total_loans(asset).checked_sub(loan.principal) {
            Some(lowered) => lowered,
            None => { return Err(LoanError::Overflow); },
        };
        let closed = Loan {
            principal: loan.principal,
            collateral: loan.collateral,
            interest_rate_bps: loan.interest_rate_bps,
            start_time: loan.start_time,
            end_time: loan.end_time,
            status,
        };
        self.store(asset, user, closed, lowered);
        Ok(())
    }
}

/// A source of prices, in units of which 1,000,000 stand for 1.0.
///
/// The price that an oracle gives is taken to depend on the oracle and the
/// asset alone. Where it depends on anything else, the price is read first
/// and handed to `LoanVault::liquidate_loan_at`.
pub trait PriceOracle {
    /// The price that this oracle gives for `asset`.
    spec fn price(&self, asset: Address) -> i128;

    /// The current price of `asset`.
    fn price_of(&self, asset: &Address) -> (price: i128)
        ensures
            price == self.price(*asset),
    ;
}

/// The oracle that prices every asset at 1.0.
pub struct ParPrice;

impl PriceOracle for ParPrice {
    open spec fn price(&self, asset: Address) -> i128 {
        1_000_000
    }

    fn price_of(&self, asset: &Address) -> (price: i128) {
        1_000_000
    }
}

} // verus!
