//! Loan records, their life cycle and the ways an operation on them can fail.

use vstd::prelude::*;
use crate::terms::INTEREST_RATE_BPS;
use crate::terms::LOAN_TERM;

verus! {

/// Where a loan stands. A loan starts `Active`; `Repaid` and `Liquidated` are final.
#[derive(Clone, Copy, Debug, PartialEq, Eq, Structural)]
pub enum LoanStatus {
    Active,
    Repaid,
    Liquidated,
}

/// Why an operation of the loan ledger was refused. A refused operation
/// leaves the ledger as it was.
#[derive(Clone, Copy, Debug, PartialEq, Eq, Structural)]
pub enum LoanError {
    /// Principal or collateral is zero or negative.
    InvalidInput,
    /// The collateral is less than the minimum ratio of the principal.
    InsufficientCollateral,
    /// The principal is more than the maximum leverage of the collateral.
    ExcessiveLeverage,
    /// The account has no loan in the asset.
    LoanNotFound,
    /// The amount offered is less than principal and accrued interest.
    InsufficientRepayment,
    /// The collateral still covers the minimum ratio of the principal.
    NotLiquidatable,
    /// A timestamp or a total would leave the range of its integer type.
    Overflow,
}

/// One loan of one account in one asset.
#[derive(Clone, Copy, Debug, PartialEq, Eq, Structural)]
pub struct Loan {
    /// Amount borrowed.
    pub principal: i128,
    /// Collateral posted.
    pub collateral: i128,
    /// Annual interest rate in basis points, fixed when the loan is granted.
    pub interest_rate_bps: u32,
    /// Ledger time at which the loan was granted.
    pub start_time: u64,
    /// Ledger time at which the term of the loan ends.
    pub end_time: u64,
    pub status: LoanStatus,
}

/// A loan as the host's map stores it: principal, collateral, rate, start,
/// end and the code of its status.
pub type LoanRow = (i128, i128, u32, u64, u64, u32);

/// The number under which a status is stored.
pub open spec fn status_code(status: LoanStatus) -> u32 {
    match status {
        LoanStatus::Active => 0,
        LoanStatus::Repaid => 1,
        LoanStatus::Liquidated => 2,
    }
}

/// The status that is stored under `code`.
pub open spec fn status_of_code(code: u32) -> LoanStatus
    recommends
        code <= 2,
{
    if code == 0 {
        LoanStatus::Active
    } else if code == 1 {
        LoanStatus::Repaid
    } else {
        LoanStatus::Liquidated
    }
}

impl LoanStatus {
    /// Whether no further transition is meant to follow.
    pub open spec fn is_terminal(self) -> bool {
        self != LoanStatus::Active
    }

    /// The number under which this status is stored.
    pub fn code(self) -> (code: u32)
        ensures
            code == status_code(self),
            code <= 2,
            status_of_code(code) == self,
    {
        match self {
            LoanStatus::Active => 0,
            LoanStatus::Repaid => 1,
            LoanStatus::Liquidated => 2,
        }
    }

    /// The status that is stored under `code`, if it is the code of one.
    pub fn from_code(code: u32) -> (status: Option<LoanStatus>)
        ensures
            status == (if code <= 2 {
                Some(status_of_code(code))
            } else {
                None
            }),
            code <= 2 ==> status_code(status_of_code(code)) == code,
    {
        if code == 0 {
            Some(LoanStatus::Active)
        } else if code == 1 {
            Some(LoanStatus::Repaid)
        } else if code == 2 {
            Some(LoanStatus::Liquidated)
        } else {
            None
        }
    }
}

impl Loan {
    /// What holds of every loan that the ledger has granted, whatever its status.
    pub open spec fn wf(self) -> bool {
        &&& self.principal > 0
        &&& self.collateral > 0
        &&& self.interest_rate_bps == INTEREST_RATE_BPS
        &&& self.end_time == self.start_time + LOAN_TERM
    }

    /// The row that stores this loan.
    pub open spec fn row(self) -> LoanRow {
        (
            self.principal,
            self.collateral,
            self.interest_rate_bps,
            self.start_time,
            self.end_time,
            status_code(self.status),
        )
    }

    /// The loan that a row stores.
    pub open spec fn of_row(row: LoanRow) -> Loan {
        Loan {
            principal: row.0,
            collateral: row.1,
            interest_rate_bps: row.2,
            start_time: row.3,
            end_time: row.4,
            status: status_of_code(row.5),
        }
    }

    /// This loan with another status.
    pub open spec fn with_status(self, status: LoanStatus) -> Loan {
        Loan { status, ..self }
    }

    /// The row that stores this loan.
    pub fn to_row(&self) -> (row: LoanRow)
        ensures
            row == self.row(),
            row.5 <= 2,
            Loan::of_row(row) == *self,
    {
        (
            self.principal,
            self.collateral,
            self.interest_rate_bps,
            self.start_time,
            self.end_time,
            self.status.code(),
        )
    }

    /// The loan that `row` stores, if its last field is the code of a status.
    pub fn from_row(row: &LoanRow) -> (loan: Option<Loan>)
        ensures
            loan == (if row.5 <= 2 {
                Some(Loan::of_row(*row))
            } else {
                None
            }),
            row.5 <= 2 ==> Loan::of_row(*row).row() == *row,
    {
        match LoanStatus::from_code(row.5) {
            Some(status) => Some(
                Loan {
                    principal: row.0,
                    collateral: row.1,
                    interest_rate_bps: row.2,
                    start_time: row.3,
                    end_time: row.4,
                    status,
                },
            ),
            None => None,
        }
    }
}

} // verus!
