use loan_vault::guard::require;
use loan_vault::loan::{Loan, LoanError, LoanStatus};

#[test]
fn statuses_are_stored_under_their_codes() {
    assert_eq!(LoanStatus::Active.code(), 0);
    assert_eq!(LoanStatus::Repaid.code(), 1);
    assert_eq!(LoanStatus::Liquidated.code(), 2);
    assert_eq!(LoanStatus::from_code(0), Some(LoanStatus::Active));
    assert_eq!(LoanStatus::from_code(1), Some(LoanStatus::Repaid));
    assert_eq!(LoanStatus::from_code(2), Some(LoanStatus::Liquidated));
    assert_eq!(LoanStatus::from_code(3), None);
    assert_eq!(LoanStatus::from_code(u32::MAX), None);
}

#[test]
fn a_loan_comes_back_from_its_row() {
    for status in [LoanStatus::Active, LoanStatus::Repaid, LoanStatus::Liquidated] {
        let loan = Loan {
            principal: 1000,
            collateral: 2000,
            interest_rate_bps: 500,
            start_time: 7,
            end_time: 31_536_007,
            status,
        };
        let row = loan.to_row();
        assert_eq!(row, (1000, 2000, 500, 7, 31_536_007, status.code()));
        assert_eq!(Loan::from_row(&row), Some(loan));
    }
    assert_eq!(Loan::from_row(&(1000, 2000, 500, 7, 31_536_007, 3)), None);
}

#[test]
fn require_gives_the_error_where_the_condition_fails() {
    assert_eq!(require(true, LoanError::LoanNotFound), Ok(()));
    assert_eq!(require(false, LoanError::LoanNotFound), Err(LoanError::LoanNotFound));
    assert_eq!(require(false, 7u8), Err(7u8));
    assert_eq!(require(1 + 1 == 2, "never"), Ok(()));
}
