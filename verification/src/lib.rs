//! Ledgers for collateralised lending, staking and swap fee routing on a
//! Soroban host.
//!
//! - [`vault`]: the loan ledger. It grants loans against collateral, accrues
//!   interest over time, closes loans by repayment or liquidation, and keeps
//!   a running total of principal for each asset.
//! - [`laws`]: what holds of the loan ledger across its operations.
//! - [`terms`]: the formulas of a loan and the decisions taken on them.
//! - [`loan`]: loan records and errors.
//! - [`stake`]: the stake ledger, a balance for each account and asset.
//! - [`swap`]: the swap router, which splits off the fee and forwards both legs.
//! - [`arith`]: exact arithmetic on 128-bit amounts.
//! - [`sums`]: sums over finite sets of keys.
//! - [`guard`]: checks that refuse an operation with a typed error.
//! - [`host`]: the calls into the host, with what is taken on trust of them.
//!
//! No operation panics. An operation that is refused returns an error and
//! leaves its ledger as it was. What that takes of the host is said in
//! [`host`].

pub mod arith;
pub mod guard;
pub mod host;
pub mod laws;
pub mod loan;
pub mod stake;
pub mod sums;
pub mod swap;
pub mod terms;
pub mod vault;
