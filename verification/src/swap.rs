//! The swap router: splits an amount into the leg that is exchanged and the
//! leg that is staked as the fee, and forwards both.

use vstd::prelude::*;
use soroban_sdk::Address;
use soroban_sdk::Env;
use crate::arith::lemma_quotient_of_multiple;
use crate::arith::magnitude;
use crate::arith::trunc_div;
use crate::host::address_strkey;
use crate::host::invoke_deposit;
use crate::host::invoke_exchange;
use crate::host::names_contract;
use crate::host::strkey;
use crate::host::CONTRACT_PREFIX;

verus! {

/// Fee taken from every swap, in basis points of the amount.
pub const SWAP_FEE: i128 = 1000;

/// Basis points in a whole.
pub const BPS_PER_WHOLE: i128 = 10_000;

/// Why a swap was not carried out.
#[derive(Clone, Copy, Debug, PartialEq, Eq, Structural)]
pub enum SwapError {
    /// The exchange refused or failed, or the address given for it is not
    /// that of a contract; nothing was staked.
    ExchangeFailed,
    /// The exchange was made, and staking the fee failed.
    StakeFailed,
}

/// The two legs of a swap.
#[derive(Clone, Copy, Debug, PartialEq, Eq, Structural)]
pub struct SwapLegs {
    /// What is handed to the exchange.
    pub swap_amount: i128,
    /// What is staked.
    pub stake_amount: i128,
}

/// The part of `amount` that is exchanged: what is left after the fee,
/// rounded towards zero.
pub open spec fn swap_share(amount: int) -> int {
    trunc_div(amount * (BPS_PER_WHOLE - SWAP_FEE), BPS_PER_WHOLE as int)
}

/// The part of `amount` that is staked: the rest.
pub open spec fn stake_share(amount: int) -> int {
    amount - swap_share(amount)
}

/// What a swap returns, given what the exchange returned, if it succeeded,
/// and whether the fee was staked.
pub open spec fn swap_outcome(exchanged: Option<i128>, staked: bool) -> Result<i128, SwapError> {
    match exchanged {
        None => Err(SwapError::ExchangeFailed),
        Some(output) => if staked {
            Ok(output)
        } else {
            Err(SwapError::StakeFailed)
        },
    }
}

#[derive(Clone, Copy)]
pub struct SwapRouter;

impl SwapRouter {
    /// The fee of a swap in basis points.
    pub fn get_swap_fee() -> (fee: i128)
        ensures
            fee == SWAP_FEE,
    {
        SWAP_FEE
    }

    /// Splits `amount` into the leg that is exchanged and the leg that is staked.
    pub fn legs(amount: i128) -> (legs: SwapLegs)
        ensures
            legs.swap_amount == swap_share(amount as int),
            legs.stake_amount == stake_share(amount as int),
            legs.swap_amount + legs.stake_amount == amount,
    {
        let size: u128 = magnitude(amount);
        let whole: u128 = BPS_PER_WHOLE as u128;
        let kept: u128 = (BPS_PER_WHOLE - SWAP_FEE) as u128;
        let share: u128 = (size / whole) * kept + (size % whole) * kept / whole;
        proof {
            lemma_quotient_of_multiple(size as int, kept as int, whole as int);
        }
        let swap_amount: i128 = if amount >= 0 {
            share as i128
        } else {
            -(share as i128)
        };
        SwapLegs { swap_amount, stake_amount: amount - swap_amount }
    }

    /// What a swap returns, given what the exchange returned, if it
    /// succeeded, and whether the fee was staked.
    pub fn outcome(exchanged: Option<i128>, staked: bool) -> (swapped: Result<i128, SwapError>)
        ensures
            swapped == swap_outcome(exchanged, staked),
    {
        match exchanged {
            None => Err(SwapError::ExchangeFailed),
            Some(output) => if staked {
                Ok(output)
            } else {
                Err(SwapError::StakeFailed)
            },
        }
    }

    /// Exchanges `amount` less the fee for `to_asset` through the contract
    /// of `from_asset`, asking for at least `min_output`, and stakes the fee
    /// for `recipient` through the same contract. The fee is staked only
    /// once the exchange has been made. What comes back is what the exchange
    /// returned. Where `from_asset` is not the address of a contract, there
    /// is no exchange to ask, and nothing is invoked.
    pub fn swap(
        env: &Env,
        from_asset: &Address,
        to_asset: &Address,
        amount: i128,
        min_output: i128,
        recipient: &Address,
    ) -> (swapped: Result<i128, SwapError>)
        ensures
            !names_contract(strkey(*from_asset)) ==> swapped == Err::<i128, SwapError>(
                SwapError::ExchangeFailed,
            ),
    {
        if !is_contract(from_asset) {
            return Err(SwapError::ExchangeFailed);
        }
        let legs = SwapRouter::legs(amount);
        proof {
            reveal_strlit("swap");
            reveal_strlit("stake");
        }
        let exchanged = invoke_exchange(
            env,
            from_asset,
            "swap",
            to_asset,
            legs.swap_amount,
            min_output,
        );
        let staked = match exchanged {
            Some(_) => invoke_deposit(env, from_asset, "stake", legs.stake_amount, recipient),
            None => false,
        };
        SwapRouter::outcome(exchanged, staked)
    }
}

/// Whether `address` is that of a contract, and not that of an account.
pub fn is_contract(address: &Address) -> (yes: bool)
    ensures
        yes == names_contract(strkey(*address)),
{
    let key = address_strkey(address);
    key.len() > 0 && key[0] == CONTRACT_PREFIX
}

} // verus!
