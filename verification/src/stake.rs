//! The stake ledger: what each account has deposited in each asset, and for
//! each asset the total of all deposits.
//!
//! The total of an asset is at all times the sum of the stakes in it: the
//! ledger cannot be brought into any other state.

use vstd::prelude::*;
use vstd::set::fold::is_fun_commutative;
use vstd::set::fold::lemma_fold_empty;
use vstd::set::fold::lemma_fold_insert;
use soroban_sdk::Address;
use soroban_sdk::Env;
use crate::guard::require;
use crate::host::balance_table_get;
use crate::host::balance_table_new;
use crate::host::balance_table_set;
use crate::host::balances;
use crate::host::position_table_get;
use crate::host::position_table_new;
use crate::host::position_table_set;
use crate::host::positions;
use crate::host::BalanceTable;
use crate::host::PositionTable;
use crate::sums::lemma_sums_agree;

verus! {

/// Why an operation of the stake ledger was refused. A refused operation
/// leaves the ledger as it was.
#[derive(Clone, Copy, Debug, PartialEq, Eq, Structural)]
pub enum StakeError {
    /// The account has staked less than it asks to withdraw.
    InsufficientStake,
    /// A stake or a total would leave the range of its integer type.
    Overflow,
}

/// Whether `amount` can be held as a stake or a total.
pub open spec fn in_range(amount: int) -> bool {
    i128::MIN <= amount <= i128::MAX
}

/// The state of the stake ledger.
pub struct StakeState {
    /// What each account has staked in each asset, by account and asset.
    pub stakes: Map<(Address, Address), i128>,
    /// What is staked in each asset.
    pub totals: Map<Address, i128>,
}

impl StakeState {
    /// The ledger before its first operation.
    pub open spec fn empty() -> StakeState {
        StakeState { stakes: Map::empty(), totals: Map::empty() }
    }

    /// What `account` has staked in `asset`: zero where it never staked.
    pub open spec fn stake_of(self, asset: Address, account: Address) -> int {
        if self.stakes.contains_key((account, asset)) {
            self.stakes[(account, asset)] as int
        } else {
            0
        }
    }

    /// What is staked in `asset`: zero where nothing ever was.
    pub open spec fn total(self, asset: Address) -> int {
        if self.totals.contains_key(asset) {
            self.totals[asset] as int
        } else {
            0
        }
    }

    /// This state with the stake of `account` in `asset`, and the total of
    /// `asset`, moved by `delta`.
    pub open spec fn moved(self, asset: Address, account: Address, delta: int) -> StakeState {
        StakeState {
            stakes: self.stakes.insert(
                (account, asset),
                (self.stake_of(asset, account) + delta) as i128,
            ),
            totals: self.totals.insert(asset, (self.total(asset) + delta) as i128),
        }
    }

    /// Whether `account` can stake `amount` in `asset`, and if not, why.
    pub open spec fn stake_outcome(
        self,
        asset: Address,
        amount: i128,
        account: Address,
    ) -> Result<(), StakeError> {
        if in_range(self.stake_of(asset, account) + amount) && in_range(
            self.total(asset) + amount,
        ) {
            Ok(())
        } else {
            Err(StakeError::Overflow)
        }
    }

    /// Whether `account` can withdraw `amount` from its stake in `asset`, and
    /// if not, why.
    pub open spec fn withdraw_outcome(
        self,
        asset: Address,
        amount: i128,
        account: Address,
    ) -> Result<(), StakeError> {
        if self.stake_of(asset, account) < amount {
            Err(StakeError::InsufficientStake)
        } else if in_range(self.stake_of(asset, account) - amount) && in_range(
            self.total(asset) - amount,
        ) {
            Ok(())
        } else {
            Err(StakeError::Overflow)
        }
    }

    /// What the stake under `key` adds to what is staked in `asset`:
    /// nothing, where it is a stake in another asset.
    pub open spec fn weight(self, asset: Address, key: (Address, Address)) -> int {
        if key.1 == asset {
            self.stake_of(asset, key.0)
        } else {
            0
        }
    }

    /// The step that adds the weight of one stake to a sum.
    pub open spec fn summand(self, asset: Address) -> spec_fn(int, (Address, Address)) -> int {
        |sum: int, key: (Address, Address)| sum + self.weight(asset, key)
    }

    /// The stakes in `asset`, summed over all accounts.
    pub open spec fn staked(self, asset: Address) -> int
        recommends
            self.stakes.dom().finite(),
    {
        self.stakes.dom().fold(0int, self.summand(asset))
    }

    /// Whether the total of `asset` is the sum of the stakes in it.
    pub open spec fn balanced(self, asset: Address) -> bool {
        self.total(asset) == self.staked(asset)
    }

    /// There are finitely many stakes, and the total of every asset is the
    /// sum of the stakes in it.
    pub open spec fn wf(self) -> bool {
        &&& self.stakes.dom().finite()
        &&& forall|asset: Address| #[trigger] self.balanced(asset)
    }
}

/// Nothing is staked in a ledger without stakes, and every total is balanced.
pub proof fn law_no_stakes_no_totals()
    ensures
        StakeState::empty().wf(),
{
    assert(StakeState::empty().stakes.dom() =~= Set::empty());
    assert forall|asset: Address| #[trigger] StakeState::empty().balanced(asset) by {
        lemma_fold_empty(0int, StakeState::empty().summand(asset));
    }
}

/// Moving a stake moves what is staked in its asset by as much, and what is
/// staked in any other asset not at all.
pub proof fn law_move_shifts_the_sum(
    pre: StakeState,
    asset: Address,
    account: Address,
    delta: int,
    of: Address,
)
    requires
        pre.stakes.dom().finite(),
        in_range(pre.stake_of(asset, account) + delta),
    ensures
        pre.moved(asset, account, delta).staked(of) == pre.staked(of) + (if of == asset {
            delta
        } else {
            0
        }),
{
    let post = pre.moved(asset, account, delta);
    let key = (account, asset);
    let others = pre.stakes.dom().remove(key);
    let f = pre.summand(of);
    let g = post.summand(of);
    assert(is_fun_commutative(f));
    assert(is_fun_commutative(g));
    assert(post.stakes.dom() =~= others.insert(key));
    lemma_fold_insert(others, 0int, g, key);
    assert forall|sum: int, other: (Address, Address)| others.contains(other) implies #[trigger] f(
        sum,
        other,
    ) == g(sum, other) by {
        assert(post.stakes[other] == pre.stakes[other]);
    }
    lemma_sums_agree(others, f, g);
    if pre.stakes.dom().contains(key) {
        assert(pre.stakes.dom() =~= others.insert(key));
        lemma_fold_insert(others, 0int, f, key);
    } else {
        assert(pre.stakes.dom() =~= others);
    }
}

/// Moving a stake and the total of its asset by the same amount keeps every
/// total the sum of the stakes in its asset.
pub proof fn law_move_keeps_totals_the_sums(
    pre: StakeState,
    asset: Address,
    account: Address,
    delta: int,
)
    requires
        pre.wf(),
        in_range(pre.stake_of(asset, account) + delta),
        in_range(pre.total(asset) + delta),
    ensures
        pre.moved(asset, account, delta).wf(),
{
    let post = pre.moved(asset, account, delta);
    assert forall|of: Address| #[trigger] post.balanced(of) by {
        law_move_shifts_the_sum(pre, asset, account, delta, of);
        assert(pre.balanced(of));
    }
}

/// The stake ledger, kept in maps of the host.
pub struct StakeManager {
    stakes: PositionTable,
    total_stakes: BalanceTable,
}

impl View for StakeManager {
    type V = StakeState;

    closed spec fn view(&self) -> StakeState {
        StakeState { stakes: positions(self.stakes), totals: balances(self.total_stakes) }
    }
}

impl Clone for StakeManager {
    /// A ledger in the same state, which goes its own way from here.
    fn clone(&self) -> (copy: StakeManager)
        ensures
            copy@ == self@,
            copy@.wf(),
    {
        proof {
            use_type_invariant(self);
        }
        StakeManager { stakes: self.stakes.clone(), total_stakes: self.total_stakes.clone() }
    }
}

impl StakeManager {
    #[verifier::type_invariant]
    spec fn totals_are_sums(self) -> bool {
        self@.wf()
    }

    /// A ledger without stakes.
    pub fn initialize(env: &Env) -> (manager: StakeManager)
        ensures
            manager@ == StakeState::empty(),
            manager@.wf(),
    {
        let stakes = position_table_new(env);
        let total_stakes = balance_table_new(env);
        proof {
            law_no_stakes_no_totals();
        }
        StakeManager { stakes, total_stakes }
    }

    /// Adds `amount` to the stake of `user` in `asset` and to the total of `asset`.
    pub fn stake(
        &mut self,
        asset: &Address,
        amount: i128,
        user: &Address,
    ) -> (staked: Result<(), StakeError>)
        ensures
            staked == old(self)@.stake_outcome(*asset, amount, *user),
            staked is Ok ==> final(self)@ == old(self)@.moved(*asset, *user, amount as int),
            staked is Err ==> final(self)@ == old(self)@,
            final(self)@.wf(),
    {
        proof {
            use_type_invariant(&*self);
        }
        let raised_stake = self.get_stake(asset, user).checked_add(amount);
        let raised_total = self.get_total_stake(asset).checked_add(amount);
        match (raised_stake, raised_total) {
            (Some(stake), Some(total)) => {
                self.put(asset, user, stake, total);
                Ok(())
            },
            _ => Err(StakeError::Overflow),
        }
    }

    /// Takes `amount` from the stake of `user` in `asset` and from the total
    /// of `asset`, where the stake is at least `amount`.
    pub fn withdraw(
        &mut self,
        asset: &Address,
        amount: i128,
        user: &Address,
    ) -> (withdrawn: Result<(), StakeError>)
        ensures
            withdrawn == old(self)@.withdraw_outcome(*asset, amount, *user),
            withdrawn is Ok ==> final(self)@ == old(self)@.moved(
                *asset,
                *user,
                -(amount as int),
            ),
            withdrawn is Err ==> final(self)@ == old(self)@,
            final(self)@.wf(),
    {
        proof {
            use_type_invariant(&*self);
        }
        let current = self.get_stake(asset, user);
        require(current >= amount, StakeError::InsufficientStake)?;
        let lowered_stake = current.checked_sub(amount);
        let lowered_total = self.get_total_stake(asset).checked_sub(amount);
        match (lowered_stake, lowered_total) {
            (Some(stake), Some(total)) => {
                self.put(asset, user, stake, total);
                Ok(())
            },
            _ => Err(StakeError::Overflow),
        }
    }

    /// What `user` has staked in `asset`: zero where it never staked.
    pub fn get_stake(&self, asset: &Address, user: &Address) -> (stake: i128)
        ensures
            stake == self@.stake_of(*asset, *user),
            self@.wf(),
    {
        proof {
            use_type_invariant(self);
        }
        match position_table_get(&self.stakes, user, asset) {
            Some(stake) => stake,
            None => 0,
        }
    }

    /// What is staked in `asset`: zero where nothing ever was.
    pub fn get_total_stake(&self, asset: &Address) -> (total: i128)
        ensures
            total == self@.total(*asset),
            total == self@.staked(*asset),
            self@.wf(),
    {
        proof {
            use_type_invariant(self);
            assert(self@.balanced(*asset));
        }
        match balance_table_get(&self.total_stakes, asset) {
            Some(total) => total,
            None => 0,
        }
    }

    /// Sets the stake of `user` in `asset` and the total of `asset`, which
    /// move by the same amount. Both are written to new maps, and the ledger
    /// takes the two at once.
    fn put(&mut self, asset: &Address, user: &Address, stake: i128, total: i128)
        requires
            stake - old(self)@.stake_of(*asset, *user) == total - old(self)@.total(*asset),
        ensures
            final(self)@ == old(self)@.moved(
                *asset,
                *user,
                stake - old(self)@.stake_of(*asset, *user),
            ),
            final(self)@.wf(),
    {
        proof {
            use_type_invariant(&*self);
            law_move_keeps_totals_the_sums(
                self@,
                *asset,
                *user,
                stake - self@.stake_of(*asset, *user),
            );
        }
        let mut stakes = self.stakes.clone();
        let mut total_stakes = self.total_stakes.clone();
        position_table_set(&mut stakes, user, asset, stake);
        balance_table_set(&mut total_stakes, asset, total);
        *self = StakeManager { stakes, total_stakes };
    }
}

} // verus!
