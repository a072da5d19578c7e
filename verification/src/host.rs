//! The hosting environment: its clock, its addresses, its maps and the
//! contracts it can invoke.
//!
//! Nothing in this file is proved. Each function makes one call into the
//! host, and its contract says what the host's documentation and source say
//! of that call.
//!
//! An `Address` stands in contracts for the account or contract that it
//! identifies: two addresses are equal there exactly when the host takes
//! them for the same key. All handles are taken to belong to one
//! environment.
//!
//! A host that ends a call because its budget is spent, because a limit of
//! its storage is passed or because of an error of its own is not modelled,
//! as running out of memory is not.

use vstd::prelude::*;
use soroban_sdk::Address;
use soroban_sdk::Env;
use soroban_sdk::IntoVal;
use soroban_sdk::InvokeError;
use crate::loan::LoanRow;

verus! {

/// `Env`: the handle to the host. Nothing is known of what is behind it.
#[verifier::external_type_specification]
#[verifier::external_body]
pub struct ExEnv(soroban_sdk::Env);

/// `Address`: what identifies an account or a contract.
#[verifier::external_type_specification]
#[verifier::external_body]
pub struct ExAddress(soroban_sdk::Address);

/// `Map`: a map that the host keeps, ordered by its keys. What it holds is
/// named for each of the three kinds of map that the ledgers keep.
#[verifier::external_type_specification]
#[verifier::external_body]
#[verifier::reject_recursive_types(K)]
#[verifier::reject_recursive_types(V)]
pub struct ExHostMap<K, V>(soroban_sdk::Map<K, V>);

/// A host map from asset to amount.
pub type BalanceTable = soroban_sdk::Map<Address, i128>;

/// A host map from account and asset to amount.
pub type PositionTable = soroban_sdk::Map<(Address, Address), i128>;

/// A host map from account and asset to the row of a loan.
pub type LoanTable = soroban_sdk::Map<(Address, Address), LoanRow>;

/// What a `BalanceTable` holds.
pub type Balances = Map<Address, i128>;

/// What a `PositionTable` holds.
pub type Positions = Map<(Address, Address), i128>;

/// What a `LoanTable` holds.
pub type LoanRows = Map<(Address, Address), LoanRow>;

/// The entries of a map from asset to amount that convert to those types.
pub uninterp spec fn balances(
    table: soroban_sdk::Map<soroban_sdk::Address, i128>,
) -> Map<soroban_sdk::Address, i128>;

/// The entries of a map from account and asset to amount that convert to those types.
pub uninterp spec fn positions(
    table: soroban_sdk::Map<(soroban_sdk::Address, soroban_sdk::Address), i128>,
) -> Map<(soroban_sdk::Address, soroban_sdk::Address), i128>;

/// The entries of a map from account and asset to loan row that convert to those types.
pub uninterp spec fn loan_rows(
    table: soroban_sdk::Map<
        (soroban_sdk::Address, soroban_sdk::Address),
        (i128, i128, u32, u64, u64, u32),
    >,
) -> Map<(soroban_sdk::Address, soroban_sdk::Address), (i128, i128, u32, u64, u64, u32)>;

/// `Map::clone`: a second handle to the same entries. A map is a value of
/// the host that no operation changes: `Map::set` makes the handle it is
/// called on refer to a new map, and leaves every other handle as it was.
pub assume_specification<K: Clone, V: Clone>[ <soroban_sdk::Map<K, V> as Clone>::clone ](
    table: &soroban_sdk::Map<K, V>,
) -> (copy: soroban_sdk::Map<K, V>)
    ensures
        copy == *table,
;

/// `Ledger::timestamp`: the time at which the current ledger closed, in
/// seconds since the Unix epoch. Nothing is claimed of the value.
#[verifier::external_body]
pub(crate) fn ledger_timestamp(env: &Env) -> (now: u64) {
    env.ledger().timestamp()
}

/// `Map::new`: a map without entries.
#[verifier::external_body]
pub(crate) fn balance_table_new(env: &Env) -> (table: BalanceTable)
    ensures
        balances(table) == Balances::empty(),
{
    soroban_sdk::Map::new(env)
}

/// `Map::try_get`: the amount under `asset`, or `None` where the map has no
/// entry under it. A value that is no amount counts as no entry.
#[verifier::external_body]
pub(crate) fn balance_table_get(table: &BalanceTable, asset: &Address) -> (found: Option<i128>)
    ensures
        found == (if balances(*table).contains_key(*asset) {
            Some(balances(*table)[*asset])
        } else {
            None
        }),
{
    table.try_get(asset.clone()).ok().flatten()
}

/// `Map::set`: `amount` stands under `asset`, in place of what stood there;
/// the other entries stay. The call is taken not to unwind.
#[verifier::external_body]
pub(crate) fn balance_table_set(table: &mut BalanceTable, asset: &Address, amount: i128)
    ensures
        balances(*final(table)) == balances(*old(table)).insert(*asset, amount),
    no_unwind
{
    table.set(asset.clone(), amount)
}

/// `Map::new`: a map without entries.
#[verifier::external_body]
pub(crate) fn position_table_new(env: &Env) -> (table: PositionTable)
    ensures
        positions(table) == Positions::empty(),
{
    soroban_sdk::Map::new(env)
}

/// `Map::try_get`: the amount under `account` and `asset`, or `None` where
/// the map has no entry under them. A value that is no amount counts as no entry.
#[verifier::external_body]
pub(crate) fn position_table_get(
    table: &PositionTable,
    account: &Address,
    asset: &Address,
) -> (found: Option<i128>)
    ensures
        found == (if positions(*table).contains_key((*account, *asset)) {
            Some(positions(*table)[(*account, *asset)])
        } else {
            None
        }),
{
    table.try_get((account.clone(), asset.clone())).ok().flatten()
}

/// `Map::set`: `amount` stands under `account` and `asset`, in place of what
/// stood there; the other entries stay. The call is taken not to unwind.
#[verifier::external_body]
pub(crate) fn position_table_set(
    table: &mut PositionTable,
    account: &Address,
    asset: &Address,
    amount: i128,
)
    ensures
        positions(*final(table)) == positions(*old(table)).insert((*account, *asset), amount),
    no_unwind
{
    table.set((account.clone(), asset.clone()), amount)
}

/// `Map::new`: a map without entries.
#[verifier::external_body]
pub(crate) fn loan_table_new(env: &Env) -> (table: LoanTable)
    ensures
        loan_rows(table) == LoanRows::empty(),
{
    soroban_sdk::Map::new(env)
}

/// `Map::try_get`: the row under `account` and `asset`, or `None` where the
/// map has no entry under them. A value that is no vector counts as no
/// entry, and so does a vector of six with a field of another type. A vector
/// of another length would stop the call: no table that `Map::new`,
/// `Map::set` and `Map::clone` have made holds one, and the ledger keeps no
/// other.
#[verifier::external_body]
pub(crate) fn loan_table_get(
    table: &LoanTable,
    account: &Address,
    asset: &Address,
) -> (found: Option<LoanRow>)
    ensures
        found == (if loan_rows(*table).contains_key((*account, *asset)) {
            Some(loan_rows(*table)[(*account, *asset)])
        } else {
            None
        }),
{
    table.try_get((account.clone(), asset.clone())).ok().flatten()
}

/// `Map::set`: `row` stands under `account` and `asset`, in place of what
/// stood there; the other entries stay. The call is taken not to unwind.
#[verifier::external_body]
pub(crate) fn loan_table_set(
    table: &mut LoanTable,
    account: &Address,
    asset: &Address,
    row: LoanRow,
)
    ensures
        loan_rows(*final(table)) == loan_rows(*old(table)).insert((*account, *asset), row),
    no_unwind
{
    table.set((account.clone(), asset.clone()), row)
}

/// The strkey of an address, as its bytes: what `Address::to_string` gives.
pub uninterp spec fn strkey(address: soroban_sdk::Address) -> Seq<u8>;

/// The letter with which the strkey of a contract begins: `C`. That of an
/// account begins with `G`.
pub const CONTRACT_PREFIX: u8 = 67;

/// Whether `key` is the strkey of a contract, and not that of an account.
/// The host invokes nothing at an address of any other kind.
pub open spec fn names_contract(key: Seq<u8>) -> bool {
    key.len() > 0 && key[0] == CONTRACT_PREFIX
}

/// `Address::to_string`: the strkey of the address, as its bytes.
#[verifier::external_body]
pub(crate) fn address_strkey(address: &Address) -> (key: Vec<u8>)
    ensures
        key@ == strkey(*address),
{
    let text = address.to_string();
    let mut key = vec![0u8; text.len() as usize];
    text.copy_into_slice(&mut key);
    key
}

/// Whether `name` can name a function of a contract: at most 32 characters,
/// each a letter, a digit or an underscore.
pub open spec fn is_function_name(name: Seq<char>) -> bool {
    &&& name.len() <= 32
    &&& forall|i: int|
        0 <= i < name.len() ==> {
            let c = #[trigger] name[i];
            ('a' <= c && c <= 'z') || ('A' <= c && c <= 'Z') || ('0' <= c && c <= '9') || c == '_'
        }
}

/// `Env::try_invoke_contract` on `function` of `exchange`, with `to_asset`,
/// `amount` and `min_output` as its arguments: the amount that the function
/// returned, or `None` where the invocation failed or returned no amount.
/// Nothing is claimed of the value. The host stops the call on an address
/// that is not that of a contract, before anything is invoked, and
/// `Symbol::new` stops it on a name that is no function name: both are left
/// out.
#[verifier::external_body]
pub(crate) fn invoke_exchange(
    env: &Env,
    exchange: &Address,
    function: &str,
    to_asset: &Address,
    amount: i128,
    min_output: i128,
) -> (output: Option<i128>)
    requires
        is_function_name(function@),
        names_contract(strkey(*exchange)),
{
    let args = soroban_sdk::Vec::from_array(
        env,
        [to_asset.to_val(), amount.into_val(env), min_output.into_val(env)],
    );
    let name = soroban_sdk::Symbol::new(env, function);
    match env.try_invoke_contract::<i128, InvokeError>(exchange, &name, args) {
        Ok(Ok(output)) => Some(output),
        _ => None,
    }
}

/// `Env::try_invoke_contract` on `function` of `ledger`, with `amount` and
/// `recipient` as its arguments: whether the invocation succeeded. Nothing
/// is claimed of the value. The host stops the call on an address that is
/// not that of a contract, before anything is invoked, and `Symbol::new`
/// stops it on a name that is no function name: both are left out.
#[verifier::external_body]
pub(crate) fn invoke_deposit(
    env: &Env,
    ledger: &Address,
    function: &str,
    amount: i128,
    recipient: &Address,
) -> (done: bool)
    requires
        is_function_name(function@),
        names_contract(strkey(*ledger)),
{
    let args = soroban_sdk::Vec::from_array(env, [amount.into_val(env), recipient.to_val()]);
    let name = soroban_sdk::Symbol::new(env, function);
    env.try_invoke_contract::<(), InvokeError>(ledger, &name, args).is_ok()
}

} // verus!
