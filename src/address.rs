use vstd::prelude::*;
use crate::types::{AccountId, SupersigId};

verus! {

/// The span of indices that one module id can derive accounts for.
pub const SUB_ACCOUNT_SPAN: u128 = 0x1_0000_0000_0000_0000;

/// The account derived for `index` under the module id `module_id`: the module
/// id fills the upper 64 bits and the index the lower 64 bits. Indices that do
/// not fit in 64 bits have no account.
pub open spec fn sub_account_spec(module_id: u64, index: SupersigId) -> Option<AccountId> {
    if index < SUB_ACCOUNT_SPAN {
        Some((module_id as int * SUB_ACCOUNT_SPAN as int + index as int) as AccountId)
    } else {
        None
    }
}

/// The module id part of an account.
pub open spec fn module_of(account: AccountId) -> int {
    account as int / SUB_ACCOUNT_SPAN as int
}

/// The index part of an account.
pub open spec fn index_of(account: AccountId) -> int {
    account as int % SUB_ACCOUNT_SPAN as int
}

/// Derives the account of `index` under `module_id`.
pub fn into_sub_account(module_id: u64, index: SupersigId) -> (r: Option<AccountId>)
    ensures
        r == sub_account_spec(module_id, index),
{
    if index < SUB_ACCOUNT_SPAN {
        assert(module_id as int * SUB_ACCOUNT_SPAN as int + index as int <= u128::MAX) by (nonlinear_arith)
            requires
                module_id <= u64::MAX,
                index < SUB_ACCOUNT_SPAN,
                SUB_ACCOUNT_SPAN == 0x1_0000_0000_0000_0000u128,
        ;
        Some((module_id as u128) * SUB_ACCOUNT_SPAN + index)
    } else {
        None
    }
}

/// Splits an account into its module id and index.
pub fn from_sub_account(account: AccountId) -> (r: (u64, SupersigId))
    ensures
        r.0 as int == module_of(account),
        r.1 as int == index_of(account),
{
    ((account / SUB_ACCOUNT_SPAN) as u64, account % SUB_ACCOUNT_SPAN)
}

/// Decoding a derived account gives back the module id and the index.
pub proof fn lemma_sub_account_round_trip(module_id: u64, index: SupersigId)
    requires
        index < SUB_ACCOUNT_SPAN,
    ensures
        module_of(sub_account_spec(module_id, index).unwrap()) == module_id,
        index_of(sub_account_spec(module_id, index).unwrap()) == index,
{
    let a = module_id as int * SUB_ACCOUNT_SPAN as int + index as int;
    assert(a / (SUB_ACCOUNT_SPAN as int) == module_id as int && a % (SUB_ACCOUNT_SPAN as int) == index as int) by (nonlinear_arith)
        requires
            a == module_id as int * SUB_ACCOUNT_SPAN as int + index as int,
            0 <= index < SUB_ACCOUNT_SPAN,
            SUB_ACCOUNT_SPAN > 0,
    ;
    assert(a <= u128::MAX) by (nonlinear_arith)
        requires
            a == module_id as int * SUB_ACCOUNT_SPAN as int + index as int,
            module_id <= u64::MAX,
            index < SUB_ACCOUNT_SPAN,
            SUB_ACCOUNT_SPAN == 0x1_0000_0000_0000_0000u128,
    ;
}

} // verus!
