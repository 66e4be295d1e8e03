use vstd::prelude::*;
use crate::pallet::Pallet;
use crate::types::{Balance, Error, Role};

verus! {

/// `a * b`, capped at the largest balance.
pub open spec fn saturating_mul_spec(a: int, b: int) -> int {
    if a * b > u128::MAX {
        u128::MAX as int
    } else {
        a * b
    }
}

/// The deposit owed for storing `data_size` bytes, or the error when the size
/// does not fit in 32 bits.
pub open spec fn deposit_spec(data_size: nat, deposit_per_byte: Balance) -> Result<Balance, Error> {
    if data_size > u32::MAX {
        Err(Error::Conversion)
    } else {
        Ok(saturating_mul_spec(data_size as int, deposit_per_byte as int) as Balance)
    }
}

/// The deposit for `data_size` stored bytes: `data_size * deposit_per_byte`,
/// saturating at the largest balance. Sizes beyond 32 bits are refused.
pub fn compute_deposit(data_size: usize, deposit_per_byte: Balance) -> (r: Result<Balance, Error>)
    ensures
        r == deposit_spec(data_size as nat, deposit_per_byte),
{
    if data_size > u32::MAX as usize {
        return Err(Error::Conversion);
    }
    let bytes_stored: u32 = data_size as u32;
    match (bytes_stored as u128).checked_mul(deposit_per_byte) {
        Some(amount) => Ok(amount),
        None => Ok(u128::MAX),
    }
}

/// The refund owed when `removed_members` of `initial_total_members` members
/// leave a unit holding `total_deposit`.
pub open spec fn proportional_refund_spec(
    total_deposit: Balance,
    initial_total_members: u32,
    removed_members: nat,
) -> Result<Balance, Error>
    recommends
        initial_total_members >= 1,
{
    let share = total_deposit as int / initial_total_members as int;
    if removed_members > u128::MAX || share * removed_members > u128::MAX {
        Err(Error::Overflow)
    } else {
        Ok((share * removed_members) as Balance)
    }
}

/// The weight of one vote: a Standard member counts one, a Master counts half
/// the membership (at least one); a non-member cannot vote.
pub open spec fn vote_weight_spec(role: Role, total_members: u32) -> Result<u32, Error> {
    match role {
        Role::Standard => Ok(1u32),
        Role::Master => Ok(
            if total_members / 2 > 1 {
                (total_members / 2) as u32
            } else {
                1u32
            },
        ),
        Role::NotMember => Err(Error::NotMember),
    }
}

/// The vote weight of a member with `role` in a unit of `total_members`.
pub fn compute_vote_weight(role: Role, total_members: u32) -> (r: Result<u32, Error>)
    ensures
        r == vote_weight_spec(role, total_members),
{
    match role {
        Role::Standard => Ok(1),
        Role::Master => {
            let half: u32 = total_members / 2;
            if half > 1 {
                Ok(half)
            } else {
                Ok(1)
            }
        },
        Role::NotMember => Err(Error::NotMember),
    }
}

/// The accumulated weight at which a proposal executes: a simple majority.
pub open spec fn threshold_spec(total_members: u32) -> int {
    total_members / 2 + 1
}

/// Whether an accumulated weight of `votes` reaches the simple majority of
/// `total_members`.
pub fn reaches_threshold(votes: u32, total_members: u32) -> (r: bool)
    ensures
        r == (votes as int >= threshold_spec(total_members)),
{
    votes >= total_members / 2 + 1
}

impl Pallet {
    /// `floor(total_deposit / initial_total_members) * removed_members`, or
    /// `Overflow` when the product does not fit in a balance.
    pub fn compute_proportional_amount_to_unreserve(
        total_deposit: Balance,
        initial_total_members: u32,
        removed_members: usize,
    ) -> (r: Result<Balance, Error>)
        requires
            initial_total_members >= 1,
        ensures
            r == proportional_refund_spec(total_deposit, initial_total_members, removed_members as nat),
    {
        let share: u128 = total_deposit / (initial_total_members as u128);
        let removed: u128 = removed_members as u128;
        match share.checked_mul(removed) {
            Some(amount) => Ok(amount),
            None => Err(Error::Overflow),
        }
    }
}

} // verus!
