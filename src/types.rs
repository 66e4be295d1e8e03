use vstd::prelude::*;

verus! {

/// Identifier of a governed unit.
pub type SupersigId = u128;

/// Identifier of a proposal inside one unit.
pub type CallId = u128;

/// An account on the ledger.
pub type AccountId = u128;

/// An amount of tokens.
pub type Balance = u128;

/// Number of bytes that one stored member entry costs in deposit.
pub const ACCOUNT_ID_SIZE: usize = 32;

/// The relationship of an account to a unit.
#[derive(Clone, Copy, PartialEq, Eq, Structural, Debug)]
pub enum Role {
    Standard,
    Master,
    NotMember,
}

impl Default for Role {
    fn default() -> (r: Role)
        ensures
            r == Role::NotMember,
    {
        Role::NotMember
    }
}

/// A submitted proposal: the encoded command, who submitted it and what they
/// reserved for it.
#[derive(Clone, Debug, PartialEq, Eq)]
pub struct PreimageCall {
    pub data: Vec<u8>,
    pub provider: AccountId,
    pub deposit: Balance,
}

/// Errors reported by the ledger.
#[derive(Clone, Copy, PartialEq, Eq, Structural, Debug)]
pub enum LedgerError {
    /// The free balance does not cover the amount.
    InsufficientBalance,
    /// The transfer would create an account below the existential deposit.
    ExistentialDeposit,
    /// The transfer would reap an account that asked to be kept alive.
    KeepAlive,
    /// The transfer would reap an account that still has consumers.
    ConsumerRemaining,
    /// The account does not exist, so it cannot take a consumer.
    NoProviders,
    /// The consumer counter is at its maximum.
    TooManyConsumers,
    /// A balance would exceed its numeric range.
    Overflow,
}

/// Errors of the governance engine.
#[derive(Clone, Copy, PartialEq, Eq, Structural, Debug)]
pub enum Error {
    /// A unit must have at least one member.
    MustHaveAtLeastOneMember,
    /// The account is not a live governed unit.
    NotSupersig,
    /// The proposal does not exist.
    CallNotFound,
    /// The account is not a member of the unit.
    NotMember,
    /// The member already voted for this proposal.
    AlreadyVoted,
    /// The caller may not perform this operation.
    NotAllowed,
    /// The unit could not be deleted because other holds lock its funds.
    SupersigHaveLockedFunds,
    /// A count does not fit its numeric width.
    Conversion,
    /// An arithmetic result does not fit its numeric width.
    Overflow,
    /// The proposal bytes could not be decoded into a command.
    BadEncodedCall,
    /// No more unit ids can be allocated.
    InvalidNonce,
    /// The command was executed and failed.
    TxFailed,
    /// The proposal data exceeds the configured maximum size.
    CallDataTooLarge,
    /// The unit already has the maximum number of open proposals.
    TooManyActiveProposals,
    /// The ledger refused a movement of funds.
    Ledger(LedgerError),
}

/// Notifications emitted by the engine.
#[derive(Clone, Debug, PartialEq, Eq)]
pub enum Event {
    /// A unit has been created [unit account].
    SupersigCreated(AccountId),
    /// A unit has been deleted [unit account].
    SupersigRemoved(AccountId),
    /// A proposal has been submitted [unit account, call id, submitter].
    CallSubmitted(AccountId, CallId, AccountId),
    /// A proposal has received a vote [unit account, call id, voter].
    CallVoted(AccountId, CallId, AccountId),
    /// Execution of an approved proposal has been attempted
    /// [unit account, call id, failure if it failed].
    CallExecutionAttempted(AccountId, CallId, Option<Error>),
    /// A proposal has been removed [unit account, call id].
    CallRemoved(AccountId, CallId),
    /// Accounts that were not members before and have been added
    /// [unit account, (account, role) list].
    MembersAdded(AccountId, Vec<(AccountId, Role)>),
    /// Members that have been removed [unit account, accounts].
    MembersRemoved(AccountId, Vec<AccountId>),
    /// A member has left the unit [unit account, member].
    SupersigLeft(AccountId, AccountId),
}

} // verus!
