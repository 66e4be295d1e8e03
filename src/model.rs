use vstd::prelude::*;
use crate::address::{index_of, module_of, sub_account_spec, SUB_ACCOUNT_SPAN};
use crate::deposit::{deposit_spec, proportional_refund_spec, threshold_spec, vote_weight_spec};
use crate::ledger::{
    dec_consumers_spec, inc_consumers_spec, reserve_spec, transfer_spec, unreserve_spec, AccountData,
};
use crate::types::{AccountId, Balance, CallId, Error, LedgerError, Role, SupersigId, ACCOUNT_ID_SIZE};

verus! {

/// Parameters of the engine, fixed at construction.
#[derive(Clone, Copy, PartialEq, Eq, Structural, Debug)]
pub struct Config {
    /// Module id under which unit accounts are derived.
    pub pallet_id: u64,
    /// Deposit owed per stored byte.
    pub deposit_per_byte: Balance,
    /// Largest accepted proposal, in bytes.
    pub max_call_data_size: u32,
    /// Largest number of open proposals per unit.
    pub max_calls_per_account: u32,
}

/// Abstract state of one open proposal.
pub struct ProposalView {
    pub id: CallId,
    pub data: Seq<u8>,
    pub provider: AccountId,
    pub deposit: Balance,
    /// Accumulated vote weight.
    pub votes: u32,
    /// Accounts that voted, in voting order.
    pub voters: Seq<AccountId>,
}

/// Abstract state of one unit.
pub struct UnitView {
    /// Role of each member; accounts without a relationship are absent.
    pub members: Map<AccountId, Role>,
    pub total_members: u32,
    pub total_deposit: Balance,
    /// Id that the next proposal will get.
    pub nonce_call: CallId,
    pub active_proposals: u32,
    /// Open proposals, in submission order.
    pub calls: Seq<ProposalView>,
}

/// Abstract form of an emitted event.
pub enum EventView {
    SupersigCreated(AccountId),
    SupersigRemoved(AccountId),
    CallSubmitted(AccountId, CallId, AccountId),
    CallVoted(AccountId, CallId, AccountId),
    CallExecutionAttempted(AccountId, CallId, Option<Error>),
    CallRemoved(AccountId, CallId),
    MembersAdded(AccountId, Seq<(AccountId, Role)>),
    MembersRemoved(AccountId, Seq<AccountId>),
    SupersigLeft(AccountId, AccountId),
}

/// Abstract state of the engine.
pub struct PalletView {
    /// Id that the next unit will get.
    pub nonce_supersig: SupersigId,
    pub units: Map<SupersigId, UnitView>,
    pub events: Seq<EventView>,
}

/// Role of `a` in a member map; `NotMember` when absent.
pub open spec fn role_in(members: Map<AccountId, Role>, a: AccountId) -> Role {
    if members.contains_key(a) {
        members[a]
    } else {
        Role::NotMember
    }
}

/// Writing role `r` for `a`: `NotMember` means no row.
pub open spec fn write_role(members: Map<AccountId, Role>, a: AccountId, r: Role) -> Map<AccountId, Role> {
    if r == Role::NotMember {
        members.remove(a)
    } else {
        members.insert(a, r)
    }
}

/// Member map after writing every entry of `entries`, in order.
pub open spec fn members_after_add(members: Map<AccountId, Role>, entries: Seq<(AccountId, Role)>) -> Map<
    AccountId,
    Role,
>
    decreases entries.len(),
{
    if entries.len() == 0 {
        members
    } else {
        write_role(
            members_after_add(members, entries.drop_last()),
            entries.last().0,
            entries.last().1,
        )
    }
}

/// Entries of `entries` whose account had no role when its turn came.
pub open spec fn added_by(members: Map<AccountId, Role>, entries: Seq<(AccountId, Role)>) -> Seq<
    (AccountId, Role),
>
    decreases entries.len(),
{
    if entries.len() == 0 {
        Seq::empty()
    } else if members_after_add(members, entries.drop_last()).contains_key(entries.last().0) {
        added_by(members, entries.drop_last())
    } else {
        added_by(members, entries.drop_last()).push(entries.last())
    }
}

/// Member map after removing every account of `accounts`.
pub open spec fn members_after_remove(members: Map<AccountId, Role>, accounts: Seq<AccountId>) -> Map<
    AccountId,
    Role,
>
    decreases accounts.len(),
{
    if accounts.len() == 0 {
        members
    } else {
        members_after_remove(members, accounts.drop_last()).remove(accounts.last())
    }
}

/// Accounts of `accounts` that were members when their turn came.
pub open spec fn removed_by(members: Map<AccountId, Role>, accounts: Seq<AccountId>) -> Seq<AccountId>
    decreases accounts.len(),
{
    if accounts.len() == 0 {
        Seq::empty()
    } else if members_after_remove(members, accounts.drop_last()).contains_key(accounts.last()) {
        removed_by(members, accounts.drop_last()).push(accounts.last())
    } else {
        removed_by(members, accounts.drop_last())
    }
}

/// The unit that `account` governs, if it is a live unit of this engine.
pub open spec fn resolve_spec(cfg: Config, s: PalletView, account: AccountId) -> Result<SupersigId, Error> {
    let id = index_of(account) as SupersigId;
    if module_of(account) == cfg.pallet_id && s.units.contains_key(id) && s.units[id].total_members
        != 0 {
        Ok(id)
    } else {
        Err(Error::NotSupersig)
    }
}

/// Whether `calls` holds a proposal with id `id`.
pub open spec fn has_call(calls: Seq<ProposalView>, id: CallId) -> bool {
    exists|i: int| 0 <= i < calls.len() && #[trigger] calls[i].id == id
}

/// Position of the proposal with id `id` in `calls`.
pub open spec fn call_pos(calls: Seq<ProposalView>, id: CallId) -> int {
    choose|i: int| 0 <= i < calls.len() && #[trigger] calls[i].id == id
}

/// Deposit owed for `n` stored member entries.
pub open spec fn members_deposit_spec(cfg: Config, n: nat) -> Result<Balance, Error> {
    deposit_spec(ACCOUNT_ID_SIZE as nat * n, cfg.deposit_per_byte)
}

/// The larger of two balances.
pub open spec fn max_balance(a: Balance, b: Balance) -> Balance {
    if a >= b {
        a
    } else {
        b
    }
}

/// What creating a unit does to the ledger: fund the unit account, register
/// the engine as its consumer, and reserve the members' deposit on it.
pub open spec fn create_ledger_spec(
    m: Map<AccountId, AccountData>,
    ed: Balance,
    who: AccountId,
    account: AccountId,
    deposit: Balance,
) -> Result<Map<AccountId, AccountData>, LedgerError> {
    match transfer_spec(m, ed, who, account, max_balance(ed, deposit), true) {
        Err(e) => Err(e),
        Ok(m1) => match inc_consumers_spec(m1, account) {
            Err(e) => Err(e),
            Ok(m2) => reserve_spec(m2, account, deposit),
        },
    }
}

/// Engine and ledger after `who` creates a unit with `members`, or the error.
pub open spec fn create_spec(
    cfg: Config,
    s: PalletView,
    m: Map<AccountId, AccountData>,
    ed: Balance,
    who: AccountId,
    members: Seq<(AccountId, Role)>,
) -> Result<(PalletView, Map<AccountId, AccountData>), Error> {
    let id = s.nonce_supersig;
    let account = sub_account_spec(cfg.pallet_id, id);
    let added = added_by(Map::empty(), members);
    if members.len() < 1 {
        Err(Error::MustHaveAtLeastOneMember)
    } else if account.is_none() {
        Err(Error::InvalidNonce)
    } else if added.len() > u32::MAX {
        Err(Error::Conversion)
    } else {
        match members_deposit_spec(cfg, added.len()) {
            Err(e) => Err(e),
            Ok(deposit) => match create_ledger_spec(m, ed, who, account.unwrap(), deposit) {
                Err(e) => Err(Error::Ledger(e)),
                Ok(m2) => Ok(
                    (
                        PalletView {
                            nonce_supersig: (id + 1) as SupersigId,
                            units: s.units.insert(
                                id,
                                UnitView {
                                    members: members_after_add(Map::empty(), members),
                                    total_members: added.len() as u32,
                                    total_deposit: deposit,
                                    nonce_call: 0,
                                    active_proposals: 0,
                                    calls: Seq::empty(),
                                },
                            ),
                            events: s.events.push(EventView::SupersigCreated(account.unwrap())).push(
                                EventView::MembersAdded(account.unwrap(), added),
                            ),
                        },
                        m2,
                    ),
                ),
            },
        }
    }
}

/// Engine and ledger after `who` submits `data` to the unit of `account`.
pub open spec fn submit_spec(
    cfg: Config,
    s: PalletView,
    m: Map<AccountId, AccountData>,
    who: AccountId,
    account: AccountId,
    data: Seq<u8>,
) -> Result<(PalletView, Map<AccountId, AccountData>), Error> {
    match resolve_spec(cfg, s, account) {
        Err(e) => Err(e),
        Ok(id) => {
            let u = s.units[id];
            if data.len() > cfg.max_call_data_size {
                Err(Error::CallDataTooLarge)
            } else if u.active_proposals >= cfg.max_calls_per_account {
                Err(Error::TooManyActiveProposals)
            } else if u.nonce_call == u128::MAX {
                Err(Error::Overflow)
            } else {
                match deposit_spec(data.len(), cfg.deposit_per_byte) {
                    Err(e) => Err(e),
                    Ok(deposit) => match reserve_spec(m, who, deposit) {
                        Err(e) => Err(Error::Ledger(e)),
                        Ok(m2) => Ok(
                            (
                                PalletView {
                                    nonce_supersig: s.nonce_supersig,
                                    units: s.units.insert(
                                        id,
                                        UnitView {
                                            members: u.members,
                                            total_members: u.total_members,
                                            total_deposit: u.total_deposit,
                                            nonce_call: (u.nonce_call + 1) as CallId,
                                            active_proposals: (u.active_proposals + 1) as u32,
                                            calls: u.calls.push(
                                                ProposalView {
                                                    id: u.nonce_call,
                                                    data,
                                                    provider: who,
                                                    deposit,
                                                    votes: 0,
                                                    voters: Seq::empty(),
                                                },
                                            ),
                                        },
                                    ),
                                    events: s.events.push(
                                        EventView::CallSubmitted(account, u.nonce_call, who),
                                    ),
                                },
                                m2,
                            ),
                        ),
                    },
                }
            }
        },
    }
}

/// `a + b`, capped at the largest `u32`.
pub open spec fn saturating_add_u32(a: u32, b: u32) -> u32 {
    if a + b > u32::MAX {
        u32::MAX
    } else {
        (a + b) as u32
    }
}

/// `a - 1`, stopping at zero.
pub open spec fn saturating_dec(a: u32) -> u32 {
    if a == 0 {
        0
    } else {
        (a - 1) as u32
    }
}

/// The unit without the proposal at position `pos`.
pub open spec fn without_call(u: UnitView, pos: int) -> UnitView {
    UnitView {
        members: u.members,
        total_members: u.total_members,
        total_deposit: u.total_deposit,
        nonce_call: u.nonce_call,
        active_proposals: saturating_dec(u.active_proposals),
        calls: u.calls.remove(pos),
    }
}

/// What approving does, before execution: `Ok((state, ledger, executed))`
/// where `executed` is the consumed proposal when the vote reached the
/// threshold.
pub open spec fn approve_spec(
    cfg: Config,
    s: PalletView,
    m: Map<AccountId, AccountData>,
    who: AccountId,
    account: AccountId,
    call_id: CallId,
) -> Result<(PalletView, Map<AccountId, AccountData>, Option<ProposalView>), Error> {
    match resolve_spec(cfg, s, account) {
        Err(e) => Err(e),
        Ok(id) => {
            let u = s.units[id];
            if !has_call(u.calls, call_id) {
                Err(Error::CallNotFound)
            } else {
                let pos = call_pos(u.calls, call_id);
                let p = u.calls[pos];
                if p.voters.contains(who) {
                    Err(Error::AlreadyVoted)
                } else {
                    match vote_weight_spec(role_in(u.members, who), u.total_members) {
                        Err(e) => Err(e),
                        Ok(weight) => {
                            let tally = saturating_add_u32(p.votes, weight);
                            let voted = ProposalView {
                                id: p.id,
                                data: p.data,
                                provider: p.provider,
                                deposit: p.deposit,
                                votes: tally,
                                voters: p.voters.push(who),
                            };
                            let events = s.events.push(EventView::CallVoted(account, call_id, who));
                            if tally >= threshold_spec(u.total_members) {
                                Ok(
                                    (
                                        PalletView {
                                            nonce_supersig: s.nonce_supersig,
                                            units: s.units.insert(id, without_call(u, pos)),
                                            events,
                                        },
                                        unreserve_spec(m, p.provider, p.deposit),
                                        Some(voted),
                                    ),
                                )
                            } else {
                                Ok(
                                    (
                                        PalletView {
                                            nonce_supersig: s.nonce_supersig,
                                            units: s.units.insert(
                                                id,
                                                UnitView {
                                                    members: u.members,
                                                    total_members: u.total_members,
                                                    total_deposit: u.total_deposit,
                                                    nonce_call: u.nonce_call,
                                                    active_proposals: u.active_proposals,
                                                    calls: u.calls.update(pos, voted),
                                                },
                                            ),
                                            events,
                                        },
                                        m,
                                        None,
                                    ),
                                )
                            }
                        },
                    }
                }
            }
        },
    }
}

/// Engine and ledger after `who` removes proposal `call_id` of `account`.
pub open spec fn remove_call_spec(
    cfg: Config,
    s: PalletView,
    m: Map<AccountId, AccountData>,
    who: AccountId,
    account: AccountId,
    call_id: CallId,
) -> Result<(PalletView, Map<AccountId, AccountData>), Error> {
    match resolve_spec(cfg, s, account) {
        Err(e) => Err(e),
        Ok(id) => {
            let u = s.units[id];
            if !has_call(u.calls, call_id) {
                Err(Error::CallNotFound)
            } else {
                let pos = call_pos(u.calls, call_id);
                let p = u.calls[pos];
                if who != account && who != p.provider {
                    Err(Error::NotAllowed)
                } else {
                    Ok(
                        (
                            PalletView {
                                nonce_supersig: s.nonce_supersig,
                                units: s.units.insert(id, without_call(u, pos)),
                                events: s.events.push(EventView::CallRemoved(account, call_id)),
                            },
                            unreserve_spec(m, p.provider, p.deposit),
                        ),
                    )
                }
            }
        },
    }
}

/// Engine and ledger after the unit of `account` adds `entries`.
pub open spec fn add_members_spec(
    cfg: Config,
    s: PalletView,
    m: Map<AccountId, AccountData>,
    account: AccountId,
    entries: Seq<(AccountId, Role)>,
) -> Result<(PalletView, Map<AccountId, AccountData>), Error> {
    match resolve_spec(cfg, s, account) {
        Err(e) => Err(e),
        Ok(id) => {
            let u = s.units[id];
            let added = added_by(u.members, entries);
            if added.len() > u32::MAX {
                Err(Error::Conversion)
            } else if u.total_members + added.len() > u32::MAX {
                Err(Error::Overflow)
            } else {
                match members_deposit_spec(cfg, added.len()) {
                    Err(e) => Err(e),
                    Ok(deposit) => match reserve_spec(m, account, deposit) {
                        Err(e) => Err(Error::Ledger(e)),
                        Ok(m2) => if u.total_deposit + deposit > u128::MAX {
                            Err(Error::Overflow)
                        } else {
                            Ok(
                                (
                                    PalletView {
                                        nonce_supersig: s.nonce_supersig,
                                        units: s.units.insert(
                                            id,
                                            UnitView {
                                                members: members_after_add(u.members, entries),
                                                total_members: (u.total_members + added.len()) as u32,
                                                total_deposit: (u.total_deposit + deposit) as Balance,
                                                nonce_call: u.nonce_call,
                                                active_proposals: u.active_proposals,
                                                calls: u.calls,
                                            },
                                        ),
                                        events: s.events.push(EventView::MembersAdded(account, added)),
                                    },
                                    m2,
                                ),
                            )
                        },
                    },
                }
            }
        },
    }
}

/// `a - b`, stopping at zero.
pub open spec fn saturating_sub_balance(a: Balance, b: Balance) -> Balance {
    if a < b {
        0
    } else {
        (a - b) as Balance
    }
}

/// The unit after its members changed to `members`, counting `total_members`,
/// with `refund` released from its deposit.
pub open spec fn with_members(u: UnitView, members: Map<AccountId, Role>, total_members: u32, refund: Balance) -> UnitView {
    UnitView {
        members,
        total_members,
        total_deposit: saturating_sub_balance(u.total_deposit, refund),
        nonce_call: u.nonce_call,
        active_proposals: u.active_proposals,
        calls: u.calls,
    }
}

/// Engine and ledger after the unit of `account` removes `accounts`.
pub open spec fn remove_members_spec(
    cfg: Config,
    s: PalletView,
    m: Map<AccountId, AccountData>,
    account: AccountId,
    accounts: Seq<AccountId>,
) -> Result<(PalletView, Map<AccountId, AccountData>), Error> {
    match resolve_spec(cfg, s, account) {
        Err(e) => Err(e),
        Ok(id) => {
            let u = s.units[id];
            let removed = removed_by(u.members, accounts);
            if removed.len() > u32::MAX {
                Err(Error::Conversion)
            } else if u.total_members - removed.len() < 1 {
                Err(Error::MustHaveAtLeastOneMember)
            } else {
                match proportional_refund_spec(u.total_deposit, u.total_members, removed.len()) {
                    Err(e) => Err(e),
                    Ok(refund) => Ok(
                        (
                            PalletView {
                                nonce_supersig: s.nonce_supersig,
                                units: s.units.insert(
                                    id,
                                    with_members(
                                        u,
                                        members_after_remove(u.members, accounts),
                                        (u.total_members - removed.len()) as u32,
                                        refund,
                                    ),
                                ),
                                events: s.events.push(EventView::MembersRemoved(account, removed)),
                            },
                            unreserve_spec(m, account, refund),
                        ),
                    ),
                }
            }
        },
    }
}

/// Engine and ledger after `who` leaves the unit of `account`.
pub open spec fn leave_spec(
    cfg: Config,
    s: PalletView,
    m: Map<AccountId, AccountData>,
    who: AccountId,
    account: AccountId,
) -> Result<(PalletView, Map<AccountId, AccountData>), Error> {
    match resolve_spec(cfg, s, account) {
        Err(e) => Err(e),
        Ok(id) => {
            let u = s.units[id];
            if role_in(u.members, who) == Role::NotMember {
                Err(Error::NotMember)
            } else {
                match proportional_refund_spec(u.total_deposit, u.total_members, 1) {
                    Err(e) => Err(e),
                    Ok(refund) => if u.total_members == 1 {
                        Err(Error::MustHaveAtLeastOneMember)
                    } else {
                        Ok(
                            (
                                PalletView {
                                    nonce_supersig: s.nonce_supersig,
                                    units: s.units.insert(
                                        id,
                                        with_members(
                                            u,
                                            u.members.remove(who),
                                            (u.total_members - 1) as u32,
                                            refund,
                                        ),
                                    ),
                                    events: s.events.push(EventView::SupersigLeft(account, who)),
                                },
                                unreserve_spec(m, account, refund),
                            ),
                        )
                    },
                }
            }
        },
    }
}

/// Ledger after releasing the deposit of each proposal of `calls`, in order.
pub open spec fn release_calls_spec(m: Map<AccountId, AccountData>, calls: Seq<ProposalView>) -> Map<
    AccountId,
    AccountData,
>
    decreases calls.len(),
{
    if calls.len() == 0 {
        m
    } else {
        unreserve_spec(
            release_calls_spec(m, calls.drop_last()),
            calls.last().provider,
            calls.last().deposit,
        )
    }
}

/// Ledger once a unit's deposits are released and its consumer deregistered,
/// before its balance goes to the beneficiary.
pub open spec fn delete_release_spec(m: Map<AccountId, AccountData>, account: AccountId, u: UnitView) -> Map<
    AccountId,
    AccountData,
> {
    dec_consumers_spec(
        release_calls_spec(unreserve_spec(m, account, u.total_deposit), u.calls),
        account,
    )
}

/// Engine and ledger after the unit of `account` deletes itself, sending its
/// whole balance to `beneficiary`.
pub open spec fn delete_spec(
    cfg: Config,
    s: PalletView,
    m: Map<AccountId, AccountData>,
    ed: Balance,
    account: AccountId,
    beneficiary: AccountId,
) -> Result<(PalletView, Map<AccountId, AccountData>), Error> {
    match resolve_spec(cfg, s, account) {
        Err(e) => Err(e),
        Ok(id) => {
            let released = delete_release_spec(m, account, s.units[id]);
            let amount = crate::ledger::total_of(released, account);
            if amount > u128::MAX {
                Err(Error::SupersigHaveLockedFunds)
            } else {
                match transfer_spec(released, ed, account, beneficiary, amount as Balance, true) {
                    Err(_) => Err(Error::SupersigHaveLockedFunds),
                    Ok(m2) => Ok(
                        (
                            PalletView {
                                nonce_supersig: s.nonce_supersig,
                                units: s.units.remove(id),
                                events: s.events.push(EventView::SupersigRemoved(account)),
                            },
                            m2,
                        ),
                    ),
                }
            }
        },
    }
}

/// No entry of `members` holds `NotMember`.
pub open spec fn roles_stored(members: Map<AccountId, Role>) -> bool {
    forall|a: AccountId| #[trigger] members.contains_key(a) ==> members[a] != Role::NotMember
}

/// Adding entries never stores `NotMember`.
pub proof fn lemma_add_keeps_roles(members: Map<AccountId, Role>, entries: Seq<(AccountId, Role)>)
    requires
        roles_stored(members),
    ensures
        roles_stored(members_after_add(members, entries)),
    decreases entries.len(),
{
    if entries.len() > 0 {
        lemma_add_keeps_roles(members, entries.drop_last());
    }
}

/// Removing accounts never stores `NotMember`.
pub proof fn lemma_remove_keeps_roles(members: Map<AccountId, Role>, accounts: Seq<AccountId>)
    requires
        roles_stored(members),
    ensures
        roles_stored(members_after_remove(members, accounts)),
    decreases accounts.len(),
{
    if accounts.len() > 0 {
        lemma_remove_keeps_roles(members, accounts.drop_last());
    }
}

/// Into an empty unit, the first entry is always added.
pub proof fn lemma_added_to_empty(entries: Seq<(AccountId, Role)>)
    requires
        entries.len() >= 1,
    ensures
        added_by(Map::empty(), entries).len() >= 1,
    decreases entries.len(),
{
    if entries.len() > 1 {
        lemma_added_to_empty(entries.drop_last());
    } else {
        assert(members_after_add(Map::empty(), entries.drop_last()) == Map::<AccountId, Role>::empty());
    }
}

/// Every unit id is below the next id and fits in 64 bits.
pub open spec fn unit_ids_wf(s: PalletView) -> bool {
    &&& s.nonce_supersig <= SUB_ACCOUNT_SPAN
    &&& forall|id: SupersigId| #[trigger] s.units.contains_key(id) ==> id < s.nonce_supersig
}

/// Internal consistency of one unit.
pub open spec fn unit_wf(cfg: Config, u: UnitView) -> bool {
    &&& u.total_members >= 1
    &&& roles_stored(u.members)
    &&& u.active_proposals == u.calls.len()
    &&& u.active_proposals <= cfg.max_calls_per_account
    &&& forall|i: int, j: int| 0 <= i < j < u.calls.len() ==> u.calls[i].id < u.calls[j].id
    &&& forall|i: int| 0 <= i < u.calls.len() ==> #[trigger] u.calls[i].id < u.nonce_call
}

/// Internal consistency of the engine.
pub open spec fn pallet_wf(cfg: Config, s: PalletView) -> bool {
    &&& unit_ids_wf(s)
    &&& forall|id: SupersigId| #[trigger] s.units.contains_key(id) ==> unit_wf(cfg, s.units[id])
}

} // verus!
