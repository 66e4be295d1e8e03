use vstd::prelude::*;
use crate::deposit::{proportional_refund_spec, threshold_spec, vote_weight_spec};
use crate::ledger::{accounts_wf, data_of, reserve_spec, unreserve_spec, AccountData};
use crate::model::{
    add_members_spec, added_by, approve_spec, call_pos, create_spec, delete_release_spec, delete_spec,
    has_call, leave_spec, lemma_added_to_empty, members_after_add, members_after_remove,
    members_deposit_spec, release_calls_spec, remove_call_spec, remove_members_spec, removed_by,
    resolve_spec, role_in, saturating_add_u32, saturating_dec, submit_spec, Config,
    PalletView, ProposalView,
};
use crate::address::{lemma_sub_account_round_trip, sub_account_spec};
use crate::types::{AccountId, Balance, CallId, Error, Role, SupersigId};

verus! {

/// One operation of the engine, with its arguments.
pub enum Op {
    Create { who: AccountId, members: Seq<(AccountId, Role)> },
    Submit { who: AccountId, account: AccountId, data: Seq<u8> },
    Approve { who: AccountId, account: AccountId, call_id: CallId },
    RemoveCall { who: AccountId, account: AccountId, call_id: CallId },
    AddMembers { account: AccountId, entries: Seq<(AccountId, Role)> },
    RemoveMembers { account: AccountId, accounts: Seq<AccountId> },
    Leave { who: AccountId, account: AccountId },
    Delete { account: AccountId, beneficiary: AccountId },
}

/// Engine and ledger after `op`, or its error.
pub open spec fn step_spec(
    cfg: Config,
    s: PalletView,
    m: Map<AccountId, AccountData>,
    ed: Balance,
    op: Op,
) -> Result<(PalletView, Map<AccountId, AccountData>), Error> {
    match op {
        Op::Create { who, members } => create_spec(cfg, s, m, ed, who, members),
        Op::Submit { who, account, data } => submit_spec(cfg, s, m, who, account, data),
        Op::Approve { who, account, call_id } => match approve_spec(cfg, s, m, who, account, call_id) {
            Ok((s2, m2, _)) => Ok((s2, m2)),
            Err(e) => Err(e),
        },
        Op::RemoveCall { who, account, call_id } => remove_call_spec(cfg, s, m, who, account, call_id),
        Op::AddMembers { account, entries } => add_members_spec(cfg, s, m, account, entries),
        Op::RemoveMembers { account, accounts } => remove_members_spec(cfg, s, m, account, accounts),
        Op::Leave { who, account } => leave_spec(cfg, s, m, who, account),
        Op::Delete { account, beneficiary } => delete_spec(cfg, s, m, ed, account, beneficiary),
    }
}

/// No entry asks for the `NotMember` role.
pub open spec fn no_vacant_roles(entries: Seq<(AccountId, Role)>) -> bool {
    forall|i: int| 0 <= i < entries.len() ==> #[trigger] entries[i].1 != Role::NotMember
}

/// Whether `op` writes no `NotMember` role.
pub open spec fn op_names_roles(op: Op) -> bool {
    match op {
        Op::Create { members, .. } => no_vacant_roles(members),
        Op::AddMembers { entries, .. } => no_vacant_roles(entries),
        _ => true,
    }
}

/// Every unit counts exactly its members, and has at least one.
pub open spec fn membership_invariant(s: PalletView) -> bool {
    forall|id| #[trigger]
        s.units.contains_key(id) ==> {
            &&& s.units[id].members.dom().finite()
            &&& s.units[id].total_members == s.units[id].members.dom().len()
            &&& s.units[id].total_members >= 1
        }
}

/// Adding entries that all name a role grows the member set by the added ones.
pub proof fn lemma_add_count(members: Map<AccountId, Role>, entries: Seq<(AccountId, Role)>)
    requires
        members.dom().finite(),
        no_vacant_roles(entries),
    ensures
        members_after_add(members, entries).dom().finite(),
        members_after_add(members, entries).dom().len() == members.dom().len() + added_by(
            members,
            entries,
        ).len(),
    decreases entries.len(),
{
    if entries.len() > 0 {
        let prefix = entries.drop_last();
        assert(no_vacant_roles(prefix)) by {
            assert forall|i: int| 0 <= i < prefix.len() implies #[trigger] prefix[i].1 != Role::NotMember by {
                assert(prefix[i] == entries[i]);
            }
        }
        lemma_add_count(members, prefix);
        assert(entries.last().1 != Role::NotMember) by {
            assert(entries.last() == entries[entries.len() - 1]);
        }
    }
}

/// Removing accounts shrinks the member set by the removed ones.
pub proof fn lemma_remove_count(members: Map<AccountId, Role>, accounts: Seq<AccountId>)
    requires
        members.dom().finite(),
    ensures
        members_after_remove(members, accounts).dom().finite(),
        members_after_remove(members, accounts).dom().len() == members.dom().len() - removed_by(
            members,
            accounts,
        ).len(),
    decreases accounts.len(),
{
    if accounts.len() > 0 {
        lemma_remove_count(members, accounts.drop_last());
    }
}

/// Membership invariant: every operation that succeeds keeps each unit's
/// member count equal to the number of accounts with a role, and at least one,
/// provided that no entry it writes asks for the `NotMember` role.
pub proof fn law_membership_invariant(
    cfg: Config,
    s: PalletView,
    m: Map<AccountId, AccountData>,
    ed: Balance,
    op: Op,
)
    requires
        membership_invariant(s),
        op_names_roles(op),
        step_spec(cfg, s, m, ed, op) is Ok,
    ensures
        membership_invariant(step_spec(cfg, s, m, ed, op)->Ok_0.0),
{
    let s2 = step_spec(cfg, s, m, ed, op)->Ok_0.0;
    match op {
        Op::Create { who, members } => {
            lemma_add_count(Map::empty(), members);
            lemma_added_to_empty(members);
            assert(Map::<AccountId, Role>::empty().dom() =~= Set::<AccountId>::empty());
        },
        Op::AddMembers { account, entries } => {
            let id = resolve_spec(cfg, s, account)->Ok_0;
            lemma_add_count(s.units[id].members, entries);
        },
        Op::RemoveMembers { account, accounts } => {
            let id = resolve_spec(cfg, s, account)->Ok_0;
            lemma_remove_count(s.units[id].members, accounts);
        },
        Op::Leave { who, account } => {
            let id = resolve_spec(cfg, s, account)->Ok_0;
            assert(s.units[id].members.contains_key(who));
        },
        _ => {},
    }
    assert forall|id| #[trigger] s2.units.contains_key(id) implies {
        &&& s2.units[id].members.dom().finite()
        &&& s2.units[id].total_members == s2.units[id].members.dom().len()
        &&& s2.units[id].total_members >= 1
    } by {
        if s.units.contains_key(id) {
        }
    }
}

/// Deposit conservation, when members are added: the unit's recorded deposit
/// grows by exactly the deposit computed for the newly added members, and the
/// same amount is reserved on the unit account.
pub proof fn law_deposit_after_add(
    cfg: Config,
    s: PalletView,
    m: Map<AccountId, AccountData>,
    account: AccountId,
    entries: Seq<(AccountId, Role)>,
)
    requires
        accounts_wf(m),
        add_members_spec(cfg, s, m, account, entries) is Ok,
    ensures
        ({
            let (s2, m2) = add_members_spec(cfg, s, m, account, entries)->Ok_0;
            let id = resolve_spec(cfg, s, account)->Ok_0;
            let deposit = members_deposit_spec(cfg, added_by(s.units[id].members, entries).len())->Ok_0;
            &&& members_deposit_spec(cfg, added_by(s.units[id].members, entries).len()) is Ok
            &&& s2.units[id].total_deposit == s.units[id].total_deposit + deposit
            &&& data_of(m2, account).reserved == data_of(m, account).reserved + deposit
        }),
{
    let id = resolve_spec(cfg, s, account)->Ok_0;
    let deposit = members_deposit_spec(cfg, added_by(s.units[id].members, entries).len())->Ok_0;
    let m2 = reserve_spec(m, account, deposit)->Ok_0;
    assert(add_members_spec(cfg, s, m, account, entries)->Ok_0.1 == m2);
    if deposit > 0 {
        assert(m.contains_key(account));
        assert(m2.contains_key(account));
    }
}

/// Deposit conservation and proportional refund, when members are removed:
/// the refund is `floor(total_deposit / total_members) * removed` over the
/// counts before removal, it never exceeds the recorded deposit, the recorded
/// deposit shrinks by exactly that refund, and the refund is released on the
/// unit account.
pub proof fn law_deposit_after_remove(
    cfg: Config,
    s: PalletView,
    m: Map<AccountId, AccountData>,
    account: AccountId,
    accounts: Seq<AccountId>,
)
    requires
        remove_members_spec(cfg, s, m, account, accounts) is Ok,
    ensures
        ({
            let (s2, m2) = remove_members_spec(cfg, s, m, account, accounts)->Ok_0;
            let id = resolve_spec(cfg, s, account)->Ok_0;
            let u = s.units[id];
            let k = removed_by(u.members, accounts).len();
            let refund = (u.total_deposit as int / u.total_members as int) * k;
            &&& proportional_refund_spec(u.total_deposit, u.total_members, k) == Ok::<Balance, Error>(
                refund as Balance,
            )
            &&& refund <= u.total_deposit
            &&& s2.units[id].total_deposit == u.total_deposit - refund
            &&& m2 == unreserve_spec(m, account, refund as Balance)
        }),
{
    let id = resolve_spec(cfg, s, account)->Ok_0;
    let u = s.units[id];
    let k = removed_by(u.members, accounts).len();
    let d = u.total_deposit as int;
    let n = u.total_members as int;
    assert(k < n);
    assert((d / n) * k <= d) by (nonlinear_arith)
        requires
            0 <= d,
            0 <= k < n,
    {
        assert((d / n) * k <= (d / n) * n);
        assert((d / n) * n <= d);
    }
}

/// Deposit conservation and proportional refund, when a member leaves: the
/// refund is `floor(total_deposit / total_members)` over the counts before
/// leaving, the recorded deposit shrinks by exactly that refund, and the
/// refund is released on the unit account.
pub proof fn law_deposit_after_leave(
    cfg: Config,
    s: PalletView,
    m: Map<AccountId, AccountData>,
    who: AccountId,
    account: AccountId,
)
    requires
        leave_spec(cfg, s, m, who, account) is Ok,
    ensures
        ({
            let (s2, m2) = leave_spec(cfg, s, m, who, account)->Ok_0;
            let id = resolve_spec(cfg, s, account)->Ok_0;
            let u = s.units[id];
            let refund = u.total_deposit as int / u.total_members as int;
            &&& refund <= u.total_deposit
            &&& s2.units[id].total_deposit == u.total_deposit - refund
            &&& m2 == unreserve_spec(m, account, refund as Balance)
        }),
{
    let id = resolve_spec(cfg, s, account)->Ok_0;
    let u = s.units[id];
    let d = u.total_deposit as int;
    let n = u.total_members as int;
    assert(d / n <= d) by (nonlinear_arith)
        requires
            0 <= d,
            1 <= n,
    ;
    assert((d / n) * 1 == d / n);
}

/// Whether `op` changes membership: adding, removing or leaving.
pub open spec fn is_membership_op(op: Op) -> bool {
    op is AddMembers || op is RemoveMembers || op is Leave
}

/// Engine and ledger after `op`; a failed operation changes nothing.
pub open spec fn apply_spec(
    cfg: Config,
    s: PalletView,
    m: Map<AccountId, AccountData>,
    ed: Balance,
    op: Op,
) -> (PalletView, Map<AccountId, AccountData>) {
    match step_spec(cfg, s, m, ed, op) {
        Ok(r) => r,
        Err(_) => (s, m),
    }
}

/// Engine and ledger after every operation of `ops`, in order.
pub open spec fn run_spec(
    cfg: Config,
    s: PalletView,
    m: Map<AccountId, AccountData>,
    ed: Balance,
    ops: Seq<Op>,
) -> (PalletView, Map<AccountId, AccountData>)
    decreases ops.len(),
{
    if ops.len() == 0 {
        (s, m)
    } else {
        let (s1, m1) = run_spec(cfg, s, m, ed, ops.drop_last());
        apply_spec(cfg, s1, m1, ed, ops.last())
    }
}

/// The deposit that `op` computes for unit `id`: the members' deposit when
/// it adds to the unit, minus the refund when members leave it, else zero.
pub open spec fn deposit_change(
    cfg: Config,
    s: PalletView,
    m: Map<AccountId, AccountData>,
    ed: Balance,
    op: Op,
    id: SupersigId,
) -> int {
    if step_spec(cfg, s, m, ed, op) is Err {
        0
    } else {
        let u = s.units[id];
        match op {
            Op::AddMembers { account, entries } => if resolve_spec(cfg, s, account) == Ok::<SupersigId, Error>(id) {
                members_deposit_spec(cfg, added_by(u.members, entries).len())->Ok_0 as int
            } else {
                0
            },
            Op::RemoveMembers { account, accounts } => if resolve_spec(cfg, s, account) == Ok::<SupersigId, Error>(id) {
                -((u.total_deposit as int / u.total_members as int) * removed_by(u.members, accounts).len())
            } else {
                0
            },
            Op::Leave { who, account } => if resolve_spec(cfg, s, account) == Ok::<SupersigId, Error>(id) {
                -(u.total_deposit as int / u.total_members as int)
            } else {
                0
            },
            _ => 0,
        }
    }
}

/// Sum of the deposits that `ops` compute for unit `id`, step by step.
pub open spec fn deposit_changes(
    cfg: Config,
    s: PalletView,
    m: Map<AccountId, AccountData>,
    ed: Balance,
    ops: Seq<Op>,
    id: SupersigId,
) -> int
    decreases ops.len(),
{
    if ops.len() == 0 {
        0
    } else {
        let (s1, m1) = run_spec(cfg, s, m, ed, ops.drop_last());
        deposit_changes(cfg, s, m, ed, ops.drop_last(), id) + deposit_change(cfg, s1, m1, ed, ops.last(), id)
    }
}

/// One membership operation changes the recorded deposit of a unit by
/// exactly the deposit it computes, and keeps the set of units.
proof fn lemma_deposit_step(
    cfg: Config,
    s: PalletView,
    m: Map<AccountId, AccountData>,
    ed: Balance,
    op: Op,
    id: SupersigId,
)
    requires
        is_membership_op(op),
        s.units.contains_key(id),
    ensures
        apply_spec(cfg, s, m, ed, op).0.units.dom() == s.units.dom(),
        apply_spec(cfg, s, m, ed, op).0.units[id].total_deposit == s.units[id].total_deposit
            + deposit_change(cfg, s, m, ed, op, id),
{
    let s2 = apply_spec(cfg, s, m, ed, op).0;
    if step_spec(cfg, s, m, ed, op) is Ok {
        match op {
            Op::AddMembers { account, entries } => {
                let target = resolve_spec(cfg, s, account)->Ok_0;
                assert(s2.units.dom() =~= s.units.dom());
            },
            Op::RemoveMembers { account, accounts } => {
                let target = resolve_spec(cfg, s, account)->Ok_0;
                law_deposit_after_remove(cfg, s, m, account, accounts);
                assert(s2.units.dom() =~= s.units.dom());
            },
            Op::Leave { who, account } => {
                let target = resolve_spec(cfg, s, account)->Ok_0;
                law_deposit_after_leave(cfg, s, m, who, account);
                assert(s2.units.dom() =~= s.units.dom());
            },
            _ => {},
        }
    }
}

/// Deposit conservation over a sequence: after any sequence of member
/// additions, removals and departures, a unit's recorded deposit equals its
/// starting deposit plus the deposits computed by the steps that added to it,
/// minus the refunds computed by the steps that removed from it.
pub proof fn law_deposit_conservation(
    cfg: Config,
    s: PalletView,
    m: Map<AccountId, AccountData>,
    ed: Balance,
    ops: Seq<Op>,
    id: SupersigId,
)
    requires
        s.units.contains_key(id),
        forall|i: int| 0 <= i < ops.len() ==> is_membership_op(#[trigger] ops[i]),
    ensures
        run_spec(cfg, s, m, ed, ops).0.units.contains_key(id),
        run_spec(cfg, s, m, ed, ops).0.units[id].total_deposit == s.units[id].total_deposit
            + deposit_changes(cfg, s, m, ed, ops, id),
    decreases ops.len(),
{
    if ops.len() > 0 {
        let prefix = ops.drop_last();
        assert forall|i: int| 0 <= i < prefix.len() implies is_membership_op(#[trigger] prefix[i]) by {
            assert(prefix[i] == ops[i]);
        }
        law_deposit_conservation(cfg, s, m, ed, prefix, id);
        let (s1, m1) = run_spec(cfg, s, m, ed, prefix);
        assert(is_membership_op(ops[ops.len() - 1]));
        lemma_deposit_step(cfg, s1, m1, ed, ops.last(), id);
    }
}

/// Vote idempotence: a member whose vote left the proposal open gets
/// `AlreadyVoted` when voting again on it; a rejected vote changes nothing.
pub proof fn law_vote_idempotence(
    cfg: Config,
    s: PalletView,
    m: Map<AccountId, AccountData>,
    who: AccountId,
    account: AccountId,
    call_id: CallId,
)
    requires
        crate::model::pallet_wf(cfg, s),
        approve_spec(cfg, s, m, who, account, call_id) is Ok,
        approve_spec(cfg, s, m, who, account, call_id)->Ok_0.2 is None,
    ensures
        ({
            let (s1, m1, _) = approve_spec(cfg, s, m, who, account, call_id)->Ok_0;
            approve_spec(cfg, s1, m1, who, account, call_id) == Err::<
                (PalletView, Map<AccountId, AccountData>, Option<ProposalView>),
                Error,
            >(Error::AlreadyVoted)
        }),
{
    let (s1, m1, _) = approve_spec(cfg, s, m, who, account, call_id)->Ok_0;
    let id = resolve_spec(cfg, s, account)->Ok_0;
    let u = s.units[id];
    let pos = call_pos(u.calls, call_id);
    let calls1 = s1.units[id].calls;
    assert(resolve_spec(cfg, s1, account) == Ok::<u128, Error>(id));
    assert(calls1[pos].id == call_id);
    assert(has_call(calls1, call_id));
    let pos1 = call_pos(calls1, call_id);
    assert(pos1 == pos) by {
        if pos1 < pos {
            assert(u.calls[pos1].id < u.calls[pos].id);
        } else if pos1 > pos {
            assert(u.calls[pos].id < u.calls[pos1].id);
        }
    }
    assert(calls1[pos].voters.last() == who);
    assert(calls1[pos].voters.contains(who)) by {
        assert(calls1[pos].voters[calls1[pos].voters.len() - 1] == who);
    }
}

/// Execution threshold: a vote executes the proposal exactly when the new
/// accumulated weight reaches `total_members / 2 + 1`; a proposal that is not
/// executed stays open holding that weight, below the threshold, and an
/// executed one is gone.
pub proof fn law_execution_threshold(
    cfg: Config,
    s: PalletView,
    m: Map<AccountId, AccountData>,
    who: AccountId,
    account: AccountId,
    call_id: CallId,
)
    requires
        crate::model::pallet_wf(cfg, s),
        approve_spec(cfg, s, m, who, account, call_id) is Ok,
    ensures
        ({
            let (s1, m1, executed) = approve_spec(cfg, s, m, who, account, call_id)->Ok_0;
            let id = resolve_spec(cfg, s, account)->Ok_0;
            let u = s.units[id];
            let p = u.calls[call_pos(u.calls, call_id)];
            let weight = vote_weight_spec(role_in(u.members, who), u.total_members)->Ok_0;
            let tally = saturating_add_u32(p.votes, weight);
            &&& (executed is Some <==> tally >= threshold_spec(u.total_members))
            &&& executed is Some ==> !has_call(s1.units[id].calls, call_id)
            &&& executed is None ==> has_call(s1.units[id].calls, call_id)
                && s1.units[id].calls[call_pos(s1.units[id].calls, call_id)].votes == tally
        }),
{
    let (s1, m1, executed) = approve_spec(cfg, s, m, who, account, call_id)->Ok_0;
    let id = resolve_spec(cfg, s, account)->Ok_0;
    let u = s.units[id];
    let pos = call_pos(u.calls, call_id);
    let calls1 = s1.units[id].calls;
    if executed is Some {
        assert(calls1 == u.calls.remove(pos));
        if has_call(calls1, call_id) {
            let j = choose|j: int| 0 <= j < calls1.len() && #[trigger] calls1[j].id == call_id;
            if j < pos {
                assert(calls1[j] == u.calls[j]);
                assert(u.calls[j].id < u.calls[pos].id);
            } else {
                assert(calls1[j] == u.calls[j + 1]);
                assert(u.calls[pos].id < u.calls[j + 1].id);
            }
        }
    } else {
        assert(calls1[pos].id == call_id);
        let pos1 = call_pos(calls1, call_id);
        assert(pos1 == pos) by {
            if pos1 < pos {
                assert(u.calls[pos1].id < u.calls[pos].id);
            } else if pos1 > pos {
                assert(u.calls[pos].id < u.calls[pos1].id);
            }
        }
    }
}

/// Consumer count after unreserving: unchanged for every account.
proof fn lemma_unreserve_keeps_consumers(m: Map<AccountId, AccountData>, a: AccountId, amount: Balance, b: AccountId)
    ensures
        data_of(unreserve_spec(m, a, amount), b).consumers == data_of(m, b).consumers,
{
}

/// Consumer count after releasing proposal deposits: unchanged.
proof fn lemma_release_keeps_consumers(m: Map<AccountId, AccountData>, calls: Seq<ProposalView>, b: AccountId)
    ensures
        data_of(release_calls_spec(m, calls), b).consumers == data_of(m, b).consumers,
    decreases calls.len(),
{
    if calls.len() > 0 {
        lemma_release_keeps_consumers(m, calls.drop_last(), b);
        lemma_unreserve_keeps_consumers(
            release_calls_spec(m, calls.drop_last()),
            calls.last().provider,
            calls.last().deposit,
            b,
        );
    }
}

/// Deletion cleanup: after a unit is deleted none of its rows remain (no
/// members, proposals, votes or tallies), its account no longer resolves to a
/// unit, and the engine is deregistered as a consumer of that account.
pub proof fn law_deletion_cleanup(
    cfg: Config,
    s: PalletView,
    m: Map<AccountId, AccountData>,
    ed: Balance,
    account: AccountId,
    beneficiary: AccountId,
)
    requires
        delete_spec(cfg, s, m, ed, account, beneficiary) is Ok,
    ensures
        ({
            let (s2, m2) = delete_spec(cfg, s, m, ed, account, beneficiary)->Ok_0;
            let id = resolve_spec(cfg, s, account)->Ok_0;
            &&& !s2.units.contains_key(id)
            &&& resolve_spec(cfg, s2, account) == Err::<u128, Error>(Error::NotSupersig)
            &&& data_of(m2, account).consumers == saturating_dec(data_of(m, account).consumers)
        }),
{
    let (s2, m2) = delete_spec(cfg, s, m, ed, account, beneficiary)->Ok_0;
    let id = resolve_spec(cfg, s, account)->Ok_0;
    let u = s.units[id];
    let m1 = unreserve_spec(m, account, u.total_deposit);
    lemma_unreserve_keeps_consumers(m, account, u.total_deposit, account);
    lemma_release_keeps_consumers(m1, u.calls, account);
    let released = delete_release_spec(m, account, u);
    assert(data_of(released, account).consumers == saturating_dec(data_of(m, account).consumers));
}

/// A created unit is reachable: its derived account resolves to its id.
pub proof fn law_created_unit_resolves(
    cfg: Config,
    s: PalletView,
    m: Map<AccountId, AccountData>,
    ed: Balance,
    who: AccountId,
    members: Seq<(AccountId, Role)>,
)
    requires
        create_spec(cfg, s, m, ed, who, members) is Ok,
    ensures
        ({
            let s2 = create_spec(cfg, s, m, ed, who, members)->Ok_0.0;
            let account = sub_account_spec(cfg.pallet_id, s.nonce_supersig)->0;
            resolve_spec(cfg, s2, account) == Ok::<SupersigId, Error>(s.nonce_supersig)
        }),
{
    lemma_sub_account_round_trip(cfg.pallet_id, s.nonce_supersig);
    lemma_added_to_empty(members);
}

} // verus!
