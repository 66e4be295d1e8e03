use vstd::prelude::*;
use std::collections::HashMap;
use vstd::std_specs::hash::spec_hash_map_iter;
use vstd::std_specs::iter::IteratorSpec;
use crate::address::{from_sub_account, into_sub_account, sub_account_spec};
use crate::deposit::{compute_deposit, compute_vote_weight, reaches_threshold};
use crate::ledger::{accounts_wf, Currency};
use crate::model::{
    add_members_spec, added_by, approve_spec, call_pos, create_spec, delete_spec, has_call,
    leave_spec, lemma_add_keeps_roles, lemma_added_to_empty, lemma_remove_keeps_roles,
    members_after_add, members_after_remove, pallet_wf, release_calls_spec, remove_call_spec,
    remove_members_spec, removed_by, resolve_spec, role_in, submit_spec, unit_wf, with_members,
    without_call, write_role, Config, EventView, PalletView, ProposalView, UnitView,
};
use crate::rpc::ProposalState;
use crate::types::{
    AccountId, Balance, CallId, Error, Event, PreimageCall, Role, SupersigId, ACCOUNT_ID_SIZE,
};

verus! {

broadcast use vstd::std_specs::hash::group_hash_axioms;

impl View for Event {
    type V = EventView;

    open spec fn view(&self) -> EventView {
        match self {
            Event::SupersigCreated(a) => EventView::SupersigCreated(*a),
            Event::SupersigRemoved(a) => EventView::SupersigRemoved(*a),
            Event::CallSubmitted(a, c, w) => EventView::CallSubmitted(*a, *c, *w),
            Event::CallVoted(a, c, w) => EventView::CallVoted(*a, *c, *w),
            Event::CallExecutionAttempted(a, c, o) => EventView::CallExecutionAttempted(*a, *c, *o),
            Event::CallRemoved(a, c) => EventView::CallRemoved(*a, *c),
            Event::MembersAdded(a, v) => EventView::MembersAdded(*a, v@),
            Event::MembersRemoved(a, v) => EventView::MembersRemoved(*a, v@),
            Event::SupersigLeft(a, w) => EventView::SupersigLeft(*a, *w),
        }
    }
}

/// An open proposal with its votes.
pub struct Proposal {
    pub id: CallId,
    pub data: Vec<u8>,
    pub provider: AccountId,
    pub deposit: Balance,
    pub votes: u32,
    pub voters: Vec<AccountId>,
}

impl View for Proposal {
    type V = ProposalView;

    open spec fn view(&self) -> ProposalView {
        ProposalView {
            id: self.id,
            data: self.data@,
            provider: self.provider,
            deposit: self.deposit,
            votes: self.votes,
            voters: self.voters@,
        }
    }
}

/// The stored state of one unit.
pub struct Unit {
    members: HashMap<AccountId, Role>,
    total_members: u32,
    total_deposit: Balance,
    nonce_call: CallId,
    active_proposals: u32,
    calls: Vec<Proposal>,
}

/// View of a sequence of proposals.
pub open spec fn proposals_view(calls: Seq<Proposal>) -> Seq<ProposalView> {
    calls.map_values(|p: Proposal| p@)
}

impl View for Unit {
    type V = UnitView;

    closed spec fn view(&self) -> UnitView {
        UnitView {
            members: self.members@,
            total_members: self.total_members,
            total_deposit: self.total_deposit,
            nonce_call: self.nonce_call,
            active_proposals: self.active_proposals,
            calls: proposals_view(self.calls@),
        }
    }
}

/// The governance engine: every unit, the unit id counter and the events
/// emitted so far.
pub struct Pallet {
    config: Config,
    nonce_supersig: SupersigId,
    units: HashMap<SupersigId, Unit>,
    events: Vec<Event>,
}

/// View of a map of units.
pub open spec fn units_view(units: Map<SupersigId, Unit>) -> Map<SupersigId, UnitView> {
    units.map_values(|u: Unit| u@)
}

impl View for Pallet {
    type V = PalletView;

    closed spec fn view(&self) -> PalletView {
        PalletView {
            nonce_supersig: self.nonce_supersig,
            units: units_view(self.units@),
            events: self.events@.map_values(|e: Event| e@),
        }
    }
}

/// Writes role `role` for `who`: `NotMember` removes the row.
fn write_member(members: &mut HashMap<AccountId, Role>, who: AccountId, role: Role)
    ensures
        final(members)@ == write_role(old(members)@, who, role),
{
    if role == Role::NotMember {
        members.remove(&who);
    } else {
        members.insert(who, role);
    }
}

/// Writes every entry of `entries` in order and returns the entries whose
/// account had no role at its turn.
fn internal_add_members(members: &mut HashMap<AccountId, Role>, entries: &Vec<(AccountId, Role)>) -> (r:
    Vec<(AccountId, Role)>)
    ensures
        final(members)@ == members_after_add(old(members)@, entries@),
        r@ == added_by(old(members)@, entries@),
{
    let ghost m0 = members@;
    let mut added: Vec<(AccountId, Role)> = Vec::new();
    let mut i: usize = 0;
    while i < entries.len()
        invariant
            i <= entries@.len(),
            members@ == members_after_add(m0, entries@.take(i as int)),
            added@ == added_by(m0, entries@.take(i as int)),
        decreases entries@.len() - i,
    {
        let (who, role) = entries[i];
        proof {
            assert(entries@.take(i as int + 1).drop_last() =~= entries@.take(i as int));
            assert(entries@.take(i as int + 1).last() == entries@[i as int]);
        }
        if !members.contains_key(&who) {
            added.push((who, role));
        }
        write_member(members, who, role);
        i = i + 1;
    }
    proof {
        assert(entries@.take(entries@.len() as int) =~= entries@);
    }
    added
}

/// Removes every account of `accounts` and returns those that were members
/// at their turn.
fn internal_remove_members(members: &mut HashMap<AccountId, Role>, accounts: &Vec<AccountId>) -> (r: Vec<
    AccountId,
>)
    ensures
        final(members)@ == members_after_remove(old(members)@, accounts@),
        r@ == removed_by(old(members)@, accounts@),
{
    let ghost m0 = members@;
    let mut removed: Vec<AccountId> = Vec::new();
    let mut i: usize = 0;
    while i < accounts.len()
        invariant
            i <= accounts@.len(),
            members@ == members_after_remove(m0, accounts@.take(i as int)),
            removed@ == removed_by(m0, accounts@.take(i as int)),
        decreases accounts@.len() - i,
    {
        let who = accounts[i];
        proof {
            assert(accounts@.take(i as int + 1).drop_last() =~= accounts@.take(i as int));
            assert(accounts@.take(i as int + 1).last() == accounts@[i as int]);
        }
        if members.contains_key(&who) {
            removed.push(who);
        }
        members.remove(&who);
        i = i + 1;
    }
    proof {
        assert(accounts@.take(accounts@.len() as int) =~= accounts@);
    }
    removed
}

impl Pallet {
    /// The engine's parameters.
    pub closed spec fn config(&self) -> Config {
        self.config
    }

    /// The engine's state is internally consistent.
    pub open spec fn wf(&self) -> bool {
        pallet_wf(self.config(), self@)
    }

    /// An engine with no units.
    pub fn new(config: Config) -> (r: Pallet)
        ensures
            r.config() == config,
            r@.nonce_supersig == 0,
            r@.units == Map::<SupersigId, UnitView>::empty(),
            r@.events == Seq::<EventView>::empty(),
            r.wf(),
    {
        let r = Pallet { config, nonce_supersig: 0, units: HashMap::new(), events: Vec::new() };
        proof {
            assert(r@.units =~= Map::<SupersigId, UnitView>::empty());
            assert(r@.events =~= Seq::<EventView>::empty());
        }
        r
    }

    /// The unit governed by `supersig_account`, or `NotSupersig` when the
    /// account is not a live unit of this engine.
    pub fn get_supersig_id_from_account(&self, supersig_account: AccountId) -> (r: Result<SupersigId, Error>)
        ensures
            r == resolve_spec(self.config(), self@, supersig_account),
    {
        let (module_id, id) = from_sub_account(supersig_account);
        if module_id != self.config.pallet_id {
            return Err(Error::NotSupersig);
        }
        match self.units.get(&id) {
            Some(u) => {
                if u.total_members == 0 {
                    Err(Error::NotSupersig)
                } else {
                    Ok(id)
                }
            },
            None => Err(Error::NotSupersig),
        }
    }
}

impl Pallet {
    /// Creates a unit with `members`, funded by `who`.
    ///
    /// `who` moves to the unit account the larger of the existential deposit
    /// and the members' deposit; the engine registers as a consumer of the
    /// account and reserves the members' deposit on it.
    pub fn create_supersig<C: Currency>(&mut self, ledger: &mut C, who: AccountId, members: Vec<(AccountId, Role)>) -> (r:
        Result<(), Error>)
        requires
            old(self).wf(),
            accounts_wf(old(ledger).accounts()),
        ensures
            final(self).wf(),
            accounts_wf(final(ledger).accounts()),
            final(self).config() == old(self).config(),
            final(ledger).ed() == old(ledger).ed(),
            match create_spec(old(self).config(), old(self)@, old(ledger).accounts(), old(ledger).ed(), who, members@) {
                Ok((s, m)) => r.is_ok() && final(self)@ == s && final(ledger).accounts() == m,
                Err(e) => r == Err::<(), Error>(e) && final(self)@ == old(self)@ && final(ledger).accounts()
                    == old(ledger).accounts(),
            },
    {
        if members.len() < 1 {
            return Err(Error::MustHaveAtLeastOneMember);
        }
        let id = self.nonce_supersig;
        let account = match into_sub_account(self.config.pallet_id, id) {
            Some(a) => a,
            None => {
                return Err(Error::InvalidNonce);
            },
        };
        let mut unit_members: HashMap<AccountId, Role> = HashMap::new();
        let added = internal_add_members(&mut unit_members, &members);
        if added.len() > u32::MAX as usize {
            return Err(Error::Conversion);
        }
        let n_bytes: usize = match ACCOUNT_ID_SIZE.checked_mul(added.len()) {
            Some(n) => n,
            None => {
                return Err(Error::Conversion);
            },
        };
        let deposit = match compute_deposit(n_bytes, self.config.deposit_per_byte) {
            Ok(d) => d,
            Err(e) => {
                return Err(e);
            },
        };
        let ed = ledger.minimum_balance();
        let amount = if ed >= deposit {
            ed
        } else {
            deposit
        };
        let saved = ledger.snapshot();
        match ledger.transfer(who, account, amount, true) {
            Ok(()) => {},
            Err(e) => {
                return Err(Error::Ledger(e));
            },
        }
        match ledger.inc_consumers(account) {
            Ok(()) => {},
            Err(e) => {
                *ledger = saved;
                return Err(Error::Ledger(e));
            },
        }
        match ledger.reserve(account, deposit) {
            Ok(()) => {},
            Err(e) => {
                *ledger = saved;
                return Err(Error::Ledger(e));
            },
        }
        let unit = Unit {
            members: unit_members,
            total_members: added.len() as u32,
            total_deposit: deposit,
            nonce_call: 0,
            active_proposals: 0,
            calls: Vec::new(),
        };
        proof {
            lemma_added_to_empty(members@);
            lemma_add_keeps_roles(Map::empty(), members@);
            assert(proposals_view(unit.calls@) =~= Seq::<ProposalView>::empty());
        }
        let ghost old_units = self.units@;
        let ghost old_events = self.events@;
        self.nonce_supersig = id + 1;
        self.units.insert(id, unit);
        self.events.push(Event::SupersigCreated(account));
        self.events.push(Event::MembersAdded(account, added));
        proof {
            assert(units_view(self.units@) =~= units_view(old_units).insert(id, unit@));
            assert(self.events@.map_values(|e: Event| e@) =~= old_events.map_values(|e: Event| e@).push(
                EventView::SupersigCreated(account),
            ).push(EventView::MembersAdded(account, added@)));
        }
        Ok(())
    }
}

impl Pallet {
    /// Takes the unit `id` out of the store.
    fn take_unit(&mut self, id: SupersigId) -> (r: Unit)
        requires
            old(self)@.units.contains_key(id),
        ensures
            r@ == old(self)@.units[id],
            final(self)@.units == old(self)@.units.remove(id),
            final(self)@.nonce_supersig == old(self)@.nonce_supersig,
            final(self)@.events == old(self)@.events,
            final(self).config() == old(self).config(),
    {
        let ghost old_units = self.units@;
        let r = self.units.remove(&id);
        proof {
            assert(units_view(self.units@) =~= units_view(old_units).remove(id));
        }
        r.unwrap()
    }

    /// Puts `u` in the store as unit `id`.
    fn put_unit(&mut self, id: SupersigId, u: Unit)
        ensures
            final(self)@.units == old(self)@.units.insert(id, u@),
            final(self)@.nonce_supersig == old(self)@.nonce_supersig,
            final(self)@.events == old(self)@.events,
            final(self).config() == old(self).config(),
    {
        let ghost old_units = self.units@;
        let ghost uv = u@;
        self.units.insert(id, u);
        proof {
            assert(units_view(self.units@) =~= units_view(old_units).insert(id, uv));
        }
    }

    /// Appends `e` to the emitted events.
    fn deposit_event(&mut self, e: Event)
        ensures
            final(self)@.events == old(self)@.events.push(e@),
            final(self)@.units == old(self)@.units,
            final(self)@.nonce_supersig == old(self)@.nonce_supersig,
            final(self).config() == old(self).config(),
    {
        let ghost old_events = self.events@;
        self.events.push(e);
        proof {
            assert(self.events@.map_values(|e: Event| e@) =~= old_events.map_values(|e: Event| e@).push(e@));
        }
    }

    /// Submits `data`, an encoded command, as a proposal of the unit of
    /// `supersig_account`; `who` reserves `data.len() * deposit_per_byte`.
    pub fn submit_call<C: Currency>(&mut self, ledger: &mut C, who: AccountId, supersig_account: AccountId, data: Vec<u8>) -> (r:
        Result<(), Error>)
        requires
            old(self).wf(),
            accounts_wf(old(ledger).accounts()),
        ensures
            final(self).wf(),
            accounts_wf(final(ledger).accounts()),
            final(self).config() == old(self).config(),
            final(ledger).ed() == old(ledger).ed(),
            match submit_spec(old(self).config(), old(self)@, old(ledger).accounts(), who, supersig_account, data@) {
                Ok((s, m)) => r.is_ok() && final(self)@ == s && final(ledger).accounts() == m,
                Err(e) => r == Err::<(), Error>(e) && final(self)@ == old(self)@ && final(ledger).accounts()
                    == old(ledger).accounts(),
            },
    {
        let id = match self.get_supersig_id_from_account(supersig_account) {
            Ok(id) => id,
            Err(e) => {
                return Err(e);
            },
        };
        if data.len() > self.config.max_call_data_size as usize {
            return Err(Error::CallDataTooLarge);
        }
        let mut u = self.take_unit(id);
        if u.active_proposals >= self.config.max_calls_per_account {
            self.put_unit(id, u);
            proof {
                assert(self@.units =~= old(self)@.units);
            }
            return Err(Error::TooManyActiveProposals);
        }
        if u.nonce_call == u128::MAX {
            self.put_unit(id, u);
            proof {
                assert(self@.units =~= old(self)@.units);
            }
            return Err(Error::Overflow);
        }
        let deposit = match compute_deposit(data.len(), self.config.deposit_per_byte) {
            Ok(d) => d,
            Err(e) => {
                self.put_unit(id, u);
                proof {
                    assert(self@.units =~= old(self)@.units);
                }
                return Err(e);
            },
        };
        match ledger.reserve(who, deposit) {
            Ok(()) => {},
            Err(e) => {
                self.put_unit(id, u);
                proof {
                    assert(self@.units =~= old(self)@.units);
                }
                return Err(Error::Ledger(e));
            },
        }
        let call_id = u.nonce_call;
        let ghost old_calls = u.calls@;
        let p = Proposal { id: call_id, data, provider: who, deposit, votes: 0, voters: Vec::new() };
        proof {
            assert(p@.voters =~= Seq::<AccountId>::empty());
        }
        u.calls.push(p);
        u.active_proposals = u.active_proposals + 1;
        u.nonce_call = call_id + 1;
        proof {
            assert(proposals_view(u.calls@) =~= proposals_view(old_calls).push(p@));
        }
        self.put_unit(id, u);
        self.deposit_event(Event::CallSubmitted(supersig_account, call_id, who));
        proof {
            assert(self@.units =~= old(self)@.units.insert(id, u@));
        }
        Ok(())
    }
}

/// Position of the proposal `call_id` in `calls`, if it is there.
fn find_call(calls: &Vec<Proposal>, call_id: CallId) -> (r: Option<usize>)
    requires
        forall|i: int, j: int|
            0 <= i < j < calls@.len() ==> #[trigger] proposals_view(calls@)[i].id < #[trigger] proposals_view(
                calls@,
            )[j].id,
    ensures
        match r {
            Some(i) => i < calls@.len() && call_pos(proposals_view(calls@), call_id) == i && has_call(
                proposals_view(calls@),
                call_id,
            ),
            None => !has_call(proposals_view(calls@), call_id),
        },
{
    let ghost pv = proposals_view(calls@);
    let mut i: usize = 0;
    while i < calls.len()
        invariant
            i <= calls@.len(),
            pv == proposals_view(calls@),
            forall|a: int, b: int| 0 <= a < b < pv.len() ==> #[trigger] pv[a].id < #[trigger] pv[b].id,
            forall|k: int| 0 <= k < i ==> #[trigger] calls@[k].id != call_id,
        decreases calls@.len() - i,
    {
        if calls[i].id == call_id {
            proof {
                assert(pv[i as int].id == call_id);
                let c = call_pos(pv, call_id);
                assert(0 <= c < pv.len() && pv[c].id == call_id);
                assert(pv[c] == calls@[c]@);
                if c < i {
                    assert(calls@[c].id == pv[c].id);
                } else if c > i {
                    assert(pv[i as int].id < pv[c].id);
                }
            }
            return Some(i);
        }
        i = i + 1;
    }
    proof {
        assert forall|k: int| 0 <= k < pv.len() implies #[trigger] pv[k].id != call_id by {
            assert(calls@[k].id != call_id);
        }
    }
    None
}

/// Whether `who` is in `accounts`.
fn contains_account(accounts: &Vec<AccountId>, who: AccountId) -> (r: bool)
    ensures
        r == accounts@.contains(who),
{
    let mut i: usize = 0;
    while i < accounts.len()
        invariant
            i <= accounts@.len(),
            forall|k: int| 0 <= k < i ==> accounts@[k] != who,
        decreases accounts@.len() - i,
    {
        if accounts[i] == who {
            proof {
                assert(accounts@[i as int] == who);
            }
            return true;
        }
        i = i + 1;
    }
    false
}

/// The role of `who` in a member map.
fn lookup_role(members: &HashMap<AccountId, Role>, who: AccountId) -> (r: Role)
    ensures
        r == role_in(members@, who),
{
    match members.get(&who) {
        Some(role) => *role,
        None => Role::NotMember,
    }
}

/// Whether `r` is the preimage handed out for the consumed proposal `ex`.
pub open spec fn returns_preimage(r: Option<PreimageCall>, ex: Option<ProposalView>) -> bool {
    match ex {
        Some(p) => r is Some && r->0.data@ == p.data && r->0.provider == p.provider && r->0.deposit
            == p.deposit,
        None => r is None,
    }
}

impl Pallet {
    /// `who` votes for proposal `call_id` of the unit of `supersig_account`.
    ///
    /// When the accumulated weight reaches a simple majority the proposal is
    /// removed, its deposit released to its provider, and its preimage
    /// returned: the caller then decodes and dispatches the command as the
    /// unit account and reports the outcome with `record_execution_attempt`.
    pub fn approve_call<C: Currency>(&mut self, ledger: &mut C, who: AccountId, supersig_account: AccountId, call_id: CallId) -> (r:
        Result<Option<PreimageCall>, Error>)
        requires
            old(self).wf(),
            accounts_wf(old(ledger).accounts()),
        ensures
            final(self).wf(),
            accounts_wf(final(ledger).accounts()),
            final(self).config() == old(self).config(),
            final(ledger).ed() == old(ledger).ed(),
            match approve_spec(old(self).config(), old(self)@, old(ledger).accounts(), who, supersig_account, call_id) {
                Ok((s, m, ex)) => r is Ok && final(self)@ == s && final(ledger).accounts() == m
                    && returns_preimage(r->Ok_0, ex),
                Err(e) => r == Err::<Option<PreimageCall>, Error>(e) && final(self)@ == old(self)@
                    && final(ledger).accounts() == old(ledger).accounts(),
            },
    {
        let id = match self.get_supersig_id_from_account(supersig_account) {
            Ok(id) => id,
            Err(e) => {
                return Err(e);
            },
        };
        let mut u = self.take_unit(id);
        let ghost uv = u@;
        assert(unit_wf(self.config, uv));
        let pos = match find_call(&u.calls, call_id) {
            Some(pos) => pos,
            None => {
                self.put_unit(id, u);
                proof {
                    assert(self@.units =~= old(self)@.units);
                }
                return Err(Error::CallNotFound);
            },
        };
        proof {
            assert(proposals_view(u.calls@)[pos as int] == u.calls@[pos as int]@);
        }
        if contains_account(&u.calls[pos].voters, who) {
            self.put_unit(id, u);
            proof {
                assert(self@.units =~= old(self)@.units);
            }
            return Err(Error::AlreadyVoted);
        }
        let role = lookup_role(&u.members, who);
        let weight = match compute_vote_weight(role, u.total_members) {
            Ok(w) => w,
            Err(e) => {
                self.put_unit(id, u);
                proof {
                    assert(self@.units =~= old(self)@.units);
                }
                return Err(e);
            },
        };
        let ghost old_calls = u.calls@;
        let mut p = u.calls.remove(pos);
        p.voters.push(who);
        p.votes = match p.votes.checked_add(weight) {
            Some(v) => v,
            None => u32::MAX,
        };
        self.deposit_event(Event::CallVoted(supersig_account, call_id, who));
        if reaches_threshold(p.votes, u.total_members) {
            u.active_proposals = if u.active_proposals > 0 {
                u.active_proposals - 1
            } else {
                0
            };
            proof {
                assert(proposals_view(u.calls@) =~= proposals_view(old_calls).remove(pos as int));
                assert(u@ == without_call(uv, pos as int));
            }
            self.put_unit(id, u);
            ledger.unreserve(p.provider, p.deposit);
            proof {
                assert(self@.units =~= old(self)@.units.insert(id, without_call(uv, pos as int)));
            }
            Ok(Some(PreimageCall { data: p.data, provider: p.provider, deposit: p.deposit }))
        } else {
            let ghost pv = p@;
            u.calls.insert(pos, p);
            proof {
                assert(proposals_view(u.calls@) =~= proposals_view(old_calls).update(pos as int, pv));
            }
            self.put_unit(id, u);
            proof {
                assert(self@.units =~= old(self)@.units.insert(id, u@));
            }
            Ok(None)
        }
    }
}

impl Pallet {
    /// Removes proposal `call_id` of the unit of `supersig_account` and
    /// releases its deposit; allowed to the unit itself and to the provider.
    pub fn remove_call<C: Currency>(&mut self, ledger: &mut C, who: AccountId, supersig_account: AccountId, call_id: CallId) -> (r:
        Result<(), Error>)
        requires
            old(self).wf(),
            accounts_wf(old(ledger).accounts()),
        ensures
            final(self).wf(),
            accounts_wf(final(ledger).accounts()),
            final(self).config() == old(self).config(),
            final(ledger).ed() == old(ledger).ed(),
            match remove_call_spec(old(self).config(), old(self)@, old(ledger).accounts(), who, supersig_account, call_id) {
                Ok((s, m)) => r.is_ok() && final(self)@ == s && final(ledger).accounts() == m,
                Err(e) => r == Err::<(), Error>(e) && final(self)@ == old(self)@ && final(ledger).accounts()
                    == old(ledger).accounts(),
            },
    {
        let id = match self.get_supersig_id_from_account(supersig_account) {
            Ok(id) => id,
            Err(e) => {
                return Err(e);
            },
        };
        let mut u = self.take_unit(id);
        let ghost uv = u@;
        let pos = match find_call(&u.calls, call_id) {
            Some(pos) => pos,
            None => {
                self.put_unit(id, u);
                proof {
                    assert(self@.units =~= old(self)@.units);
                }
                return Err(Error::CallNotFound);
            },
        };
        proof {
            assert(proposals_view(u.calls@)[pos as int] == u.calls@[pos as int]@);
        }
        if who != supersig_account && who != u.calls[pos].provider {
            self.put_unit(id, u);
            proof {
                assert(self@.units =~= old(self)@.units);
            }
            return Err(Error::NotAllowed);
        }
        let ghost old_calls = u.calls@;
        let p = u.calls.remove(pos);
        u.active_proposals = if u.active_proposals > 0 {
            u.active_proposals - 1
        } else {
            0
        };
        proof {
            assert(proposals_view(u.calls@) =~= proposals_view(old_calls).remove(pos as int));
            assert(u@ == without_call(uv, pos as int));
        }
        self.put_unit(id, u);
        ledger.unreserve(p.provider, p.deposit);
        self.deposit_event(Event::CallRemoved(supersig_account, call_id));
        proof {
            assert(self@.units =~= old(self)@.units.insert(id, without_call(uv, pos as int)));
        }
        Ok(())
    }

    /// The unit `supersig_account` adds `new_members` (an existing member's
    /// role is overwritten) and reserves the deposit for the accounts that
    /// were not members before.
    pub fn add_members<C: Currency>(&mut self, ledger: &mut C, supersig_account: AccountId, new_members: Vec<(AccountId, Role)>) -> (r:
        Result<(), Error>)
        requires
            old(self).wf(),
            accounts_wf(old(ledger).accounts()),
        ensures
            final(self).wf(),
            accounts_wf(final(ledger).accounts()),
            final(self).config() == old(self).config(),
            final(ledger).ed() == old(ledger).ed(),
            match add_members_spec(old(self).config(), old(self)@, old(ledger).accounts(), supersig_account, new_members@) {
                Ok((s, m)) => r.is_ok() && final(self)@ == s && final(ledger).accounts() == m,
                Err(e) => r == Err::<(), Error>(e) && final(self)@ == old(self)@ && final(ledger).accounts()
                    == old(ledger).accounts(),
            },
    {
        let id = match self.get_supersig_id_from_account(supersig_account) {
            Ok(id) => id,
            Err(e) => {
                return Err(e);
            },
        };
        let mut u = self.take_unit(id);
        let ghost uv = u@;
        let mut members = u.members.clone();
        let added = internal_add_members(&mut members, &new_members);
        if added.len() > u32::MAX as usize {
            self.put_unit(id, u);
            proof {
                assert(self@.units =~= old(self)@.units);
            }
            return Err(Error::Conversion);
        }
        let n_added = added.len() as u32;
        let total_members = match u.total_members.checked_add(n_added) {
            Some(t) => t,
            None => {
                self.put_unit(id, u);
                proof {
                    assert(self@.units =~= old(self)@.units);
                }
                return Err(Error::Overflow);
            },
        };
        let deposit = match ACCOUNT_ID_SIZE.checked_mul(added.len()) {
            Some(n) => match compute_deposit(n, self.config.deposit_per_byte) {
                Ok(d) => d,
                Err(e) => {
                    self.put_unit(id, u);
                    proof {
                        assert(self@.units =~= old(self)@.units);
                    }
                    return Err(e);
                },
            },
            None => {
                self.put_unit(id, u);
                proof {
                    assert(self@.units =~= old(self)@.units);
                }
                return Err(Error::Conversion);
            },
        };
        let saved = ledger.snapshot();
        match ledger.reserve(supersig_account, deposit) {
            Ok(()) => {},
            Err(e) => {
                self.put_unit(id, u);
                proof {
                    assert(self@.units =~= old(self)@.units);
                }
                return Err(Error::Ledger(e));
            },
        }
        let total_deposit = match u.total_deposit.checked_add(deposit) {
            Some(t) => t,
            None => {
                *ledger = saved;
                self.put_unit(id, u);
                proof {
                    assert(self@.units =~= old(self)@.units);
                }
                return Err(Error::Overflow);
            },
        };
        proof {
            lemma_add_keeps_roles(uv.members, new_members@);
        }
        u.members = members;
        u.total_members = total_members;
        u.total_deposit = total_deposit;
        self.put_unit(id, u);
        self.deposit_event(Event::MembersAdded(supersig_account, added));
        proof {
            assert(self@.units =~= old(self)@.units.insert(id, u@));
        }
        Ok(())
    }

    /// The unit `supersig_account` removes `members_to_remove` (accounts that
    /// are not members are ignored) and releases to itself the removed
    /// members' share of its deposit, computed from the counts before removal.
    /// Fails without change when no member would remain.
    pub fn remove_members<C: Currency>(&mut self, ledger: &mut C, supersig_account: AccountId, members_to_remove: Vec<AccountId>) -> (r:
        Result<(), Error>)
        requires
            old(self).wf(),
            accounts_wf(old(ledger).accounts()),
        ensures
            final(self).wf(),
            accounts_wf(final(ledger).accounts()),
            final(self).config() == old(self).config(),
            final(ledger).ed() == old(ledger).ed(),
            match remove_members_spec(old(self).config(), old(self)@, old(ledger).accounts(), supersig_account, members_to_remove@) {
                Ok((s, m)) => r.is_ok() && final(self)@ == s && final(ledger).accounts() == m,
                Err(e) => r == Err::<(), Error>(e) && final(self)@ == old(self)@ && final(ledger).accounts()
                    == old(ledger).accounts(),
            },
    {
        let id = match self.get_supersig_id_from_account(supersig_account) {
            Ok(id) => id,
            Err(e) => {
                return Err(e);
            },
        };
        let mut u = self.take_unit(id);
        let ghost uv = u@;
        let mut members = u.members.clone();
        let removed = internal_remove_members(&mut members, &members_to_remove);
        if removed.len() > u32::MAX as usize {
            self.put_unit(id, u);
            proof {
                assert(self@.units =~= old(self)@.units);
            }
            return Err(Error::Conversion);
        }
        let n_removed = removed.len() as u32;
        if u.total_members <= n_removed {
            self.put_unit(id, u);
            proof {
                assert(self@.units =~= old(self)@.units);
            }
            return Err(Error::MustHaveAtLeastOneMember);
        }
        let refund = match Pallet::compute_proportional_amount_to_unreserve(
            u.total_deposit,
            u.total_members,
            removed.len(),
        ) {
            Ok(a) => a,
            Err(e) => {
                self.put_unit(id, u);
                proof {
                    assert(self@.units =~= old(self)@.units);
                }
                return Err(e);
            },
        };
        proof {
            lemma_remove_keeps_roles(uv.members, members_to_remove@);
        }
        u.members = members;
        u.total_members = u.total_members - n_removed;
        u.total_deposit = if u.total_deposit < refund {
            0
        } else {
            u.total_deposit - refund
        };
        proof {
            assert(u@ == with_members(uv, members_after_remove(uv.members, members_to_remove@), u.total_members, refund));
        }
        self.put_unit(id, u);
        ledger.unreserve(supersig_account, refund);
        self.deposit_event(Event::MembersRemoved(supersig_account, removed));
        proof {
            assert(self@.units =~= old(self)@.units.insert(id, u@));
        }
        Ok(())
    }

    /// `who` leaves the unit of `supersig_account`; the unit releases to
    /// itself one member's share of its deposit. The last member cannot
    /// leave. Votes already cast stay counted.
    pub fn leave_supersig<C: Currency>(&mut self, ledger: &mut C, who: AccountId, supersig_account: AccountId) -> (r:
        Result<(), Error>)
        requires
            old(self).wf(),
            accounts_wf(old(ledger).accounts()),
        ensures
            final(self).wf(),
            accounts_wf(final(ledger).accounts()),
            final(self).config() == old(self).config(),
            final(ledger).ed() == old(ledger).ed(),
            match leave_spec(old(self).config(), old(self)@, old(ledger).accounts(), who, supersig_account) {
                Ok((s, m)) => r.is_ok() && final(self)@ == s && final(ledger).accounts() == m,
                Err(e) => r == Err::<(), Error>(e) && final(self)@ == old(self)@ && final(ledger).accounts()
                    == old(ledger).accounts(),
            },
    {
        let id = match self.get_supersig_id_from_account(supersig_account) {
            Ok(id) => id,
            Err(e) => {
                return Err(e);
            },
        };
        let mut u = self.take_unit(id);
        let ghost uv = u@;
        if lookup_role(&u.members, who) == Role::NotMember {
            self.put_unit(id, u);
            proof {
                assert(self@.units =~= old(self)@.units);
            }
            return Err(Error::NotMember);
        }
        let refund = match Pallet::compute_proportional_amount_to_unreserve(u.total_deposit, u.total_members, 1) {
            Ok(a) => a,
            Err(e) => {
                self.put_unit(id, u);
                proof {
                    assert(self@.units =~= old(self)@.units);
                }
                return Err(e);
            },
        };
        if u.total_members == 1 {
            self.put_unit(id, u);
            proof {
                assert(self@.units =~= old(self)@.units);
            }
            return Err(Error::MustHaveAtLeastOneMember);
        }
        u.members.remove(&who);
        u.total_members = u.total_members - 1;
        u.total_deposit = if u.total_deposit < refund {
            0
        } else {
            u.total_deposit - refund
        };
        proof {
            assert(u@ == with_members(uv, uv.members.remove(who), u.total_members, refund));
        }
        self.put_unit(id, u);
        ledger.unreserve(supersig_account, refund);
        self.deposit_event(Event::SupersigLeft(supersig_account, who));
        proof {
            assert(self@.units =~= old(self)@.units.insert(id, u@));
        }
        Ok(())
    }

    /// The unit `supersig_account` deletes itself: its member deposit and
    /// every open proposal's deposit are released, the engine deregisters as
    /// a consumer of the account, all of the unit's rows are cleared, and the
    /// account's whole balance goes to `beneficiary`. When that transfer is
    /// refused (other holds lock funds) nothing changes.
    pub fn delete_supersig<C: Currency>(&mut self, ledger: &mut C, supersig_account: AccountId, beneficiary: AccountId) -> (r:
        Result<(), Error>)
        requires
            old(self).wf(),
            accounts_wf(old(ledger).accounts()),
        ensures
            final(self).wf(),
            accounts_wf(final(ledger).accounts()),
            final(self).config() == old(self).config(),
            final(ledger).ed() == old(ledger).ed(),
            match delete_spec(old(self).config(), old(self)@, old(ledger).accounts(), old(ledger).ed(), supersig_account, beneficiary) {
                Ok((s, m)) => r.is_ok() && final(self)@ == s && final(ledger).accounts() == m,
                Err(e) => r == Err::<(), Error>(e) && final(self)@ == old(self)@ && final(ledger).accounts()
                    == old(ledger).accounts(),
            },
    {
        let id = match self.get_supersig_id_from_account(supersig_account) {
            Ok(id) => id,
            Err(e) => {
                return Err(e);
            },
        };
        let u = self.take_unit(id);
        let ghost uv = u@;
        let saved = ledger.snapshot();
        ledger.unreserve(supersig_account, u.total_deposit);
        let ghost m1 = ledger.accounts();
        let ghost pv = proposals_view(u.calls@);
        let mut i: usize = 0;
        while i < u.calls.len()
            invariant
                i <= u.calls@.len(),
                pv == proposals_view(u.calls@),
                accounts_wf(ledger.accounts()),
                ledger.ed() == saved.ed(),
                ledger.accounts() == release_calls_spec(m1, pv.take(i as int)),
            decreases u.calls@.len() - i,
        {
            proof {
                assert(pv.take(i as int + 1).drop_last() =~= pv.take(i as int));
                assert(pv.take(i as int + 1).last() == u.calls@[i as int]@);
            }
            ledger.unreserve(u.calls[i].provider, u.calls[i].deposit);
            i = i + 1;
        }
        proof {
            assert(pv.take(pv.len() as int) =~= pv);
        }
        ledger.dec_consumers(supersig_account);
        let amount = ledger.total_balance(supersig_account);
        match ledger.transfer(supersig_account, beneficiary, amount, true) {
            Ok(()) => {},
            Err(_) => {
                *ledger = saved;
                self.put_unit(id, u);
                proof {
                    assert(self@.units =~= old(self)@.units);
                }
                return Err(Error::SupersigHaveLockedFunds);
            },
        }
        self.deposit_event(Event::SupersigRemoved(supersig_account));
        Ok(())
    }

    /// Records the outcome of dispatching the command of proposal `call_id`
    /// of `supersig_account`: `None` on success, else the failure.
    pub fn record_execution_attempt(&mut self, supersig_account: AccountId, call_id: CallId, failure: Option<Error>)
        requires
            old(self).wf(),
        ensures
            final(self).wf(),
            final(self).config() == old(self).config(),
            final(self)@.units == old(self)@.units,
            final(self)@.nonce_supersig == old(self)@.nonce_supersig,
            final(self)@.events == old(self)@.events.push(
                EventView::CallExecutionAttempted(supersig_account, call_id, failure),
            ),
    {
        self.deposit_event(Event::CallExecutionAttempted(supersig_account, call_id, failure));
    }
}

/// A copy of a byte vector.
fn copy_bytes(v: &Vec<u8>) -> (r: Vec<u8>)
    ensures
        r@ == v@,
{
    let mut out: Vec<u8> = Vec::new();
    let mut i: usize = 0;
    while i < v.len()
        invariant
            i <= v@.len(),
            out@ == v@.take(i as int),
        decreases v@.len() - i,
    {
        out.push(v[i]);
        proof {
            assert(v@.take(i as int + 1) =~= v@.take(i as int).push(v@[i as int]));
        }
        i = i + 1;
    }
    proof {
        assert(v@.take(v@.len() as int) =~= v@);
    }
    out
}

/// A copy of an account vector.
fn copy_accounts(v: &Vec<AccountId>) -> (r: Vec<AccountId>)
    ensures
        r@ == v@,
{
    let mut out: Vec<AccountId> = Vec::new();
    let mut i: usize = 0;
    while i < v.len()
        invariant
            i <= v@.len(),
            out@ == v@.take(i as int),
        decreases v@.len() - i,
    {
        out.push(v[i]);
        proof {
            assert(v@.take(i as int + 1) =~= v@.take(i as int).push(v@[i as int]));
        }
        i = i + 1;
    }
    proof {
        assert(v@.take(v@.len() as int) =~= v@);
    }
    out
}

/// Whether unit `id` exists and `who` has a role in it.
pub open spec fn in_unit(s: PalletView, who: AccountId, id: SupersigId) -> bool {
    s.units.contains_key(id) && s.units[id].members.contains_key(who)
}

/// The projection of an open proposal.
fn proposal_state(p: &Proposal) -> (r: ProposalState)
    ensures
        r.projects(p@),
{
    ProposalState::new(p.id, copy_bytes(&p.data), p.provider, copy_accounts(&p.voters))
}

impl Pallet {
    /// Ids of the units in which `user_account` has a role, in increasing order.
    pub fn get_user_supersigs(&self, user_account: AccountId) -> (r: Vec<SupersigId>)
        requires
            self.wf(),
        ensures
            forall|id: SupersigId| #[trigger] r@.contains(id) <==> in_unit(self@, user_account, id),
            forall|i: int, j: int| 0 <= i < j < r@.len() ==> r@[i] < r@[j],
    {
        let mut out: Vec<SupersigId> = Vec::new();
        let mut id: SupersigId = 0;
        while id < self.nonce_supersig
            invariant
                self.wf(),
                id <= self.nonce_supersig,
                forall|k: SupersigId|
                    #[trigger] out@.contains(k) <==> (k < id && in_unit(self@, user_account, k)),
                forall|i: int, j: int| 0 <= i < j < out@.len() ==> out@[i] < out@[j],
                forall|i: int| 0 <= i < out@.len() ==> out@[i] < id,
            decreases self.nonce_supersig - id,
        {
            let ghost before = out@;
            proof {
                assert forall|k: SupersigId| #[trigger] before.contains(k) implies k < id by {
                    let j = choose|j: int| 0 <= j < before.len() && before[j] == k;
                }
            }
            match self.units.get(&id) {
                Some(u) => {
                    if u.members.contains_key(&user_account) {
                        out.push(id);
                        proof {
                            assert forall|k: SupersigId|
                                #[trigger] out@.contains(k) <==> (k < id + 1 && in_unit(self@, user_account, k)) by {
                                if k == id {
                                    assert(out@[out@.len() - 1] == id);
                                }
                                if out@.contains(k) && k != id {
                                    let j = choose|j: int| 0 <= j < out@.len() && out@[j] == k;
                                    assert(before[j] == k);
                                    assert(before.contains(k));
                                }
                                if before.contains(k) {
                                    let j = choose|j: int| 0 <= j < before.len() && before[j] == k;
                                    assert(out@[j] == k);
                                }
                            }
                        }
                    }
                },
                None => {},
            }
            proof {
                if !out@.contains(id) {
                    assert(!in_unit(self@, user_account, id) || out@.contains(id));
                }
                assert forall|k: SupersigId|
                    #[trigger] out@.contains(k) <==> (k < id + 1 && in_unit(self@, user_account, k)) by {
                    if k == id && in_unit(self@, user_account, k) {
                        assert(out@.contains(id));
                    }
                }
            }
            id = id + 1;
        }
        proof {
            assert forall|k: SupersigId| in_unit(self@, user_account, k) implies #[trigger] out@.contains(k) by {
                assert(self@.units.contains_key(k));
            }
        }
        out
    }

    /// Members of the unit of `supersig_account` with their roles, in no
    /// particular order.
    pub fn list_members(&self, supersig_account: AccountId) -> (r: Result<Vec<(AccountId, Role)>, Error>)
        ensures
            match resolve_spec(self.config(), self@, supersig_account) {
                Err(e) => r == Err::<Vec<(AccountId, Role)>, Error>(e),
                Ok(id) => r is Ok && r->Ok_0@.len() == self@.units[id].members.dom().len() && (forall|
                    a: AccountId,
                    role: Role,
                | #[trigger] r->Ok_0@.contains((a, role)) <==> (self@.units[id].members.contains_key(a)
                    && self@.units[id].members[a] == role)),
            },
    {
        let id = match self.get_supersig_id_from_account(supersig_account) {
            Ok(id) => id,
            Err(e) => {
                return Err(e);
            },
        };
        let u = match self.units.get(&id) {
            Some(u) => u,
            None => {
                return Err(Error::NotSupersig);
            },
        };
        let ghost m = u.members@;
        let ghost seqv = spec_hash_map_iter(&u.members).remaining();
        let mut out: Vec<(AccountId, Role)> = Vec::new();
        for kv in it: u.members.iter()
            invariant
                it.seq() == seqv,
                out@.len() == it.index(),
                forall|j: int| 0 <= j < out@.len() ==> #[trigger] out@[j] == (*seqv[j].0, *seqv[j].1),
        {
            out.push((*kv.0, *kv.1));
        }
        proof {
            assert(out@.len() == seqv.len());
            assert(seqv.len() == m.dom().len());
            assert forall|a: AccountId, role: Role| #[trigger] out@.contains((a, role)) <==> (m.contains_key(a)
                && m[a] == role) by {
                if out@.contains((a, role)) {
                    let j = choose|j: int| 0 <= j < out@.len() && out@[j] == (a, role);
                    assert(m.contains_key(*seqv[j].0) && m[*seqv[j].0] == *seqv[j].1);
                }
                if m.contains_key(a) && m[a] == role {
                    assert(seqv.contains((&a, &m[a])));
                    let j = choose|j: int| 0 <= j < seqv.len() && seqv[j] == (&a, &m[a]);
                    assert(out@[j] == (a, role));
                }
            }
        }
        Ok(out)
    }
}

impl Pallet {
    /// The open proposals of the unit of `supersig_account`, in submission
    /// order, with the unit's member count.
    pub fn list_proposals(&self, supersig_account: AccountId) -> (r: Result<(Vec<ProposalState>, u32), Error>)
        ensures
            match resolve_spec(self.config(), self@, supersig_account) {
                Err(e) => r == Err::<(Vec<ProposalState>, u32), Error>(e),
                Ok(id) => r is Ok && r->Ok_0.1 == self@.units[id].total_members && r->Ok_0.0@.len()
                    == self@.units[id].calls.len() && (forall|i: int|
                    0 <= i < r->Ok_0.0@.len() ==> #[trigger] r->Ok_0.0@[i].projects(
                        self@.units[id].calls[i],
                    )),
            },
    {
        let id = match self.get_supersig_id_from_account(supersig_account) {
            Ok(id) => id,
            Err(e) => {
                return Err(e);
            },
        };
        let u = match self.units.get(&id) {
            Some(u) => u,
            None => {
                return Err(Error::NotSupersig);
            },
        };
        let ghost pv = proposals_view(u.calls@);
        let mut out: Vec<ProposalState> = Vec::new();
        let mut i: usize = 0;
        while i < u.calls.len()
            invariant
                i <= u.calls@.len(),
                pv == proposals_view(u.calls@),
                out@.len() == i,
                forall|k: int| 0 <= k < i ==> #[trigger] out@[k].projects(pv[k]),
            decreases u.calls@.len() - i,
        {
            let st = proposal_state(&u.calls[i]);
            out.push(st);
            i = i + 1;
        }
        Ok((out, u.total_members))
    }

    /// The proposal `call_id` of the unit of `supersig_account`, with the
    /// unit's member count.
    pub fn get_proposal_state(&self, supersig_account: AccountId, call_id: CallId) -> (r: Result<(ProposalState, u32), Error>)
        requires
            self.wf(),
        ensures
            match resolve_spec(self.config(), self@, supersig_account) {
                Err(e) => r == Err::<(ProposalState, u32), Error>(e),
                Ok(id) => if has_call(self@.units[id].calls, call_id) {
                    r is Ok && r->Ok_0.1 == self@.units[id].total_members && r->Ok_0.0.projects(
                        self@.units[id].calls[call_pos(self@.units[id].calls, call_id)],
                    )
                } else {
                    r == Err::<(ProposalState, u32), Error>(Error::CallNotFound)
                },
            },
    {
        let id = match self.get_supersig_id_from_account(supersig_account) {
            Ok(id) => id,
            Err(e) => {
                return Err(e);
            },
        };
        let u = match self.units.get(&id) {
            Some(u) => u,
            None => {
                return Err(Error::NotSupersig);
            },
        };
        assert(unit_wf(self.config, u@));
        match find_call(&u.calls, call_id) {
            Some(pos) => {
                proof {
                    assert(proposals_view(u.calls@)[pos as int] == u.calls@[pos as int]@);
                }
                Ok((proposal_state(&u.calls[pos]), u.total_members))
            },
            None => Err(Error::CallNotFound),
        }
    }

    /// The id that the next unit will get.
    pub fn nonce_supersig(&self) -> (r: SupersigId)
        ensures
            r == self@.nonce_supersig,
    {
        self.nonce_supersig
    }

    /// The role of `who` in unit `id`; `NotMember` when either is unknown.
    pub fn members(&self, id: SupersigId, who: AccountId) -> (r: Role)
        ensures
            r == (if self@.units.contains_key(id) {
                role_in(self@.units[id].members, who)
            } else {
                Role::NotMember
            }),
    {
        match self.units.get(&id) {
            Some(u) => lookup_role(&u.members, who),
            None => Role::NotMember,
        }
    }

    /// The member count of unit `id`, zero when it does not exist.
    pub fn total_members(&self, id: SupersigId) -> (r: u32)
        ensures
            r == (if self@.units.contains_key(id) {
                self@.units[id].total_members
            } else {
                0
            }),
    {
        match self.units.get(&id) {
            Some(u) => u.total_members,
            None => 0,
        }
    }

    /// The recorded member deposit of unit `id`, zero when it does not exist.
    pub fn total_deposit(&self, id: SupersigId) -> (r: Balance)
        ensures
            r == (if self@.units.contains_key(id) {
                self@.units[id].total_deposit
            } else {
                0
            }),
    {
        match self.units.get(&id) {
            Some(u) => u.total_deposit,
            None => 0,
        }
    }

    /// The id that the next proposal of unit `id` will get, zero when it does
    /// not exist.
    pub fn nonce_call(&self, id: SupersigId) -> (r: CallId)
        ensures
            r == (if self@.units.contains_key(id) {
                self@.units[id].nonce_call
            } else {
                0
            }),
    {
        match self.units.get(&id) {
            Some(u) => u.nonce_call,
            None => 0,
        }
    }

    /// The number of open proposals of unit `id`, zero when it does not exist.
    pub fn active_proposals(&self, id: SupersigId) -> (r: u32)
        ensures
            r == (if self@.units.contains_key(id) {
                self@.units[id].active_proposals
            } else {
                0
            }),
    {
        match self.units.get(&id) {
            Some(u) => u.active_proposals,
            None => 0,
        }
    }

    /// The preimage of proposal `call_id` of unit `id`, if it is open.
    pub fn calls(&self, id: SupersigId, call_id: CallId) -> (r: Option<PreimageCall>)
        requires
            self.wf(),
        ensures
            r is Some <==> (self@.units.contains_key(id) && has_call(self@.units[id].calls, call_id)),
            r is Some ==> ({
                let p = self@.units[id].calls[call_pos(self@.units[id].calls, call_id)];
                r->0.data@ == p.data && r->0.provider == p.provider && r->0.deposit == p.deposit
            }),
    {
        match self.units.get(&id) {
            Some(u) => {
                assert(self@.units.contains_key(id) && self@.units[id] == u@);
                assert(unit_wf(self.config, u@));
                match find_call(&u.calls, call_id) {
                    Some(pos) => {
                        proof {
                            assert(proposals_view(u.calls@)[pos as int] == u.calls@[pos as int]@);
                        }
                        let p = &u.calls[pos];
                        Some(PreimageCall { data: copy_bytes(&p.data), provider: p.provider, deposit: p.deposit })
                    },
                    None => None,
                }
            },
            None => None,
        }
    }

    /// The accumulated vote weight of proposal `call_id` of unit `id`; zero
    /// when it is not open.
    pub fn votes(&self, id: SupersigId, call_id: CallId) -> (r: u32)
        requires
            self.wf(),
        ensures
            r == (if self@.units.contains_key(id) && has_call(self@.units[id].calls, call_id) {
                self@.units[id].calls[call_pos(self@.units[id].calls, call_id)].votes
            } else {
                0
            }),
    {
        match self.units.get(&id) {
            Some(u) => {
                assert(self@.units.contains_key(id) && self@.units[id] == u@);
                assert(unit_wf(self.config, u@));
                match find_call(&u.calls, call_id) {
                    Some(pos) => {
                        proof {
                            assert(proposals_view(u.calls@)[pos as int] == u.calls@[pos as int]@);
                        }
                        u.calls[pos].votes
                    },
                    None => 0,
                }
            },
            None => 0,
        }
    }

    /// Whether `who` voted for the open proposal `call_id` of unit `id`.
    pub fn members_votes(&self, id: SupersigId, call_id: CallId, who: AccountId) -> (r: bool)
        requires
            self.wf(),
        ensures
            r == (self@.units.contains_key(id) && has_call(self@.units[id].calls, call_id)
                && self@.units[id].calls[call_pos(self@.units[id].calls, call_id)].voters.contains(who)),
    {
        match self.units.get(&id) {
            Some(u) => {
                assert(self@.units.contains_key(id) && self@.units[id] == u@);
                assert(unit_wf(self.config, u@));
                match find_call(&u.calls, call_id) {
                    Some(pos) => {
                        proof {
                            assert(proposals_view(u.calls@)[pos as int] == u.calls@[pos as int]@);
                        }
                        contains_account(&u.calls[pos].voters, who)
                    },
                    None => false,
                }
            },
            None => false,
        }
    }

    /// The events emitted so far, oldest first.
    pub fn events(&self) -> (r: &Vec<Event>)
        ensures
            r@.map_values(|e: Event| e@) == self@.events,
    {
        &self.events
    }

    /// The account that unit `id` governs, if `id` can have one.
    pub fn supersig_account(&self, id: SupersigId) -> (r: Option<AccountId>)
        ensures
            r == sub_account_spec(self.config().pallet_id, id),
    {
        into_sub_account(self.config.pallet_id, id)
    }
}

} // verus!
