use vstd::prelude::*;
use std::marker::PhantomData;
use std::sync::Arc;
use crate::model::{call_pos, has_call, resolve_spec, Config, PalletView};
use crate::pallet::{in_unit, Pallet};
use crate::rpc::ProposalState;
use crate::types::{AccountId, CallId, Error, Role, SupersigId};

verus! {

/// Query handle over a shared client.
pub struct Supersig<C, M> {
    client: Arc<C>,
    _marker: PhantomData<M>,
}

impl<C, M> Supersig<C, M> {
    /// The client this handle queries.
    pub closed spec fn spec_client(&self) -> C {
        *self.client
    }

    /// A handle over `client`.
    pub fn new(client: Arc<C>) -> (r: Self)
        ensures
            r.spec_client() == *client,
    {
        Supersig { client, _marker: PhantomData }
    }

    /// The client this handle queries.
    pub fn client(&self) -> (r: &C)
        ensures
            *r == self.spec_client(),
    {
        &self.client
    }
}

/// Read-only queries over the governance state that a client exposes.
pub trait SupersigApi {
    /// The state that the client exposes.
    spec fn chain_state(&self) -> PalletView;

    /// The parameters of the exposed engine.
    spec fn chain_config(&self) -> Config;

    /// Whether the exposed state is internally consistent.
    spec fn chain_wf(&self) -> bool;

    /// Units in which `user_account` has a role, in increasing id order.
    fn get_supersigs_connected_to_an_account(&self, user_account: AccountId) -> (r: Vec<SupersigId>)
        requires
            self.chain_wf(),
        ensures
            forall|id: SupersigId| #[trigger] r@.contains(id) <==> in_unit(self.chain_state(), user_account, id),
            forall|i: int, j: int| 0 <= i < j < r@.len() ==> r@[i] < r@[j],
    ;

    /// Members of the unit of `supersig_account` with their roles.
    fn get_members_connected_to_each_supersigs(&self, supersig_account: AccountId) -> (r: Result<
        Vec<(AccountId, Role)>,
        Error,
    >)
        ensures
            match resolve_spec(self.chain_config(), self.chain_state(), supersig_account) {
                Err(e) => r == Err::<Vec<(AccountId, Role)>, Error>(e),
                Ok(id) => r is Ok && r->Ok_0@.len() == self.chain_state().units[id].members.dom().len() && (
                forall|a: AccountId, role: Role| #[trigger]
                    r->Ok_0@.contains((a, role)) <==> (self.chain_state().units[id].members.contains_key(a)
                        && self.chain_state().units[id].members[a] == role)),
            },
    ;

    /// Open proposals of the unit of `supersig_account`, with its member count.
    fn get_list_of_proposals_connected_to_supersig(&self, supersig_account: AccountId) -> (r: Result<
        (Vec<ProposalState>, u32),
        Error,
    >)
        ensures
            match resolve_spec(self.chain_config(), self.chain_state(), supersig_account) {
                Err(e) => r == Err::<(Vec<ProposalState>, u32), Error>(e),
                Ok(id) => r is Ok && r->Ok_0.1 == self.chain_state().units[id].total_members
                    && r->Ok_0.0@.len() == self.chain_state().units[id].calls.len() && (forall|i: int|
                    0 <= i < r->Ok_0.0@.len() ==> #[trigger] r->Ok_0.0@[i].projects(
                        self.chain_state().units[id].calls[i],
                    )),
            },
    ;

    /// Proposal `call_id` of the unit of `supersig_account`, with its member
    /// count.
    fn get_voting_state_from_proposal(&self, supersig_account: AccountId, call_id: CallId) -> (r:
        Result<(ProposalState, u32), Error>)
        requires
            self.chain_wf(),
        ensures
            match resolve_spec(self.chain_config(), self.chain_state(), supersig_account) {
                Err(e) => r == Err::<(ProposalState, u32), Error>(e),
                Ok(id) => if has_call(self.chain_state().units[id].calls, call_id) {
                    r is Ok && r->Ok_0.1 == self.chain_state().units[id].total_members
                        && r->Ok_0.0.projects(
                        self.chain_state().units[id].calls[call_pos(
                            self.chain_state().units[id].calls,
                            call_id,
                        )],
                    )
                } else {
                    r == Err::<(ProposalState, u32), Error>(Error::CallNotFound)
                },
            },
    ;
}

impl<M> SupersigApi for Supersig<Pallet, M> {
    open spec fn chain_state(&self) -> PalletView {
        self.spec_client()@
    }

    open spec fn chain_config(&self) -> Config {
        self.spec_client().config()
    }

    open spec fn chain_wf(&self) -> bool {
        self.spec_client().wf()
    }

    fn get_supersigs_connected_to_an_account(&self, user_account: AccountId) -> (r: Vec<SupersigId>) {
        self.client().get_user_supersigs(user_account)
    }

    fn get_members_connected_to_each_supersigs(&self, supersig_account: AccountId) -> (r: Result<
        Vec<(AccountId, Role)>,
        Error,
    >) {
        self.client().list_members(supersig_account)
    }

    fn get_list_of_proposals_connected_to_supersig(&self, supersig_account: AccountId) -> (r: Result<
        (Vec<ProposalState>, u32),
        Error,
    >) {
        self.client().list_proposals(supersig_account)
    }

    fn get_voting_state_from_proposal(&self, supersig_account: AccountId, call_id: CallId) -> (r:
        Result<(ProposalState, u32), Error>) {
        self.client().get_proposal_state(supersig_account, call_id)
    }
}

} // verus!
