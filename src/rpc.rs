use vstd::prelude::*;
use crate::model::ProposalView;
use crate::types::{AccountId, CallId};

verus! {

/// A read-only projection of an open proposal and the accounts that voted.
#[derive(Clone, Debug, PartialEq, Eq)]
pub struct ProposalState {
    id: CallId,
    encoded_call: Vec<u8>,
    provider: AccountId,
    voters: Vec<AccountId>,
}

impl ProposalState {
    pub closed spec fn spec_id(&self) -> CallId {
        self.id
    }

    pub closed spec fn spec_encoded_call(&self) -> Seq<u8> {
        self.encoded_call@
    }

    pub closed spec fn spec_provider(&self) -> AccountId {
        self.provider
    }

    pub closed spec fn spec_voters(&self) -> Seq<AccountId> {
        self.voters@
    }

    /// Whether this state projects the proposal `p`.
    pub open spec fn projects(&self, p: ProposalView) -> bool {
        &&& self.spec_id() == p.id
        &&& self.spec_encoded_call() == p.data
        &&& self.spec_provider() == p.provider
        &&& self.spec_voters() == p.voters
    }

    pub fn new(id: CallId, encoded_call: Vec<u8>, provider: AccountId, voters: Vec<AccountId>) -> (r: Self)
        ensures
            r.spec_id() == id,
            r.spec_encoded_call() == encoded_call@,
            r.spec_provider() == provider,
            r.spec_voters() == voters@,
    {
        ProposalState { id, encoded_call, provider, voters }
    }

    pub fn id(&self) -> (r: &CallId)
        ensures
            *r == self.spec_id(),
    {
        &self.id
    }

    pub fn encoded_call(&self) -> (r: &Vec<u8>)
        ensures
            r@ == self.spec_encoded_call(),
    {
        &self.encoded_call
    }

    pub fn provider(&self) -> (r: &AccountId)
        ensures
            *r == self.spec_provider(),
    {
        &self.provider
    }

    pub fn voters(&self) -> (r: &Vec<AccountId>)
        ensures
            r@ == self.spec_voters(),
    {
        &self.voters
    }
}

} // verus!
