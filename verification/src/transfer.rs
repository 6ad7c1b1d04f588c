//! Handing a token to another account.

use crate::contract::Contract;
use crate::types::{AccountId, CallContext, ContractError, TokenId};
use vstd::prelude::*;

verus! {

impl Contract {
    /// Why a transfer is refused, if it is.
    pub open spec fn transfer_error(
        &self,
        caller: &CallContext,
        receiver: Seq<char>,
        token: Seq<char>,
        approval_id: Option<u64>,
    ) -> Option<ContractError> {
        if caller.attached_deposit != 1 {
            Some(ContractError::OneYoctoRequired)
        } else if !self.owners().contains_key(token) {
            Some(ContractError::TokenNotFound)
        } else if self.owners()[token] != caller.predecessor_account_id@ && !self.is_approved(
            token,
            caller.predecessor_account_id@,
            approval_id,
        ) {
            Some(ContractError::Unauthorized)
        } else if self.owners()[token] == receiver {
            Some(ContractError::ReceiverIsOwner)
        } else {
            None
        }
    }

    /// What `nft_transfer` does: `self` is the state before the call, `after`
    /// the state after it.
    pub open spec fn transfer_post(
        &self,
        after: &Contract,
        caller: &CallContext,
        receiver: Seq<char>,
        token: Seq<char>,
        approval_id: Option<u64>,
        outcome: Result<(), ContractError>,
    ) -> bool {
        match self.transfer_error(caller, receiver, token, approval_id) {
            Some(e) => outcome == Err::<(), ContractError>(e) && *after == *self,
            None => {
                &&& outcome.is_ok()
                &&& after.owners() == self.owners().insert(token, receiver)
                &&& after.token_ids() == self.token_ids()
                &&& after.token_metadata() == self.token_metadata()
                &&& after.authority() == self.authority()
                &&& after.contract_metadata() == self.contract_metadata()
                &&& after.supports_approvals() == self.supports_approvals()
                &&& after.approvals(token) == Map::<Seq<char>, u64>::empty()
                &&& after.approved_accounts(token) == Seq::<Seq<char>>::empty()
                &&& after.same_approvals_except(self, token)
                &&& after.same_counters(self)
                &&& after.same_series(self)
            },
        }
    }

    /// Hands the token to `receiver_id`. The caller is the owner, or an
    /// account approved on the token (with `approval_id`, if one is given).
    /// The approvals on the token end with the transfer; its counter stays.
    pub fn nft_transfer(
        &mut self,
        caller: &CallContext,
        receiver_id: AccountId,
        token_id: TokenId,
        approval_id: Option<u64>,
    ) -> (outcome: Result<(), ContractError>)
        requires
            old(self).wf(),
        ensures
            final(self).wf(),
            old(self).transfer_post(
                final(self),
                caller,
                receiver_id@,
                token_id@,
                approval_id,
                outcome,
            ),
    {
        if caller.attached_deposit != 1 {
            return Err(ContractError::OneYoctoRequired);
        }
        let owner = match self.owner_by_id.get(&token_id) {
            Some(owner) => owner,
            None => {
                return Err(ContractError::TokenNotFound);
            },
        };
        let authorized = if caller.predecessor_account_id == *owner {
            true
        } else {
            match self.approvals_by_id.get(&token_id) {
                Some(ids) => match ids.get(&caller.predecessor_account_id) {
                    Some(actual) => match approval_id {
                        Some(given) => given == *actual,
                        None => true,
                    },
                    None => false,
                },
                None => false,
            }
        };
        if !authorized {
            return Err(ContractError::Unauthorized);
        }
        if *owner == receiver_id {
            return Err(ContractError::ReceiverIsOwner);
        }
        self.owner_by_id.insert(token_id.clone(), receiver_id);
        self.approvals_by_id.remove(&token_id);
        proof {
            assert(self.owners() =~= old(self).owners().insert(token_id@, receiver_id@));
        }
        Ok(())
    }
}

} // verus!
