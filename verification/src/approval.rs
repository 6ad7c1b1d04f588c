//! The approval ledger: granting, revoking and querying approvals on a
//! token, with the storage that each entry takes paid for and paid back.

use crate::contract::Contract;
use crate::refund::{
    approval_bytes, approval_storage_cost, cost_of, lemma_cost, lemma_released_push,
    lemma_released_remove, payable, refund_of, released_bytes, released_storage_cost,
};
use crate::table::Table;
use crate::types::{AccountId, Approval, ApprovalNotice, CallContext, ContractError, TokenId};
use vstd::prelude::*;

verus! {

/// Gas set aside for the approving call itself when a notification is sent.
pub const GAS_FOR_NFT_APPROVE: u64 = 10_000_000_000_000;

/// The gas to give to the notification of an approval: what the call was
/// given, less what the approving call keeps. `None` when the call was given
/// less than it keeps.
pub fn gas_for_notice(prepaid_gas: u64) -> (gas: Option<u64>)
    ensures
        gas == if prepaid_gas >= GAS_FOR_NFT_APPROVE {
            Some((prepaid_gas - GAS_FOR_NFT_APPROVE) as u64)
        } else {
            None
        },
{
    if prepaid_gas >= GAS_FOR_NFT_APPROVE {
        Some(prepaid_gas - GAS_FOR_NFT_APPROVE)
    } else {
        None
    }
}

impl Contract {
    /// Why an approval is refused, if it is. The checks come in this order:
    /// the deposit, approval management, the token, its owner, the counter,
    /// whether the deposit pays for a new entry, and last whether the ledger
    /// has room for it.
    pub open spec fn approve_error(
        &self,
        caller: &CallContext,
        token: Seq<char>,
        account: Seq<char>,
    ) -> Option<ContractError> {
        if caller.attached_deposit < 1 {
            Some(ContractError::DepositRequired)
        } else if !self.supports_approvals() {
            Some(ContractError::ApprovalsNotSupported)
        } else if !self.owners().contains_key(token) {
            Some(ContractError::TokenNotFound)
        } else if self.owners()[token] != caller.predecessor_account_id@ {
            Some(ContractError::NotTokenOwner)
        } else if self.next_approval_id(token) == u64::MAX {
            Some(ContractError::ApprovalIdExhausted)
        } else if !self.approvals(token).contains_key(account) && cost_of(approval_bytes(account))
            > caller.attached_deposit {
            Some(ContractError::InsufficientDeposit)
        } else if !self.approvals(token).contains_key(account) && !payable(
            self.approved_accounts(token).push(account),
        ) {
            Some(ContractError::LedgerFull)
        } else {
            None
        }
    }

    /// What `nft_approve` does: `self` is the state before the call, `after`
    /// the state after it.
    pub open spec fn approve_post(
        &self,
        after: &Contract,
        caller: &CallContext,
        token: Seq<char>,
        account: Seq<char>,
        msg: Option<String>,
        outcome: Result<Approval, ContractError>,
    ) -> bool {
        match self.approve_error(caller, token, account) {
            Some(e) => outcome == Err::<Approval, ContractError>(e) && *after == *self,
            None => {
                let id = self.next_approval_id(token);
                let fresh = !self.approvals(token).contains_key(account);
                let used = if fresh {
                    cost_of(approval_bytes(account))
                } else {
                    0
                };
                &&& outcome.is_ok()
                &&& outcome.unwrap().approval_id == id
                &&& outcome.unwrap().refund == refund_of(caller.attached_deposit as nat, used)
                &&& match msg {
                    None => outcome.unwrap().notice.is_none(),
                    Some(m) => {
                        &&& outcome.unwrap().notice.is_some()
                        &&& outcome.unwrap().notice.unwrap().receiver_id@ == account
                        &&& outcome.unwrap().notice.unwrap().token_id@ == token
                        &&& outcome.unwrap().notice.unwrap().owner_id@ == self.owners()[token]
                        &&& outcome.unwrap().notice.unwrap().approval_id == id
                        &&& outcome.unwrap().notice.unwrap().msg@ == m@
                    },
                }
                &&& after.approvals(token) == self.approvals(token).insert(account, id)
                &&& after.approved_accounts(token) == if fresh {
                    self.approved_accounts(token).push(account)
                } else {
                    self.approved_accounts(token)
                }
                &&& after.next_approval_id(token) == id + 1
                &&& after.has_counter(token)
                &&& after.same_approvals_except(self, token)
                &&& after.same_counters_except(self, token)
                &&& after.same_tokens(self)
                &&& after.same_series(self)
            },
        }
    }

    /// Approves `account_id` on the token: it gets the token's next approval
    /// id, which replaces the one it may have held, and the counter moves on.
    /// A new entry is paid from the deposit; the rest goes back.
    pub fn nft_approve(
        &mut self,
        caller: &CallContext,
        token_id: TokenId,
        account_id: AccountId,
        msg: Option<String>,
    ) -> (outcome: Result<Approval, ContractError>)
        requires
            old(self).wf(),
        ensures
            final(self).wf(),
            old(self).approve_post(final(self), caller, token_id@, account_id@, msg, outcome),
    {
        if caller.attached_deposit < 1 {
            return Err(ContractError::DepositRequired);
        }
        if !self.approval_management {
            return Err(ContractError::ApprovalsNotSupported);
        }
        let owner = match self.owner_by_id.get(&token_id) {
            Some(o) => o.clone(),
            None => {
                return Err(ContractError::TokenNotFound);
            },
        };
        if caller.predecessor_account_id != owner {
            return Err(ContractError::NotTokenOwner);
        }
        let approval_id: u64 = match self.next_approval_id_by_id.get(&token_id) {
            Some(n) => *n,
            None => 1,
        };
        if approval_id == u64::MAX {
            return Err(ContractError::ApprovalIdExhausted);
        }
        let place = self.approvals_by_id.position(&token_id);
        let fresh = match place {
            Some(i) => self.approvals_by_id.value_at(i).position(&account_id).is_none(),
            None => true,
        };
        let held: u128 = match place {
            Some(i) => released_storage_cost(self.approvals_by_id.value_at(i)),
            None => 0,
        };
        let used: u128 = if fresh {
            approval_storage_cost(&account_id)
        } else {
            0
        };
        if used > caller.attached_deposit {
            return Err(ContractError::InsufficientDeposit);
        }
        proof {
            let accounts = self.approved_accounts(token_id@);
            lemma_released_push(accounts, account_id@);
            lemma_cost(released_bytes(accounts), approval_bytes(account_id@));
        }
        if fresh && used > u128::MAX - held {
            return Err(ContractError::LedgerFull);
        }
        let refund: u128 = caller.attached_deposit - used;
        match place {
            Some(i) => {
                let mut inner = self.approvals_by_id.replace_at(i, Table::new());
                inner.insert(account_id.clone(), approval_id);
                self.approvals_by_id.replace_at(i, inner);
            },
            None => {
                let mut inner = Table::new();
                inner.insert(account_id.clone(), approval_id);
                self.approvals_by_id.insert(token_id.clone(), inner);
            },
        }
        self.next_approval_id_by_id.insert(token_id.clone(), approval_id + 1);
        let notice = match msg {
            Some(m) => Some(
                ApprovalNotice {
                    receiver_id: account_id,
                    token_id,
                    owner_id: owner,
                    approval_id,
                    msg: m,
                },
            ),
            None => None,
        };
        Ok(Approval { approval_id, refund, notice })
    }

    /// Why a revocation is refused, if it is.
    pub open spec fn revoke_error(&self, caller: &CallContext, token: Seq<char>) -> Option<
        ContractError,
    > {
        if caller.attached_deposit != 1 {
            Some(ContractError::OneYoctoRequired)
        } else if !self.supports_approvals() {
            Some(ContractError::ApprovalsNotSupported)
        } else if !self.owners().contains_key(token) {
            Some(ContractError::TokenNotFound)
        } else if self.owners()[token] != caller.predecessor_account_id@ {
            Some(ContractError::NotTokenOwner)
        } else {
            None
        }
    }

    /// What `nft_revoke` does: `self` is the state before the call, `after`
    /// the state after it.
    pub open spec fn revoke_post(
        &self,
        after: &Contract,
        caller: &CallContext,
        token: Seq<char>,
        account: Seq<char>,
        outcome: Result<Option<u128>, ContractError>,
    ) -> bool {
        match self.revoke_error(caller, token) {
            Some(e) => outcome == Err::<Option<u128>, ContractError>(e) && *after == *self,
            None => if !self.approvals(token).contains_key(account) {
                outcome == Ok::<Option<u128>, ContractError>(None) && *after == *self
            } else {
                &&& outcome.is_ok()
                &&& outcome.unwrap().is_some()
                &&& outcome.unwrap().unwrap() == cost_of(approval_bytes(account))
                &&& after.approvals(token) == self.approvals(token).remove(account)
                &&& after.approved_accounts(token) == self.approved_accounts(token).remove(
                    self.approved_accounts(token).index_of(account),
                )
                &&& after.same_approvals_except(self, token)
                &&& after.same_counters(self)
                &&& after.same_tokens(self)
                &&& after.same_series(self)
            },
        }
    }

    /// Takes the approval of `account_id` on the token away, if it has one,
    /// and says what is paid back for the storage released. The token's
    /// counter stays as it is.
    pub fn nft_revoke(
        &mut self,
        caller: &CallContext,
        token_id: TokenId,
        account_id: AccountId,
    ) -> (outcome: Result<Option<u128>, ContractError>)
        requires
            old(self).wf(),
        ensures
            final(self).wf(),
            old(self).revoke_post(final(self), caller, token_id@, account_id@, outcome),
    {
        if caller.attached_deposit != 1 {
            return Err(ContractError::OneYoctoRequired);
        }
        if !self.approval_management {
            return Err(ContractError::ApprovalsNotSupported);
        }
        match self.owner_by_id.get(&token_id) {
            Some(owner) => {
                if caller.predecessor_account_id != *owner {
                    return Err(ContractError::NotTokenOwner);
                }
            },
            None => {
                return Err(ContractError::TokenNotFound);
            },
        }
        let place = match self.approvals_by_id.position(&token_id) {
            Some(i) => i,
            None => {
                return Ok(None);
            },
        };
        if self.approvals_by_id.value_at(place).position(&account_id).is_none() {
            return Ok(None);
        }
        let refund = approval_storage_cost(&account_id);
        let mut inner = self.approvals_by_id.replace_at(place, Table::new());
        proof {
            let accounts = inner.keys();
            let at = accounts.index_of(account_id@);
            lemma_released_remove(accounts, at);
            lemma_cost(released_bytes(accounts.remove(at)), released_bytes(accounts));
        }
        inner.remove(&account_id);
        if inner.len() == 0 {
            proof {
                assert(inner@ =~= Map::<Seq<char>, u64>::empty());
                assert(inner.keys() =~= Seq::<Seq<char>>::empty());
            }
            self.approvals_by_id.remove(&token_id);
        } else {
            self.approvals_by_id.replace_at(place, inner);
        }
        Ok(Some(refund))
    }

    /// What `nft_revoke_all` does: `self` is the state before the call,
    /// `after` the state after it.
    pub open spec fn revoke_all_post(
        &self,
        after: &Contract,
        caller: &CallContext,
        token: Seq<char>,
        outcome: Result<Option<u128>, ContractError>,
    ) -> bool {
        match self.revoke_error(caller, token) {
            Some(e) => outcome == Err::<Option<u128>, ContractError>(e) && *after == *self,
            None => if self.approved_accounts(token).len() == 0 {
                outcome == Ok::<Option<u128>, ContractError>(None) && *after == *self
            } else {
                &&& outcome.is_ok()
                &&& outcome.unwrap().is_some()
                &&& outcome.unwrap().unwrap() == cost_of(
                    released_bytes(self.approved_accounts(token)),
                )
                &&& after.approvals(token) == Map::<Seq<char>, u64>::empty()
                &&& after.approved_accounts(token) == Seq::<Seq<char>>::empty()
                &&& after.same_approvals_except(self, token)
                &&& after.same_counters(self)
                &&& after.same_tokens(self)
                &&& after.same_series(self)
            },
        }
    }

    /// Takes every approval on the token away and says what is paid back for
    /// the storage of all of them. The token's counter stays as it is.
    pub fn nft_revoke_all(&mut self, caller: &CallContext, token_id: TokenId) -> (outcome: Result<
        Option<u128>,
        ContractError,
    >)
        requires
            old(self).wf(),
        ensures
            final(self).wf(),
            old(self).revoke_all_post(final(self), caller, token_id@, outcome),
    {
        if caller.attached_deposit != 1 {
            return Err(ContractError::OneYoctoRequired);
        }
        if !self.approval_management {
            return Err(ContractError::ApprovalsNotSupported);
        }
        match self.owner_by_id.get(&token_id) {
            Some(owner) => {
                if caller.predecessor_account_id != *owner {
                    return Err(ContractError::NotTokenOwner);
                }
            },
            None => {
                return Err(ContractError::TokenNotFound);
            },
        }
        let place = match self.approvals_by_id.position(&token_id) {
            Some(i) => i,
            None => {
                return Ok(None);
            },
        };
        let refund = released_storage_cost(self.approvals_by_id.value_at(place));
        self.approvals_by_id.remove(&token_id);
        Ok(Some(refund))
    }

    /// Whether `account` is approved on the token: with an approval id given,
    /// only if it is the one that the account holds now.
    pub fn nft_is_approved(
        &self,
        token_id: TokenId,
        approved_account_id: AccountId,
        approval_id: Option<u64>,
    ) -> (outcome: Result<bool, ContractError>)
        requires
            self.wf(),
        ensures
            outcome == if self.owners().contains_key(token_id@) {
                Ok::<bool, ContractError>(
                    self.is_approved(token_id@, approved_account_id@, approval_id),
                )
            } else {
                Err::<bool, ContractError>(ContractError::TokenNotFound)
            },
    {
        if self.owner_by_id.get(&token_id).is_none() {
            return Err(ContractError::TokenNotFound);
        }
        if !self.approval_management {
            return Ok(false);
        }
        let approved_account_ids = match self.approvals_by_id.get(&token_id) {
            Some(ids) => ids,
            None => {
                return Ok(false);
            },
        };
        let actual_approval_id: u64 = match approved_account_ids.get(&approved_account_id) {
            Some(id) => *id,
            None => {
                return Ok(false);
            },
        };
        match approval_id {
            Some(given_approval_id) => Ok(given_approval_id == actual_approval_id),
            None => Ok(true),
        }
    }
}

} // verus!
