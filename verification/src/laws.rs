//! What holds of the contract across calls. Each statement takes the state
//! before a call and the state after it, related by what the call ensures.

use crate::contract::Contract;
use crate::series::MAX_PRICE;
use crate::ids::{decimal, token_id_of};
use crate::refund::{approval_bytes, cost_of};
use crate::types::{Approval, CallContext, ContractError, SeriesCreated, Token, TokenMetadata};
use vstd::prelude::*;

verus! {

/// After a successful approval the account is approved on the token, and it
/// holds exactly the approval id that the call handed out.
pub proof fn approved_after_approve(
    before: &Contract,
    after: &Contract,
    caller: &CallContext,
    token: Seq<char>,
    account: Seq<char>,
    msg: Option<String>,
    outcome: Result<Approval, ContractError>,
)
    requires
        before.wf(),
        before.approve_post(after, caller, token, account, msg, outcome),
        outcome.is_ok(),
    ensures
        after.is_approved(token, account, None),
        after.is_approved(token, account, Some(outcome.unwrap().approval_id)),
{
}

/// A successful approval pays back the deposit less the cost of one entry
/// where the account was not approved before, and the whole deposit where it
/// was. Nothing is charged for the counter.
pub proof fn approval_refund_is_exact(
    before: &Contract,
    after: &Contract,
    caller: &CallContext,
    token: Seq<char>,
    account: Seq<char>,
    msg: Option<String>,
    outcome: Result<Approval, ContractError>,
)
    requires
        before.wf(),
        before.approve_post(after, caller, token, account, msg, outcome),
        outcome.is_ok(),
    ensures
        !before.approvals(token).contains_key(account) ==> outcome.unwrap().refund
            == caller.attached_deposit - cost_of(approval_bytes(account)),
        before.approvals(token).contains_key(account) ==> outcome.unwrap().refund
            == caller.attached_deposit && after.approved_accounts(token)
            == before.approved_accounts(token),
{
}

/// A successful series creation pays back the deposit less the cost of the
/// bytes that the new record takes.
pub proof fn series_refund_is_exact(
    before: &Contract,
    after: &Contract,
    caller: &CallContext,
    metadata: &TokenMetadata,
    price: Option<u128>,
    storage_used: u64,
    outcome: Result<SeriesCreated, ContractError>,
)
    requires
        before.wf(),
        before.create_series_post(after, caller, metadata, price, storage_used, outcome),
        outcome.is_ok(),
    ensures
        outcome.unwrap().refund == caller.attached_deposit - cost_of(storage_used as nat),
{
}

/// An approval never lowers a counter, and raises the one of its token by
/// one. The approval id that it hands out is the counter's value before the
/// call, which is never 0.
pub proof fn approve_raises_counter(
    before: &Contract,
    after: &Contract,
    caller: &CallContext,
    token: Seq<char>,
    account: Seq<char>,
    msg: Option<String>,
    outcome: Result<Approval, ContractError>,
)
    requires
        before.wf(),
        before.approve_post(after, caller, token, account, msg, outcome),
    ensures
        after.follows(before),
        outcome.is_ok() ==> outcome.unwrap().approval_id == before.next_approval_id(token)
            && after.next_approval_id(token) == before.next_approval_id(token) + 1
            && outcome.unwrap().approval_id >= 1,
{
    before.lemma_approvals(token);
    assert forall|t: Seq<char>| #[trigger]
        before.next_approval_id(t) <= after.next_approval_id(t) by {
        if outcome.is_ok() && t != token {
            assert(after.next_approval_id(t) == before.next_approval_id(t));
        }
    }
}

/// Revoking one approval leaves every counter as it was.
pub proof fn revoke_keeps_counters(
    before: &Contract,
    after: &Contract,
    caller: &CallContext,
    token: Seq<char>,
    account: Seq<char>,
    outcome: Result<Option<u128>, ContractError>,
)
    requires
        before.wf(),
        before.revoke_post(after, caller, token, account, outcome),
    ensures
        after.same_counters(before),
        after.follows(before),
{
    assert forall|t: Seq<char>| #[trigger]
        after.next_approval_id(t) == before.next_approval_id(t) by {}
}

/// Revoking all approvals of a token leaves every counter as it was.
pub proof fn revoke_all_keeps_counters(
    before: &Contract,
    after: &Contract,
    caller: &CallContext,
    token: Seq<char>,
    outcome: Result<Option<u128>, ContractError>,
)
    requires
        before.wf(),
        before.revoke_all_post(after, caller, token, outcome),
    ensures
        after.same_counters(before),
        after.follows(before),
{
    assert forall|t: Seq<char>| #[trigger]
        after.next_approval_id(t) == before.next_approval_id(t) by {}
}

/// A transfer leaves every counter as it was.
pub proof fn transfer_keeps_counters(
    before: &Contract,
    after: &Contract,
    caller: &CallContext,
    receiver: Seq<char>,
    token: Seq<char>,
    approval_id: Option<u64>,
    outcome: Result<(), ContractError>,
)
    requires
        before.wf(),
        before.transfer_post(after, caller, receiver, token, approval_id, outcome),
    ensures
        after.same_counters(before),
        after.follows(before),
{
    assert forall|t: Seq<char>| #[trigger]
        after.next_approval_id(t) == before.next_approval_id(t) by {}
}

/// No counter is lower than itself, and what holds over two stretches of calls
/// holds over both together.
pub proof fn follows_is_a_preorder(first: &Contract, second: &Contract, third: &Contract)
    ensures
        first.follows(first),
        second.follows(first) && third.follows(second) ==> third.follows(first),
{
    if second.follows(first) && third.follows(second) {
        assert forall|t: Seq<char>| #[trigger]
            first.next_approval_id(t) <= third.next_approval_id(t) by {
            assert(first.next_approval_id(t) <= second.next_approval_id(t));
            assert(second.next_approval_id(t) <= third.next_approval_id(t));
        }
    }
}

/// Of two successful approvals on one token, the later hands out the higher
/// approval id, whatever calls came between them: those never lower a counter.
pub proof fn approval_ids_increase(
    before_first: &Contract,
    after_first: &Contract,
    before_second: &Contract,
    after_second: &Contract,
    token: Seq<char>,
    first_caller: &CallContext,
    first_account: Seq<char>,
    first_msg: Option<String>,
    first: Result<Approval, ContractError>,
    second_caller: &CallContext,
    second_account: Seq<char>,
    second_msg: Option<String>,
    second: Result<Approval, ContractError>,
)
    requires
        before_first.wf(),
        before_first.approve_post(
            after_first,
            first_caller,
            token,
            first_account,
            first_msg,
            first,
        ),
        first.is_ok(),
        before_second.follows(after_first),
        before_second.approve_post(
            after_second,
            second_caller,
            token,
            second_account,
            second_msg,
            second,
        ),
        second.is_ok(),
    ensures
        first.unwrap().approval_id < second.unwrap().approval_id,
{
    assert(after_first.next_approval_id(token) <= before_second.next_approval_id(token));
}

/// A new approval id is higher than every approval id that was held on the
/// token in any earlier state, so no id is handed out twice.
pub proof fn approval_id_is_new(
    earlier: &Contract,
    before: &Contract,
    after: &Contract,
    token: Seq<char>,
    holder: Seq<char>,
    caller: &CallContext,
    account: Seq<char>,
    msg: Option<String>,
    outcome: Result<Approval, ContractError>,
)
    requires
        earlier.wf(),
        earlier.approvals(token).contains_key(holder),
        before.follows(earlier),
        before.approve_post(after, caller, token, account, msg, outcome),
        outcome.is_ok(),
    ensures
        earlier.approvals(token)[holder] < outcome.unwrap().approval_id,
        outcome.unwrap().approval_id >= 1,
{
    earlier.lemma_approvals(token);
    assert(earlier.next_approval_id(token) <= before.next_approval_id(token));
}

/// An account is approved under a given approval id exactly when that id is
/// the one it holds now.
pub proof fn approved_under_id_iff_held(
    state: &Contract,
    token: Seq<char>,
    account: Seq<char>,
    approval_id: u64,
)
    requires
        state.wf(),
    ensures
        state.is_approved(token, account, Some(approval_id)) <==> state.approvals(
            token,
        ).contains_key(account) && state.approvals(token)[account] == approval_id,
        state.is_approved(token, account, None) <==> state.approvals(token).contains_key(account),
{
    state.lemma_approvals(token);
    if state.approvals(token).contains_key(account) {
        assert(state.approved_accounts(token).to_set().contains(account));
    }
}

/// Once an account is approved again, the approval id that it held before is
/// no longer accepted.
pub proof fn superseded_id_is_rejected(
    before: &Contract,
    after: &Contract,
    caller: &CallContext,
    token: Seq<char>,
    account: Seq<char>,
    msg: Option<String>,
    outcome: Result<Approval, ContractError>,
    stale: u64,
)
    requires
        before.wf(),
        before.is_approved(token, account, Some(stale)),
        before.approve_post(after, caller, token, account, msg, outcome),
        outcome.is_ok(),
    ensures
        !after.is_approved(token, account, Some(stale)),
        after.approved_accounts(token) == before.approved_accounts(token),
{
    before.lemma_approvals(token);
}

/// After a successful revocation the account is not approved on the token,
/// whatever approval id is asked for.
pub proof fn revoked_is_not_approved(
    before: &Contract,
    after: &Contract,
    caller: &CallContext,
    token: Seq<char>,
    account: Seq<char>,
    outcome: Result<Option<u128>, ContractError>,
    approval_id: Option<u64>,
)
    requires
        before.wf(),
        before.revoke_post(after, caller, token, account, outcome),
        outcome.is_ok(),
    ensures
        !after.is_approved(token, account, approval_id),
{
}

/// Revoking an account that holds no approval on the token succeeds, pays
/// nothing back and changes nothing.
pub proof fn revoke_of_unapproved_is_noop(
    before: &Contract,
    after: &Contract,
    caller: &CallContext,
    token: Seq<char>,
    account: Seq<char>,
    outcome: Result<Option<u128>, ContractError>,
)
    requires
        before.wf(),
        before.revoke_post(after, caller, token, account, outcome),
        before.revoke_error(caller, token).is_none(),
        !before.is_approved(token, account, None),
    ensures
        outcome == Ok::<Option<u128>, ContractError>(None),
        *after == *before,
{
    before.lemma_approvals(token);
    if before.approvals(token).contains_key(account) {
        assert(before.approved_accounts(token).to_set().contains(account));
    }
}

/// Revoking all approvals of a token succeeds whenever the caller may revoke,
/// and after it no account is approved on the token and the ledger holds no
/// entry for it.
pub proof fn none_approved_after_revoke_all(
    before: &Contract,
    after: &Contract,
    caller: &CallContext,
    token: Seq<char>,
    outcome: Result<Option<u128>, ContractError>,
    account: Seq<char>,
    approval_id: Option<u64>,
)
    requires
        before.wf(),
        after.wf(),
        before.revoke_all_post(after, caller, token, outcome),
        before.revoke_error(caller, token).is_none(),
    ensures
        outcome.is_ok(),
        !after.is_approved(token, account, approval_id),
        after.approved_accounts(token).len() == 0,
        !after.has_approval_entry(token),
{
    before.lemma_approvals(token);
    after.lemma_approvals(token);
    if before.approved_accounts(token).len() == 0 {
        assert(before.approvals(token).dom() =~= Set::<Seq<char>>::empty());
    }
}

/// A new series gets the number of series after its creation as its id, so
/// the ids are 1, 2, 3 and so on in creation order. A template without a
/// title is refused, and so is a price at or above the cap.
pub proof fn series_ids_are_consecutive(
    before: &Contract,
    after: &Contract,
    caller: &CallContext,
    metadata: &TokenMetadata,
    price: Option<u128>,
    storage_used: u64,
    outcome: Result<SeriesCreated, ContractError>,
)
    requires
        before.wf(),
        before.create_series_post(after, caller, metadata, price, storage_used, outcome),
    ensures
        metadata.title.is_none() ==> outcome.is_err(),
        price.is_some() && price.unwrap() >= MAX_PRICE ==> outcome.is_err(),
        outcome.is_ok() ==> {
            &&& after.series_ids().len() == before.series_ids().len() + 1
            &&& outcome.unwrap().series.token_series_id@ == decimal(after.series_ids().len())
            &&& after.series_ids().last() == outcome.unwrap().series.token_series_id@
            &&& forall|i: int|
                0 <= i < before.series_ids().len() ==> after.series_ids()[i]
                    == before.series_ids()[i]
        },
{
}

/// Creating a series leaves every counter as it was.
pub proof fn create_series_keeps_counters(
    before: &Contract,
    after: &Contract,
    caller: &CallContext,
    metadata: &TokenMetadata,
    price: Option<u128>,
    storage_used: u64,
    outcome: Result<SeriesCreated, ContractError>,
)
    requires
        before.wf(),
        before.create_series_post(after, caller, metadata, price, storage_used, outcome),
    ensures
        after.same_counters(before),
        after.follows(before),
{
    assert forall|t: Seq<char>| #[trigger]
        after.next_approval_id(t) == before.next_approval_id(t) by {}
}

/// Minting leaves every counter as it was.
pub proof fn mint_keeps_counters(
    before: &Contract,
    after: &Contract,
    caller: &CallContext,
    series_id: Seq<char>,
    receiver: Seq<char>,
    outcome: Result<Token, ContractError>,
)
    requires
        before.wf(),
        before.mint_post(after, caller, series_id, receiver, outcome),
    ensures
        after.same_counters(before),
        after.follows(before),
{
    assert forall|t: Seq<char>| #[trigger]
        after.next_approval_id(t) == before.next_approval_id(t) by {}
}

/// In a consistent state the creation of a series is never refused for its
/// id: the id that comes next is always free.
pub proof fn next_series_id_is_never_taken(
    state: &Contract,
    caller: &CallContext,
    metadata: &TokenMetadata,
    price: Option<u128>,
    storage_used: u64,
)
    requires
        state.wf(),
    ensures
        state.create_series_error(caller, metadata, price, storage_used) != Some(
            ContractError::DuplicateSeriesId,
        ),
{
    state.lemma_next_series_id_is_free();
}

/// The series ids of a consistent state are the decimal texts of 1, 2, 3 and
/// so on, in creation order.
pub proof fn series_ids_count_up(state: &Contract, i: int)
    requires
        state.wf(),
        0 <= i < state.series_ids().len(),
    ensures
        state.series_ids()[i] == decimal((i + 1) as nat),
{
    state.lemma_series_ids(i);
}

/// Token ids never collide: in a consistent state minting is never refused
/// for the id that it derives, and the members of a series differ from each
/// other and are tokens of the contract.
pub proof fn token_ids_never_collide(
    state: &Contract,
    caller: &CallContext,
    series_id: Seq<char>,
    j: int,
    k: int,
)
    requires
        state.wf(),
        state.series().contains_key(series_id),
    ensures
        state.mint_error(caller, series_id) != Some(ContractError::DuplicateTokenId),
        0 <= j < k < state.series()[series_id].tokens@.len() ==> {
            &&& state.series()[series_id].tokens@[j]@ != state.series()[series_id].tokens@[k]@
            &&& state.series()[series_id].tokens@[j]@ == token_id_of(series_id, (j + 1) as nat)
            &&& state.owners().contains_key(state.series()[series_id].tokens@[j]@)
        },
{
    state.lemma_next_token_id_is_free(series_id);
    if 0 <= j < k < state.series()[series_id].tokens@.len() {
        state.lemma_series_members(series_id, j, k);
    }
}

/// The first approval on a token that was just minted gets the approval id 1.
pub proof fn first_approval_id_is_one(
    before: &Contract,
    after: &Contract,
    caller: &CallContext,
    series_id: Seq<char>,
    receiver: Seq<char>,
    outcome: Result<Token, ContractError>,
)
    requires
        before.wf(),
        before.mint_post(after, caller, series_id, receiver, outcome),
        outcome.is_ok(),
    ensures
        after.next_approval_id(outcome.unwrap().token_id@) == 1,
        after.approved_accounts(outcome.unwrap().token_id@).len() == 0,
        after.follows(before),
{
    let id = outcome.unwrap().token_id@;
    before.lemma_approvals(id);
    assert(after.next_approval_id(id) == before.next_approval_id(id));
    assert(after.approved_accounts(id) == before.approved_accounts(id));
    assert forall|t: Seq<char>| #[trigger]
        before.next_approval_id(t) <= after.next_approval_id(t) by {
        assert(after.next_approval_id(t) == before.next_approval_id(t));
    }
}

} // verus!
