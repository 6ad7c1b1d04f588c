//! The series registry: creating and listing series, and minting the next
//! token of a series.

use crate::contract::{member_at, Contract};
use crate::ids::{decimal, decimal_text, derive_token_id, token_id_of};
use crate::refund::{cost_of, refund_deposit, refund_of};
use crate::types::{
    AccountId, CallContext, ContractError, SeriesCreated, Token, TokenMetadata, TokenSeries,
    TokenSeriesId, TokenSeriesJson,
};
use vstd::prelude::*;

verus! {

/// A price must stay below this cap.
pub const MAX_PRICE: u128 = 1_000_000_000_000_000_000_000_000_000_000_000;

impl Contract {
    /// The id that the next series will get: the number of series so far plus
    /// one, in decimal.
    pub fn next_series_id(&self) -> (id: TokenSeriesId)
        requires
            self.wf(),
        ensures
            id@ == decimal(self.series_ids().len() + 1),
    {
        let count: usize = self.token_series_by_id.len();
        decimal_text(count as u128 + 1)
    }

    /// Why the creation of a series is refused, if it is. The checks come in
    /// this order: the id, the title, the price, the deposit.
    pub open spec fn create_series_error(
        &self,
        caller: &CallContext,
        metadata: &TokenMetadata,
        price: Option<u128>,
        storage_used: u64,
    ) -> Option<ContractError> {
        if self.series().contains_key(decimal(self.series_ids().len() + 1)) {
            Some(ContractError::DuplicateSeriesId)
        } else if metadata.title.is_none() {
            Some(ContractError::TitleRequired)
        } else if price.is_some() && price.unwrap() >= MAX_PRICE {
            Some(ContractError::PriceTooHigh)
        } else if cost_of(storage_used as nat) > caller.attached_deposit {
            Some(ContractError::InsufficientDeposit)
        } else {
            None
        }
    }

    /// What `nft_create_series` does: `self` is the state before the call,
    /// `after` the state after it.
    pub open spec fn create_series_post(
        &self,
        after: &Contract,
        caller: &CallContext,
        metadata: &TokenMetadata,
        price: Option<u128>,
        storage_used: u64,
        outcome: Result<SeriesCreated, ContractError>,
    ) -> bool {
        match self.create_series_error(caller, metadata, price, storage_used) {
            Some(e) => outcome == Err::<SeriesCreated, ContractError>(e) && *after == *self,
            None => {
                let id = decimal(self.series_ids().len() + 1);
                &&& outcome.is_ok()
                &&& outcome.unwrap().series.token_series_id@ == id
                &&& outcome.unwrap().series.metadata == *metadata
                &&& outcome.unwrap().series.creator_id@ == caller.predecessor_account_id@
                &&& outcome.unwrap().price == price
                &&& outcome.unwrap().refund == refund_of(
                    caller.attached_deposit as nat,
                    cost_of(storage_used as nat),
                )
                &&& after.series_ids() == self.series_ids().push(id)
                &&& after.series().contains_key(id)
                &&& after.series().remove(id) == self.series()
                &&& after.series()[id].metadata == *metadata
                &&& after.series()[id].creator_id@ == caller.predecessor_account_id@
                &&& after.series()[id].tokens@.len() == 0
                &&& after.series()[id].price == price
                &&& after.series()[id].is_mintable
                &&& after.same_tokens(self)
                &&& after.same_approvals(self)
                &&& after.same_counters(self)
            },
        }
    }

    /// Creates a series with the caller as its creator. Its id is the number
    /// of series after the creation, in decimal. `storage_used` is the number
    /// of bytes that the new record occupies; it is paid from the deposit and
    /// the rest goes back.
    pub fn nft_create_series(
        &mut self,
        caller: &CallContext,
        token_metadata: TokenMetadata,
        price: Option<u128>,
        storage_used: u64,
    ) -> (outcome: Result<SeriesCreated, ContractError>)
        requires
            old(self).wf(),
        ensures
            final(self).wf(),
            old(self).create_series_post(
                final(self),
                caller,
                &token_metadata,
                price,
                storage_used,
                outcome,
            ),
    {
        let token_series_id = self.next_series_id();
        if self.token_series_by_id.get(&token_series_id).is_some() {
            return Err(ContractError::DuplicateSeriesId);
        }
        if token_metadata.title.is_none() {
            return Err(ContractError::TitleRequired);
        }
        match price {
            Some(p) => {
                if p >= MAX_PRICE {
                    return Err(ContractError::PriceTooHigh);
                }
            },
            None => {},
        }
        let refund: u128 = match refund_deposit(caller.attached_deposit, storage_used) {
            Some(r) => r,
            None => {
                return Err(ContractError::InsufficientDeposit);
            },
        };
        let record = TokenSeries {
            metadata: token_metadata.clone(),
            creator_id: caller.predecessor_account_id.clone(),
            tokens: Vec::new(),
            price,
            is_mintable: true,
        };
        self.token_series_by_id.insert(token_series_id.clone(), record);
        proof {
            let before = old(self).token_series_by_id@;
            let now = self.token_series_by_id@;
            assert forall|t: Seq<char>| #[trigger] self.owner_by_id@.contains_key(t) implies exists|
                s: Seq<char>,
                j: int,
            | member_at(now, t, s, j) by {
                let (s, j) = choose|s: Seq<char>, j: int| member_at(before, t, s, j);
                assert(member_at(now, t, s, j));
            }
            assert(self.series().remove(token_series_id@) =~= old(self).series());
        }
        Ok(
            SeriesCreated {
                series: TokenSeriesJson {
                    token_series_id,
                    metadata: token_metadata,
                    creator_id: caller.predecessor_account_id.clone(),
                },
                price,
                refund,
            },
        )
    }

    /// All series, in creation order.
    pub fn nft_series_for_all(&self) -> (all: Vec<TokenSeriesJson>)
        requires
            self.wf(),
        ensures
            all@.len() == self.series_ids().len(),
            forall|i: int|
                0 <= i < all@.len() ==> {
                    &&& (#[trigger] all@[i]).token_series_id@ == self.series_ids()[i]
                    &&& self.series().contains_key(self.series_ids()[i])
                    &&& all@[i].metadata == self.series()[self.series_ids()[i]].metadata
                    &&& all@[i].creator_id@ == self.series()[self.series_ids()[i]].creator_id@
                },
    {
        let count: usize = self.token_series_by_id.len();
        let mut all: Vec<TokenSeriesJson> = Vec::new();
        let mut i: usize = 0;
        while i < count
            invariant
                self.wf(),
                count == self.series_ids().len(),
                i <= count,
                all@.len() == i,
                forall|j: int|
                    0 <= j < i ==> {
                        &&& (#[trigger] all@[j]).token_series_id@ == self.series_ids()[j]
                        &&& self.series().contains_key(self.series_ids()[j])
                        &&& all@[j].metadata == self.series()[self.series_ids()[j]].metadata
                        &&& all@[j].creator_id@ == self.series()[self.series_ids()[j]].creator_id@
                    },
            decreases count - i,
        {
            let record = self.token_series_by_id.value_at(i);
            all.push(
                TokenSeriesJson {
                    token_series_id: self.token_series_by_id.key_at(i).clone(),
                    metadata: record.metadata.clone(),
                    creator_id: record.creator_id.clone(),
                },
            );
            i += 1;
        }
        all
    }

    /// Why minting is refused, if it is.
    pub open spec fn mint_error(&self, caller: &CallContext, series_id: Seq<char>) -> Option<
        ContractError,
    > {
        if caller.predecessor_account_id@ != self.authority() {
            Some(ContractError::NotMintingAuthority)
        } else if !self.series().contains_key(series_id) {
            Some(ContractError::SeriesNotFound)
        } else if !self.series()[series_id].is_mintable {
            Some(ContractError::SeriesNotMintable)
        } else if self.owners().contains_key(
            token_id_of(series_id, self.series()[series_id].tokens@.len() + 1),
        ) {
            Some(ContractError::DuplicateTokenId)
        } else {
            None
        }
    }

    /// What `nft_mint` does: `self` is the state before the call, `after` the
    /// state after it.
    pub open spec fn mint_post(
        &self,
        after: &Contract,
        caller: &CallContext,
        series_id: Seq<char>,
        receiver: Seq<char>,
        outcome: Result<Token, ContractError>,
    ) -> bool {
        match self.mint_error(caller, series_id) {
            Some(e) => outcome == Err::<Token, ContractError>(e) && *after == *self,
            None => {
                let before = self.series()[series_id];
                let id = token_id_of(series_id, before.tokens@.len() + 1);
                &&& outcome.is_ok()
                &&& outcome.unwrap().token_id@ == id
                &&& outcome.unwrap().owner_id@ == receiver
                &&& outcome.unwrap().metadata == before.metadata
                &&& if self.supports_approvals() {
                    outcome.unwrap().approved_account_ids.is_some()
                        && outcome.unwrap().approved_account_ids.unwrap()@.len() == 0
                } else {
                    outcome.unwrap().approved_account_ids.is_none()
                }
                &&& after.token_ids() == self.token_ids().push(id)
                &&& after.owners() == self.owners().insert(id, receiver)
                &&& after.token_metadata() == self.token_metadata().insert(id, before.metadata)
                &&& after.series_ids() == self.series_ids()
                &&& after.series().dom() == self.series().dom()
                &&& after.series().remove(series_id) == self.series().remove(series_id)
                &&& after.series()[series_id].metadata == before.metadata
                &&& after.series()[series_id].creator_id == before.creator_id
                &&& after.series()[series_id].price == before.price
                &&& after.series()[series_id].is_mintable
                &&& after.series()[series_id].tokens@ == before.tokens@.push(
                    outcome.unwrap().token_id,
                )
                &&& after.authority() == self.authority()
                &&& after.contract_metadata() == self.contract_metadata()
                &&& after.supports_approvals() == self.supports_approvals()
                &&& after.same_approvals(self)
                &&& after.same_counters(self)
            },
        }
    }

    /// Mints the next token of a series for `receiver_id`. Only the
    /// contract's owner may mint, whoever created the series. The token gets
    /// the series' metadata and no approvals.
    pub fn nft_mint(
        &mut self,
        caller: &CallContext,
        token_series_id: TokenSeriesId,
        receiver_id: AccountId,
    ) -> (outcome: Result<Token, ContractError>)
        requires
            old(self).wf(),
        ensures
            final(self).wf(),
            old(self).mint_post(final(self), caller, token_series_id@, receiver_id@, outcome),
    {
        if caller.predecessor_account_id != self.owner_id {
            return Err(ContractError::NotMintingAuthority);
        }
        let place = match self.token_series_by_id.position(&token_series_id) {
            Some(i) => i,
            None => {
                return Err(ContractError::SeriesNotFound);
            },
        };
        let series = self.token_series_by_id.value_at(place);
        if !series.is_mintable {
            return Err(ContractError::SeriesNotMintable);
        }
        let token_id = derive_token_id(&token_series_id, series.tokens.len() as u128 + 1);
        if self.owner_by_id.get(&token_id).is_some() {
            return Err(ContractError::DuplicateTokenId);
        }
        let metadata = series.metadata.clone();
        let blank = TokenSeries {
            metadata: metadata.clone(),
            creator_id: String::new(),
            tokens: Vec::new(),
            price: None,
            is_mintable: false,
        };
        let mut record = self.token_series_by_id.replace_at(place, blank);
        record.tokens.push(token_id.clone());
        self.token_series_by_id.replace_at(place, record);
        self.owner_by_id.insert(token_id.clone(), receiver_id.clone());
        self.token_metadata_by_id.insert(token_id.clone(), metadata.clone());
        let approved_account_ids = if self.approval_management {
            Some(Vec::new())
        } else {
            None
        };
        proof {
            let before = old(self).token_series_by_id@;
            let now = self.token_series_by_id@;
            assert forall|t: Seq<char>| #[trigger] self.owner_by_id@.contains_key(t) implies exists|
                s: Seq<char>,
                j: int,
            | member_at(now, t, s, j) by {
                if t == token_id@ {
                    assert(member_at(
                        now,
                        t,
                        token_series_id@,
                        before[token_series_id@].tokens@.len() as int,
                    ));
                } else {
                    let (s, j) = choose|s: Seq<char>, j: int| member_at(before, t, s, j);
                    assert(member_at(now, t, s, j));
                }
            }
            assert(self.owners() =~= old(self).owners().insert(token_id@, receiver_id@));
            assert(self.series().dom() =~= old(self).series().dom());
            assert(self.series().remove(token_series_id@) =~= old(self).series().remove(
                token_series_id@,
            ));
        }
        Ok(Token { token_id, owner_id: receiver_id, metadata, approved_account_ids })
    }
}

} // verus!
