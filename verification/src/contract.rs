//! The contract state: what it holds, when it is consistent, how it is set
//! up and what it tells of its tokens.

use crate::ids::{
    decimal, lemma_decimal_has_no_colon, lemma_decimal_injective, lemma_token_id_injective,
    token_id_of,
};
use crate::refund::payable;
use crate::table::Table;
use crate::types::{
    AccountId, ContractError, NFTContractMetadata, Token, TokenId, TokenMetadata, TokenSeries,
};
use vstd::prelude::*;
use vstd::string::*;

verus! {

/// Of the given token ids, in their order, those that `owner` owns.
pub open spec fn owned_tokens(
    ids: Seq<Seq<char>>,
    owners: Map<Seq<char>, Seq<char>>,
    owner: Seq<char>,
) -> Seq<Seq<char>>
    decreases ids.len(),
{
    if ids.len() == 0 {
        Seq::empty()
    } else {
        let rest = owned_tokens(ids.drop_last(), owners, owner);
        if owners.contains_key(ids.last()) && owners[ids.last()] == owner {
            rest.push(ids.last())
        } else {
            rest
        }
    }
}

/// The token id `t` is the one derived for place `j` of the series `s`, and
/// the series has that many members.
pub open spec fn member_at(
    series: Map<Seq<char>, TokenSeries>,
    t: Seq<char>,
    s: Seq<char>,
    j: int,
) -> bool {
    &&& series.contains_key(s)
    &&& 0 <= j < series[s].tokens@.len()
    &&& t == token_id_of(s, (j + 1) as nat)
}

/// The icon of the example token.
pub const DATA_IMAGE_SVG_NEAR_ICON: &'static str =
    "data:image/svg+xml,%3Csvg xmlns='http://www.w3.org/2000/svg' viewBox='0 0 288 288'%3E%3Cg id='l' data-name='l'%3E%3Cpath d='M187.58,79.81l-30.1,44.69a3.2,3.2,0,0,0,4.75,4.2L191.86,103a1.2,1.2,0,0,1,2,.91v80.46a1.2,1.2,0,0,1-2.12.77L102.18,77.93A15.35,15.35,0,0,0,90.47,72.5H87.34A15.34,15.34,0,0,0,72,87.84V201.16A15.34,15.34,0,0,0,87.34,216.5h0a15.35,15.35,0,0,0,13.08-7.31l30.1-44.69a3.2,3.2,0,0,0-4.75-4.2L96.14,186a1.2,1.2,0,0,1-2-.91V104.61a1.2,1.2,0,0,1,2.12-.77l89.55,107.23a15.35,15.35,0,0,0,11.71,5.43h3.13A15.34,15.34,0,0,0,216,201.16V87.84A15.34,15.34,0,0,0,200.66,72.5h0A15.35,15.35,0,0,0,187.58,79.81Z'/%3E%3C/g%3E%3C/svg%3E";

/// The whole state of the contract.
pub struct Contract {
    pub(crate) owner_id: AccountId,
    pub(crate) metadata: NFTContractMetadata,
    pub(crate) approval_management: bool,
    pub(crate) owner_by_id: Table<AccountId>,
    pub(crate) token_metadata_by_id: Table<TokenMetadata>,
    pub(crate) approvals_by_id: Table<Table<u64>>,
    pub(crate) next_approval_id_by_id: Table<u64>,
    pub(crate) token_series_by_id: Table<TokenSeries>,
}

impl Contract {
    /// The account that may mint.
    pub open(crate) spec fn authority(&self) -> Seq<char> {
        self.owner_id@
    }

    /// The metadata of the contract.
    pub open(crate) spec fn contract_metadata(&self) -> NFTContractMetadata {
        self.metadata
    }

    /// Whether the contract keeps approvals at all.
    pub open(crate) spec fn supports_approvals(&self) -> bool {
        self.approval_management
    }

    /// The ids of all tokens, in minting order.
    pub open(crate) spec fn token_ids(&self) -> Seq<Seq<char>> {
        self.owner_by_id.keys()
    }

    /// The owner of each token.
    pub open(crate) spec fn owners(&self) -> Map<Seq<char>, Seq<char>> {
        Map::new(
            |t: Seq<char>| self.owner_by_id@.contains_key(t),
            |t: Seq<char>| self.owner_by_id@[t]@,
        )
    }

    /// The metadata of each token.
    pub open(crate) spec fn token_metadata(&self) -> Map<Seq<char>, TokenMetadata> {
        self.token_metadata_by_id@
    }

    /// The accounts approved on `token`, in the order in which their entries
    /// were made. Empty for a token without an approval entry.
    pub open(crate) spec fn approved_accounts(&self, token: Seq<char>) -> Seq<Seq<char>> {
        if self.approvals_by_id@.contains_key(token) {
            self.approvals_by_id@[token].keys()
        } else {
            Seq::empty()
        }
    }

    /// The approval id that each approved account holds on `token`. Empty for
    /// a token without an approval entry.
    pub open(crate) spec fn approvals(&self, token: Seq<char>) -> Map<Seq<char>, u64> {
        if self.approvals_by_id@.contains_key(token) {
            self.approvals_by_id@[token]@
        } else {
            Map::empty()
        }
    }

    /// Whether the ledger holds an entry for `token`. An entry is made by the
    /// first approval on the token and dropped with its last one.
    pub open(crate) spec fn has_approval_entry(&self, token: Seq<char>) -> bool {
        self.approvals_by_id@.contains_key(token)
    }

    /// Whether `token` has a counter of its own. It is made by the first
    /// approval on the token and stays from then on.
    pub open(crate) spec fn has_counter(&self, token: Seq<char>) -> bool {
        self.next_approval_id_by_id@.contains_key(token)
    }

    /// The approval id that the next approval on `token` will get: 1 until
    /// the token's counter exists.
    pub open(crate) spec fn next_approval_id(&self, token: Seq<char>) -> u64 {
        if self.next_approval_id_by_id@.contains_key(token) {
            self.next_approval_id_by_id@[token]
        } else {
            1
        }
    }

    /// The series records by id.
    pub open(crate) spec fn series(&self) -> Map<Seq<char>, TokenSeries> {
        self.token_series_by_id@
    }

    /// The series ids, in creation order.
    pub open(crate) spec fn series_ids(&self) -> Seq<Seq<char>> {
        self.token_series_by_id.keys()
    }

    /// The state is consistent: every table is well formed, every token has
    /// metadata, approvals and counters are kept of tokens only, an approval
    /// entry is never empty and what its storage costs can be paid back in one
    /// amount, every approval id held on a token is positive
    /// and below the token's counter, nothing is kept of approvals where the
    /// contract does not support them, the series ids count up from 1, and
    /// the tokens are the members of the series, each under the id derived
    /// from its series and its place in it.
    pub open(crate) spec fn wf(&self) -> bool {
        &&& self.owner_by_id.wf()
        &&& self.token_metadata_by_id.wf()
        &&& self.approvals_by_id.wf()
        &&& self.next_approval_id_by_id.wf()
        &&& self.token_series_by_id.wf()
        &&& self.token_metadata_by_id.keys() == self.owner_by_id.keys()
        &&& forall|t: Seq<char>| #[trigger]
            self.approvals_by_id@.contains_key(t) ==> self.approval_management
                && self.approvals_by_id@[t].wf() && self.approvals_by_id@[t].keys().len() > 0
                && self.owner_by_id@.contains_key(t) && payable(self.approvals_by_id@[t].keys())
        &&& forall|t: Seq<char>, a: Seq<char>|
            self.approvals_by_id@.contains_key(t) && #[trigger] self.approvals_by_id@[t]@.contains_key(
                a,
            ) ==> 1 <= self.approvals_by_id@[t]@[a] < self.next_approval_id(t)
        &&& forall|t: Seq<char>| #[trigger]
            self.next_approval_id_by_id@.contains_key(t) ==> self.next_approval_id_by_id@[t] >= 1
                && self.owner_by_id@.contains_key(t)
        &&& forall|i: int|
            0 <= i < self.token_series_by_id.keys().len() ==> #[trigger] self.token_series_by_id.keys()[i]
                == decimal((i + 1) as nat)
        &&& forall|s: Seq<char>, j: int|
            self.token_series_by_id@.contains_key(s) && 0 <= j
                < self.token_series_by_id@[s].tokens@.len() ==> self.owner_by_id@.contains_key(
                (#[trigger] self.token_series_by_id@[s].tokens@[j])@,
            )
        &&& forall|s: Seq<char>, j: int|
            self.token_series_by_id@.contains_key(s) && 0 <= j
                < self.token_series_by_id@[s].tokens@.len() ==> (
            #[trigger] self.token_series_by_id@[s].tokens@[j])@ == token_id_of(s, (j + 1) as nat)
        &&& forall|t: Seq<char>| #[trigger]
            self.owner_by_id@.contains_key(t) ==> exists|s: Seq<char>, j: int|
                member_at(self.token_series_by_id@, t, s, j)
    }

    /// A series id holds no colon.
    proof fn lemma_series_id_has_no_colon(&self, s: Seq<char>)
        requires
            self.wf(),
            self.token_series_by_id@.contains_key(s),
        ensures
            forall|i: int| 0 <= i < s.len() ==> s[i] != ':',
    {
        let i = self.token_series_by_id.keys().index_of(s);
        assert(self.token_series_by_id.keys()[i] == decimal((i + 1) as nat));
        lemma_decimal_has_no_colon((i + 1) as nat);
    }

    /// The id that the next token of a series would get is not taken.
    pub proof fn lemma_next_token_id_is_free(&self, series_id: Seq<char>)
        requires
            self.wf(),
            self.series().contains_key(series_id),
        ensures
            !self.owners().contains_key(
                token_id_of(series_id, self.series()[series_id].tokens@.len() + 1),
            ),
    {
        let count = self.token_series_by_id@[series_id].tokens@.len();
        let next = token_id_of(series_id, count + 1);
        if self.owner_by_id@.contains_key(next) {
            let (s, j) = choose|s: Seq<char>, j: int|
                member_at(self.token_series_by_id@, next, s, j);
            self.lemma_series_id_has_no_colon(s);
            self.lemma_series_id_has_no_colon(series_id);
            lemma_token_id_injective(s, (j + 1) as nat, series_id, count + 1);
        }
    }

    /// What a consistent state guarantees of the approvals on a token.
    pub proof fn lemma_approvals(&self, token: Seq<char>)
        requires
            self.wf(),
        ensures
            self.approved_accounts(token).no_duplicates(),
            self.approvals(token).dom() == self.approved_accounts(token).to_set(),
            self.next_approval_id(token) >= 1,
            !self.supports_approvals() ==> self.approved_accounts(token).len() == 0,
            forall|a: Seq<char>| #[trigger]
                self.approvals(token).contains_key(a) ==> 1 <= self.approvals(token)[a]
                    < self.next_approval_id(token),
            !self.owners().contains_key(token) ==> self.approved_accounts(token).len() == 0
                && self.next_approval_id(token) == 1,
            self.has_approval_entry(token) <==> self.approved_accounts(token).len() > 0,
            self.has_approval_entry(token) ==> self.has_counter(token),
            payable(self.approved_accounts(token)),
            !self.has_counter(token) ==> self.next_approval_id(token) == 1,
    {
        if self.approvals_by_id@.contains_key(token) {
            self.approvals_by_id@[token].lemma_dom();
            self.approvals_by_id@[token].lemma_entry(0);
        } else {
            assert(self.approvals(token).dom() =~= self.approved_accounts(token).to_set());
        }
    }

    /// Whether `account` holds an approval on `token`, and the given approval
    /// id if one is asked for.
    pub open spec fn is_approved(
        &self,
        token: Seq<char>,
        account: Seq<char>,
        approval_id: Option<u64>,
    ) -> bool {
        &&& self.supports_approvals()
        &&& self.approvals(token).contains_key(account)
        &&& (approval_id.is_some() ==> approval_id.unwrap() == self.approvals(token)[account])
    }

    /// Everything but the approval ledger and the series is as in `other`.
    pub open spec fn same_tokens(&self, other: &Contract) -> bool {
        &&& self.authority() == other.authority()
        &&& self.contract_metadata() == other.contract_metadata()
        &&& self.supports_approvals() == other.supports_approvals()
        &&& self.token_ids() == other.token_ids()
        &&& self.owners() == other.owners()
        &&& self.token_metadata() == other.token_metadata()
    }

    /// The series registry is as in `other`.
    pub open spec fn same_series(&self, other: &Contract) -> bool {
        &&& self.series() == other.series()
        &&& self.series_ids() == other.series_ids()
    }

    /// The approvals on every token but `token` are as in `other`.
    pub open spec fn same_approvals_except(&self, other: &Contract, token: Seq<char>) -> bool {
        forall|t: Seq<char>|
            #![trigger self.approvals(t)]
            #![trigger self.approved_accounts(t)]
            t != token ==> self.approvals(t) == other.approvals(t) && self.approved_accounts(t)
                == other.approved_accounts(t)
    }

    /// The approvals on every token are as in `other`.
    pub open spec fn same_approvals(&self, other: &Contract) -> bool {
        forall|t: Seq<char>|
            #![trigger self.approvals(t)]
            #![trigger self.approved_accounts(t)]
            self.approvals(t) == other.approvals(t) && self.approved_accounts(t)
                == other.approved_accounts(t)
    }

    /// Every token but `token` has the same counter as in `other`, or none in
    /// both.
    pub open spec fn same_counters_except(&self, other: &Contract, token: Seq<char>) -> bool {
        forall|t: Seq<char>|
            #![trigger self.next_approval_id(t)]
            #![trigger self.has_counter(t)]
            t != token ==> self.next_approval_id(t) == other.next_approval_id(t)
                && self.has_counter(t) == other.has_counter(t)
    }

    /// Every token has the same counter as in `other`, or none in both.
    pub open spec fn same_counters(&self, other: &Contract) -> bool {
        forall|t: Seq<char>|
            #![trigger self.next_approval_id(t)]
            #![trigger self.has_counter(t)]
            self.next_approval_id(t) == other.next_approval_id(t) && self.has_counter(t)
                == other.has_counter(t)
    }

    /// No approval counter is lower than it was in `earlier`.
    pub open spec fn follows(&self, earlier: &Contract) -> bool {
        forall|t: Seq<char>| #[trigger] earlier.next_approval_id(t) <= self.next_approval_id(t)
    }

    /// The state is consistent and holds no token, no series, no approval
    /// entry and no counter.
    pub open spec fn is_empty_for(
        &self,
        owner: Seq<char>,
        metadata: NFTContractMetadata,
        approval_management: bool,
    ) -> bool {
        &&& self.wf()
        &&& self.authority() == owner
        &&& self.contract_metadata() == metadata
        &&& self.supports_approvals() == approval_management
        &&& self.token_ids().len() == 0
        &&& self.owners() == Map::<Seq<char>, Seq<char>>::empty()
        &&& self.token_metadata() == Map::<Seq<char>, TokenMetadata>::empty()
        &&& self.series() == Map::<Seq<char>, TokenSeries>::empty()
        &&& self.series_ids().len() == 0
        &&& forall|t: Seq<char>| #[trigger] self.approved_accounts(t).len() == 0
        &&& forall|t: Seq<char>| #[trigger] self.approvals(t) == Map::<Seq<char>, u64>::empty()
        &&& forall|t: Seq<char>| #[trigger] self.next_approval_id(t) == 1
        &&& forall|t: Seq<char>| !(#[trigger] self.has_counter(t))
        &&& forall|t: Seq<char>| !(#[trigger] self.has_approval_entry(t))
    }

    /// A contract without tokens and series, owned by `owner_id`, that keeps
    /// approvals. Refused when the metadata is not valid.
    pub fn new(
        owner_id: AccountId,
        metadata: NFTContractMetadata,
    ) -> (made: Result<Contract, ContractError>)
        ensures
            made.is_ok() <==> metadata.valid(),
            made.is_err() ==> made == Err::<Contract, ContractError>(
                ContractError::InvalidMetadata,
            ),
            made.is_ok() ==> made.unwrap().is_empty_for(owner_id@, metadata, true),
    {
        if !metadata.is_valid() {
            return Err(ContractError::InvalidMetadata);
        }
        Ok(Contract::empty(owner_id, metadata, true))
    }

    /// As `new`, but the contract keeps no approvals: nothing can be approved
    /// on its tokens.
    pub fn new_without_approvals(
        owner_id: AccountId,
        metadata: NFTContractMetadata,
    ) -> (made: Result<Contract, ContractError>)
        ensures
            made.is_ok() <==> metadata.valid(),
            made.is_err() ==> made == Err::<Contract, ContractError>(
                ContractError::InvalidMetadata,
            ),
            made.is_ok() ==> made.unwrap().is_empty_for(owner_id@, metadata, false),
    {
        if !metadata.is_valid() {
            return Err(ContractError::InvalidMetadata);
        }
        Ok(Contract::empty(owner_id, metadata, false))
    }

    /// A contract owned by `owner_id` with the metadata of the example token.
    pub fn new_default_meta(owner_id: AccountId) -> (made: Contract)
        ensures
            made.contract_metadata().spec@ == "nft-1.0.0"@,
            made.contract_metadata().name@ == "Example NEAR non-fungible token"@,
            made.contract_metadata().symbol@ == "EXAMPLE"@,
            made.contract_metadata().icon.is_some(),
            made.contract_metadata().icon.unwrap()@ == DATA_IMAGE_SVG_NEAR_ICON@,
            made.contract_metadata().base_uri.is_none(),
            made.contract_metadata().reference.is_none(),
            made.contract_metadata().reference_hash.is_none(),
            made.is_empty_for(owner_id@, made.contract_metadata(), true),
    {
        let metadata = NFTContractMetadata {
            spec: String::from_str("nft-1.0.0"),
            name: String::from_str("Example NEAR non-fungible token"),
            symbol: String::from_str("EXAMPLE"),
            icon: Some(String::from_str(DATA_IMAGE_SVG_NEAR_ICON)),
            base_uri: None,
            reference: None,
            reference_hash: None,
        };
        Contract::empty(owner_id, metadata, true)
    }

    fn empty(
        owner_id: AccountId,
        metadata: NFTContractMetadata,
        approval_management: bool,
    ) -> (made: Contract)
        ensures
            made.is_empty_for(owner_id@, metadata, approval_management),
    {
        let c = Contract {
            owner_id,
            metadata,
            approval_management,
            owner_by_id: Table::new(),
            token_metadata_by_id: Table::new(),
            approvals_by_id: Table::new(),
            next_approval_id_by_id: Table::new(),
            token_series_by_id: Table::new(),
        };
        assert(c.owners() =~= Map::<Seq<char>, Seq<char>>::empty());
        c
    }

    /// The series ids are the decimal numbers from 1 on, in creation order.
    pub proof fn lemma_series_ids(&self, i: int)
        requires
            self.wf(),
            0 <= i < self.series_ids().len(),
        ensures
            self.series_ids()[i] == decimal((i + 1) as nat),
            self.series().contains_key(self.series_ids()[i]),
    {
        self.token_series_by_id.lemma_entry(i);
    }

    /// The id that the next series would get is not taken.
    pub proof fn lemma_next_series_id_is_free(&self)
        requires
            self.wf(),
        ensures
            !self.series().contains_key(decimal(self.series_ids().len() + 1)),
    {
        let next = decimal(self.series_ids().len() + 1);
        if self.series().contains_key(next) {
            let i = self.series_ids().index_of(next);
            assert(self.series_ids()[i] == decimal((i + 1) as nat));
            lemma_decimal_injective((i + 1) as nat, self.series_ids().len() + 1);
        }
    }

    /// The members of a series are tokens of the contract, the member at each
    /// place has the id derived from the series id and the place, and none is
    /// listed twice.
    pub proof fn lemma_series_members(&self, series_id: Seq<char>, j: int, k: int)
        requires
            self.wf(),
            self.series().contains_key(series_id),
            0 <= j < self.series()[series_id].tokens@.len(),
            0 <= k < self.series()[series_id].tokens@.len(),
        ensures
            self.owners().contains_key(self.series()[series_id].tokens@[j]@),
            self.series()[series_id].tokens@[j]@ == token_id_of(series_id, (j + 1) as nat),
            j != k ==> self.series()[series_id].tokens@[j]@ != self.series()[series_id].tokens@[k]@,
    {
        let tokens = self.token_series_by_id@[series_id].tokens@;
        assert(tokens[j]@ == token_id_of(series_id, (j + 1) as nat));
        assert(tokens[k]@ == token_id_of(series_id, (k + 1) as nat));
        if j != k && tokens[j]@ == tokens[k]@ {
            self.lemma_series_id_has_no_colon(series_id);
            lemma_token_id_injective(series_id, (j + 1) as nat, series_id, (k + 1) as nat);
        }
    }

    /// `token` is what the contract holds of the token `id`: its owner, its
    /// metadata and, with approval management, its approvals in the order in
    /// which the accounts were approved.
    pub open spec fn describes(&self, token: &Token, id: Seq<char>) -> bool {
        &&& token.token_id@ == id
        &&& token.owner_id@ == self.owners()[id]
        &&& token.metadata == self.token_metadata()[id]
        &&& if self.supports_approvals() {
            &&& token.approved_account_ids.is_some()
            &&& token.approved_account_ids.unwrap()@.len() == self.approved_accounts(id).len()
            &&& forall|i: int|
                0 <= i < self.approved_accounts(id).len() ==> {
                    &&& (#[trigger] token.approved_account_ids.unwrap()@[i]).0@
                        == self.approved_accounts(id)[i]
                    &&& self.approvals(id).contains_key(self.approved_accounts(id)[i])
                    &&& token.approved_account_ids.unwrap()@[i].1 == self.approvals(
                        id,
                    )[self.approved_accounts(id)[i]]
                }
        } else {
            token.approved_account_ids.is_none()
        }
    }

    fn describe(&self, place: usize) -> (token: Token)
        requires
            self.wf(),
            place < self.token_ids().len(),
        ensures
            self.owners().contains_key(self.token_ids()[place as int]),
            self.describes(&token, self.token_ids()[place as int]),
    {
        let token_id = self.owner_by_id.key_at(place).clone();
        let owner_id = self.owner_by_id.value_at(place).clone();
        let metadata = self.token_metadata_by_id.value_at(place).clone();
        let approved_account_ids = if self.approval_management {
            match self.approvals_by_id.get(&token_id) {
                Some(ids) => {
                    let list = ids.listing();
                    proof {
                        assert forall|i: int| 0 <= i < ids.keys().len() implies ids@.contains_key(
                            ids.keys()[i],
                        ) && ids@[ids.keys()[i]] == ids.values()[i] by {
                            ids.lemma_entry(i);
                        }
                    }
                    Some(list)
                },
                None => Some(Vec::new()),
            }
        } else {
            None
        };
        Token { token_id, owner_id, metadata, approved_account_ids }
    }

    /// The token with the given id, if there is one.
    pub fn nft_token(&self, token_id: TokenId) -> (found: Option<Token>)
        requires
            self.wf(),
        ensures
            found.is_some() <==> self.owners().contains_key(token_id@),
            found.is_some() ==> self.describes(&found.unwrap(), token_id@),
    {
        match self.owner_by_id.position(&token_id) {
            Some(place) => Some(self.describe(place)),
            None => None,
        }
    }

    /// The tokens that `owner_id` owns, in minting order.
    pub fn nft_tokens_owner(&self, owner_id: AccountId) -> (tokens: Vec<Token>)
        requires
            self.wf(),
        ensures
            tokens@.len() == owned_tokens(self.token_ids(), self.owners(), owner_id@).len(),
            forall|i: int|
                0 <= i < tokens@.len() ==> self.describes(
                    #[trigger] &tokens@[i],
                    owned_tokens(self.token_ids(), self.owners(), owner_id@)[i],
                ),
    {
        let count: usize = self.owner_by_id.len();
        let mut tokens: Vec<Token> = Vec::new();
        let mut i: usize = 0;
        while i < count
            invariant
                self.wf(),
                count == self.token_ids().len(),
                i <= count,
                tokens@.len() == owned_tokens(
                    self.token_ids().subrange(0, i as int),
                    self.owners(),
                    owner_id@,
                ).len(),
                forall|j: int|
                    0 <= j < tokens@.len() ==> self.describes(
                        #[trigger] &tokens@[j],
                        owned_tokens(
                            self.token_ids().subrange(0, i as int),
                            self.owners(),
                            owner_id@,
                        )[j],
                    ),
            decreases count - i,
        {
            proof {
                assert(self.token_ids().subrange(0, i + 1).drop_last() =~= self.token_ids().subrange(
                    0,
                    i as int,
                ));
                self.owner_by_id.lemma_entry(i as int);
            }
            if *self.owner_by_id.value_at(i) == owner_id {
                let token = self.describe(i);
                tokens.push(token);
            }
            i += 1;
        }
        assert(self.token_ids().subrange(0, i as int) =~= self.token_ids());
        tokens
    }

    /// The metadata of the contract.
    pub fn nft_metadata(&self) -> (metadata: &NFTContractMetadata)
        ensures
            *metadata == self.contract_metadata(),
    {
        &self.metadata
    }
}

} // verus!
