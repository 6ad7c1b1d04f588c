//! The plain records that the contract stores and hands out.

use vstd::prelude::*;
use vstd::string::*;

verus! {

/// Identifier of a token.
pub type TokenId = String;

/// Identifier of a series: a positive decimal number, as text.
pub type TokenSeriesId = String;

/// Name of an account.
pub type AccountId = String;

/// Why a call was refused. A refused call changes nothing.
#[derive(Clone, Copy, Debug, PartialEq, Eq, Structural)]
pub enum ContractError {
    /// The contract was set up without approval management.
    ApprovalsNotSupported,
    /// No token has the given id.
    TokenNotFound,
    /// The caller does not own the token.
    NotTokenOwner,
    /// The call needs a deposit of at least one unit.
    DepositRequired,
    /// The call needs a deposit of exactly one unit.
    OneYoctoRequired,
    /// The deposit does not cover the storage that the call uses.
    InsufficientDeposit,
    /// The token's approval counter cannot be advanced any further.
    ApprovalIdExhausted,
    /// With one more approval, the storage of the token's approvals could no
    /// longer be paid back in one amount.
    LedgerFull,
    /// The series metadata has no title.
    TitleRequired,
    /// The price is not below the cap.
    PriceTooHigh,
    /// The next series id is already taken.
    DuplicateSeriesId,
    /// No series has the given id.
    SeriesNotFound,
    /// The series is closed for minting.
    SeriesNotMintable,
    /// The caller is not the contract's minting authority.
    NotMintingAuthority,
    /// The derived token id is already taken.
    DuplicateTokenId,
    /// The contract metadata is not valid.
    InvalidMetadata,
    /// The caller is neither the owner nor holds a matching approval.
    Unauthorized,
    /// The token's owner and the receiver are the same account.
    ReceiverIsOwner,
}

impl ContractError {
    /// The text that a refused call is reported with.
    pub open spec fn message_text(&self) -> Seq<char> {
        match self {
            ContractError::ApprovalsNotSupported => "NFT does not support Approval Management"@,
            ContractError::TokenNotFound => "Token not found"@,
            ContractError::NotTokenOwner => "Predecessor must be token owner."@,
            ContractError::DepositRequired => "Requires attached deposit of at least 1 yoctoNEAR"@,
            ContractError::OneYoctoRequired => "Requires attached deposit of exactly 1 yoctoNEAR"@,
            ContractError::InsufficientDeposit => "Must attach more yoctoNEAR to cover storage"@,
            ContractError::ApprovalIdExhausted => "No approval id is left for the token"@,
            ContractError::LedgerFull => "The token holds too many approvals"@,
            ContractError::TitleRequired => "FireFly: token_metadata.title is required"@,
            ContractError::PriceTooHigh => "FireFly: price higher than 1000000000000000000000000000000000"@,
            ContractError::DuplicateSeriesId => "FireFly: duplicate token_series_id"@,
            ContractError::SeriesNotFound => "FireFly: token series does not exist"@,
            ContractError::SeriesNotMintable => "FireFly: token series is not mintable"@,
            ContractError::NotMintingAuthority => "Unauthorized"@,
            ContractError::DuplicateTokenId => "token_id must be unique"@,
            ContractError::InvalidMetadata => "Contract metadata is not valid"@,
            ContractError::Unauthorized => "Sender not approved"@,
            ContractError::ReceiverIsOwner => "Current and next owner must differ"@,
        }
    }

    /// The text that a refused call is reported with.
    pub fn message(&self) -> (text: &'static str)
        ensures
            text@ == self.message_text(),
    {
        match self {
            ContractError::ApprovalsNotSupported => "NFT does not support Approval Management",
            ContractError::TokenNotFound => "Token not found",
            ContractError::NotTokenOwner => "Predecessor must be token owner.",
            ContractError::DepositRequired => "Requires attached deposit of at least 1 yoctoNEAR",
            ContractError::OneYoctoRequired => "Requires attached deposit of exactly 1 yoctoNEAR",
            ContractError::InsufficientDeposit => "Must attach more yoctoNEAR to cover storage",
            ContractError::ApprovalIdExhausted => "No approval id is left for the token",
            ContractError::LedgerFull => "The token holds too many approvals",
            ContractError::TitleRequired => "FireFly: token_metadata.title is required",
            ContractError::PriceTooHigh => "FireFly: price higher than 1000000000000000000000000000000000",
            ContractError::DuplicateSeriesId => "FireFly: duplicate token_series_id",
            ContractError::SeriesNotFound => "FireFly: token series does not exist",
            ContractError::SeriesNotMintable => "FireFly: token series is not mintable",
            ContractError::NotMintingAuthority => "Unauthorized",
            ContractError::DuplicateTokenId => "token_id must be unique",
            ContractError::InvalidMetadata => "Contract metadata is not valid",
            ContractError::Unauthorized => "Sender not approved",
            ContractError::ReceiverIsOwner => "Current and next owner must differ",
        }
    }
}

/// Who makes a call and what they attached to it.
pub struct CallContext {
    /// The account that makes the call.
    pub predecessor_account_id: AccountId,
    /// The payment attached to the call, in the smallest currency unit.
    pub attached_deposit: u128,
}

/// Metadata of the contract as a whole.
pub struct NFTContractMetadata {
    pub spec: String,
    pub name: String,
    pub symbol: String,
    pub icon: Option<String>,
    pub base_uri: Option<String>,
    pub reference: Option<String>,
    pub reference_hash: Option<Vec<u8>>,
}

impl NFTContractMetadata {
    /// The metadata names the supported standard version, and carries a
    /// reference exactly when it carries a hash of it, which has 32 bytes.
    pub open spec fn valid(&self) -> bool {
        &&& self.spec@ == "nft-1.0.0"@
        &&& self.reference.is_some() == self.reference_hash.is_some()
        &&& (self.reference_hash.is_some() ==> self.reference_hash.unwrap()@.len() == 32)
    }

    /// Whether the metadata is valid.
    pub fn is_valid(&self) -> (ok: bool)
        ensures
            ok == self.valid(),
    {
        let version = String::from_str("nft-1.0.0");
        if self.spec != version {
            return false;
        }
        match &self.reference_hash {
            Some(hash) => self.reference.is_some() && hash.len() == 32,
            None => self.reference.is_none(),
        }
    }
}

/// Metadata of one token, or the template of a series.
#[derive(Debug, PartialEq, Eq)]
pub struct TokenMetadata {
    pub title: Option<String>,
    pub description: Option<String>,
    pub media: Option<String>,
    pub media_hash: Option<String>,
    pub copies: Option<u64>,
    pub issued_at: Option<String>,
    pub expires_at: Option<String>,
    pub starts_at: Option<String>,
    pub updated_at: Option<String>,
    pub extra: Option<String>,
    pub reference: Option<String>,
    pub reference_hash: Option<String>,
}

/// A copy of an optional text.
pub fn copy_text(text: &Option<String>) -> (copy: Option<String>)
    ensures
        copy == *text,
{
    match text {
        Some(s) => Some(s.clone()),
        None => None,
    }
}

impl Clone for TokenMetadata {
    fn clone(&self) -> (copy: Self)
        ensures
            copy == *self,
    {
        TokenMetadata {
            title: copy_text(&self.title),
            description: copy_text(&self.description),
            media: copy_text(&self.media),
            media_hash: copy_text(&self.media_hash),
            copies: self.copies,
            issued_at: copy_text(&self.issued_at),
            expires_at: copy_text(&self.expires_at),
            starts_at: copy_text(&self.starts_at),
            updated_at: copy_text(&self.updated_at),
            extra: copy_text(&self.extra),
            reference: copy_text(&self.reference),
            reference_hash: copy_text(&self.reference_hash),
        }
    }
}

/// A series: a template from which numbered tokens are minted.
pub struct TokenSeries {
    pub metadata: TokenMetadata,
    pub creator_id: AccountId,
    /// Ids of the tokens minted from the series, in minting order.
    pub tokens: Vec<TokenId>,
    pub price: Option<u128>,
    pub is_mintable: bool,
}

/// What callers are told of a series.
#[derive(Debug, PartialEq, Eq)]
pub struct TokenSeriesJson {
    pub token_series_id: TokenSeriesId,
    pub metadata: TokenMetadata,
    pub creator_id: AccountId,
}

/// A token as handed out to callers.
#[derive(Debug, PartialEq, Eq)]
pub struct Token {
    pub token_id: TokenId,
    pub owner_id: AccountId,
    pub metadata: TokenMetadata,
    /// The approved accounts with their approval ids, in the order in which
    /// they were approved; `None` without approval management.
    pub approved_account_ids: Option<Vec<(AccountId, u64)>>,
}

/// The message owed to an account that was approved with a payload.
#[derive(Debug, PartialEq, Eq)]
pub struct ApprovalNotice {
    pub receiver_id: AccountId,
    pub token_id: TokenId,
    pub owner_id: AccountId,
    pub approval_id: u64,
    pub msg: String,
}

/// The outcome of a successful approval.
#[derive(Debug, PartialEq, Eq)]
pub struct Approval {
    /// The approval id that the account now holds.
    pub approval_id: u64,
    /// What goes back to the caller out of the attached deposit.
    pub refund: u128,
    /// The notification to send, when a payload was given.
    pub notice: Option<ApprovalNotice>,
}

/// The outcome of a successful series creation.
#[derive(Debug, PartialEq, Eq)]
pub struct SeriesCreated {
    /// The descriptor of the new series.
    pub series: TokenSeriesJson,
    /// The price recorded for the series, for the creation event.
    pub price: Option<u128>,
    /// What goes back to the caller out of the attached deposit.
    pub refund: u128,
}

} // verus!
