use nft::approval::{gas_for_notice, GAS_FOR_NFT_APPROVE};
use nft::contract::Contract;
use nft::series::MAX_PRICE;
use nft::ids::{decimal_text, derive_token_id};
use nft::types::{
    CallContext, ContractError, NFTContractMetadata, Token, TokenMetadata, TokenSeriesJson,
};

const MINT_STORAGE_COST: u128 = 5910000000000000000000;

fn accounts(i: usize) -> String {
    ["alice", "bob", "charlie", "danny", "eugene", "fargo"][i].to_string()
}

fn context(predecessor: String, attached_deposit: u128) -> CallContext {
    CallContext { predecessor_account_id: predecessor, attached_deposit }
}

fn sample_token_metadata() -> TokenMetadata {
    TokenMetadata {
        title: Some("Olympus Mons".into()),
        description: Some("The tallest mountain in the charted solar system".into()),
        media: None,
        media_hash: None,
        copies: Some(1u64),
        issued_at: None,
        expires_at: None,
        starts_at: None,
        updated_at: None,
        extra: None,
        reference: None,
        reference_hash: None,
    }
}

#[test]
fn test_new() {
    let contract = Contract::new_default_meta(accounts(1));
    assert_eq!(contract.nft_token("1".to_string()), None);
}

#[test]
fn test_mint() {
    const MINT_STORAGE_COST: u128 = 6010000000000000000000;
    let mut contract = Contract::new_default_meta(accounts(0));

    let ctx = context(accounts(0), MINT_STORAGE_COST);
    let token_series = contract
        .nft_create_series(&ctx, sample_token_metadata(), Some(0u128), 601)
        .unwrap()
        .series;
    let token = contract.nft_mint(&ctx, token_series.token_series_id, accounts(2)).unwrap();
    assert_eq!(token.token_id, "1:1".to_string());
    assert_eq!(token.owner_id.to_string(), accounts(2).to_string());
    assert_eq!(token.metadata, sample_token_metadata());
    assert_eq!(token.approved_account_ids.unwrap(), Vec::new());
}

#[test]
fn test_transfer() {
    const MINT_STORAGE_COST: u128 = 6010000000000000000000;
    let mut contract = Contract::new_default_meta(accounts(0));

    let ctx = context(accounts(0), MINT_STORAGE_COST);
    let token_series = contract
        .nft_create_series(&ctx, sample_token_metadata(), Some(0u128), 601)
        .unwrap()
        .series;
    let token = contract.nft_mint(&ctx, token_series.token_series_id, accounts(1)).unwrap();

    let ctx = context(accounts(1), 1);
    contract.nft_transfer(&ctx, accounts(3), token.token_id.clone(), None).unwrap();

    if let Some(token) = contract.nft_token(token.token_id.clone()) {
        assert_eq!(token.token_id, "1:1".to_string());
        assert_eq!(token.owner_id.to_string(), accounts(3).to_string());
        assert_eq!(token.metadata, sample_token_metadata());
        assert_eq!(token.approved_account_ids.unwrap(), Vec::new());
    } else {
        panic!("token not correctly created, or not found by nft_token");
    }
}

#[test]
fn test_create_series() {
    let mut contract = Contract::new_default_meta(accounts(1));

    let ctx = context(accounts(1), MINT_STORAGE_COST);
    let token_series = contract
        .nft_create_series(&ctx, sample_token_metadata(), Some(0u128), 591)
        .unwrap()
        .series;
    assert_eq!(token_series.token_series_id, "1".to_string());
    assert_eq!(token_series.creator_id.to_string(), accounts(1).to_string());
    assert_eq!(token_series.metadata, sample_token_metadata());
}

#[test]
fn series_ids_count_up_from_one() {
    let mut contract = Contract::new_default_meta(accounts(0));
    let mut expected: Vec<TokenSeriesJson> = Vec::new();
    for n in 1..=12u32 {
        let creator = accounts((n % 6) as usize);
        let ctx = context(creator.clone(), MINT_STORAGE_COST);
        let created = contract
            .nft_create_series(&ctx, sample_token_metadata(), None, 100)
            .unwrap();
        assert_eq!(created.series.token_series_id, n.to_string());
        assert_eq!(created.price, None);
        // 591 bytes paid, 100 used
        assert_eq!(created.refund, 4910000000000000000000);
        expected.push(TokenSeriesJson {
            token_series_id: n.to_string(),
            metadata: sample_token_metadata(),
            creator_id: creator,
        });
    }
    assert_eq!(contract.nft_series_for_all(), expected);
}

#[test]
fn series_creation_pays_back_what_the_record_leaves() {
    let mut contract = Contract::new_default_meta(accounts(0));
    let ctx = context(accounts(1), 5910000000000000000001);
    let created = contract.nft_create_series(&ctx, sample_token_metadata(), None, 591).unwrap();
    assert_eq!(created.refund, 1);
    let created = contract.nft_create_series(&ctx, sample_token_metadata(), None, 0).unwrap();
    assert_eq!(created.refund, 5910000000000000000001);
    let ctx = context(accounts(1), 0);
    let created = contract.nft_create_series(&ctx, sample_token_metadata(), None, 0).unwrap();
    assert_eq!(created.refund, 0);
}

#[test]
fn create_series_refusals() {
    let mut contract = Contract::new_default_meta(accounts(0));
    let ctx = context(accounts(1), MINT_STORAGE_COST);
    let mut untitled = sample_token_metadata();
    untitled.title = None;
    assert_eq!(
        contract.nft_create_series(&ctx, untitled, None, 1),
        Err(ContractError::TitleRequired)
    );
    assert_eq!(
        contract.nft_create_series(&ctx, sample_token_metadata(), Some(MAX_PRICE), 1),
        Err(ContractError::PriceTooHigh)
    );
    assert_eq!(MAX_PRICE, 1_000_000_000 * 10u128.pow(24));
    assert_eq!(
        contract.nft_create_series(&ctx, sample_token_metadata(), Some(MAX_PRICE - 1), 592),
        Err(ContractError::InsufficientDeposit)
    );
    assert!(contract.nft_series_for_all().is_empty());
    let created = contract
        .nft_create_series(&ctx, sample_token_metadata(), Some(MAX_PRICE - 1), 591)
        .unwrap();
    assert_eq!(created.series.token_series_id, "1");
    assert_eq!(created.price, Some(MAX_PRICE - 1));
    assert_eq!(created.refund, 0);
}

#[test]
fn mint_numbers_tokens_within_their_series() {
    let mut contract = Contract::new_default_meta(accounts(0));
    // anyone creates a series, only the contract's owner mints from it
    let creator = context(accounts(4), MINT_STORAGE_COST);
    let owner = context(accounts(0), 0);
    contract.nft_create_series(&creator, sample_token_metadata(), None, 1).unwrap();
    contract.nft_create_series(&creator, sample_token_metadata(), None, 1).unwrap();
    assert_eq!(
        contract.nft_mint(&creator, "1".to_string(), accounts(4)),
        Err(ContractError::NotMintingAuthority)
    );
    assert_eq!(
        contract.nft_mint(&owner, "3".to_string(), accounts(4)),
        Err(ContractError::SeriesNotFound)
    );
    let ids: Vec<String> = [("1", 1), ("2", 2), ("1", 1), ("2", 3), ("2", 1)]
        .iter()
        .map(|(series, receiver)| {
            contract.nft_mint(&owner, series.to_string(), accounts(*receiver)).unwrap().token_id
        })
        .collect();
    assert_eq!(ids, vec!["1:1", "2:1", "1:2", "2:2", "2:3"]);
    let of_bob: Vec<String> =
        contract.nft_tokens_owner(accounts(1)).into_iter().map(|t| t.token_id).collect();
    assert_eq!(of_bob, vec!["1:1", "1:2", "2:3"]);
    let of_danny: Vec<Token> = contract.nft_tokens_owner(accounts(3));
    assert_eq!(
        of_danny,
        vec![Token {
            token_id: "2:2".to_string(),
            owner_id: accounts(3),
            metadata: sample_token_metadata(),
            approved_account_ids: Some(vec![]),
        }]
    );
    assert!(contract.nft_tokens_owner(accounts(5)).is_empty());
}

#[test]
fn transfer_rules() {
    let mut contract = Contract::new_default_meta(accounts(0));
    let owner = context(accounts(0), MINT_STORAGE_COST);
    contract.nft_create_series(&owner, sample_token_metadata(), None, 1).unwrap();
    let id = contract.nft_mint(&owner, "1".to_string(), accounts(1)).unwrap().token_id;
    let bob_pays = context(accounts(1), 150000000000000000000 + 40000000000000000000);
    let bob = context(accounts(1), 1);
    let charlie = context(accounts(2), 1);
    assert_eq!(
        contract.nft_transfer(&bob_pays, accounts(3), id.clone(), None),
        Err(ContractError::OneYoctoRequired)
    );
    assert_eq!(
        contract.nft_transfer(&bob, accounts(3), "1:2".to_string(), None),
        Err(ContractError::TokenNotFound)
    );
    assert_eq!(
        contract.nft_transfer(&charlie, accounts(3), id.clone(), None),
        Err(ContractError::Unauthorized)
    );
    assert_eq!(
        contract.nft_transfer(&bob, accounts(1), id.clone(), None),
        Err(ContractError::ReceiverIsOwner)
    );
    // charlie is approved twice and so holds the approval id 2
    contract.nft_approve(&bob_pays, id.clone(), accounts(2), None).unwrap();
    contract.nft_approve(&bob_pays, id.clone(), accounts(2), None).unwrap();
    assert_eq!(
        contract.nft_transfer(&charlie, accounts(3), id.clone(), Some(1)),
        Err(ContractError::Unauthorized)
    );
    assert_eq!(contract.nft_transfer(&charlie, accounts(3), id.clone(), Some(2)), Ok(()));
    let token = contract.nft_token(id.clone()).unwrap();
    assert_eq!(token.owner_id, accounts(3));
    assert_eq!(token.approved_account_ids, Some(vec![]));
    assert_eq!(contract.nft_is_approved(id.clone(), accounts(2), None), Ok(false));
    // the counter outlives the transfer
    let danny_pays = context(accounts(3), 190000000000000000000);
    let next = contract.nft_approve(&danny_pays, id, accounts(2), None).unwrap();
    assert_eq!(next.approval_id, 3);
}

#[test]
fn contract_metadata_is_checked() {
    let metadata = |spec: &str, reference: Option<&str>, hash: Option<Vec<u8>>| NFTContractMetadata {
        spec: spec.to_string(),
        name: "n".to_string(),
        symbol: "s".to_string(),
        icon: None,
        base_uri: None,
        reference: reference.map(|r| r.to_string()),
        reference_hash: hash,
    };
    assert!(metadata("nft-1.0.0", None, None).is_valid());
    assert!(metadata("nft-1.0.0", Some("r"), Some(vec![0; 32])).is_valid());
    assert!(!metadata("nft-1.0.0", Some("r"), Some(vec![0; 31])).is_valid());
    assert!(!metadata("nft-1.0.0", Some("r"), None).is_valid());
    assert!(!metadata("nft-1.0.0", None, Some(vec![0; 32])).is_valid());
    assert!(!metadata("nft-2.0.0", None, None).is_valid());
    assert_eq!(
        Contract::new(accounts(0), metadata("nft-2.0.0", None, None)).err(),
        Some(ContractError::InvalidMetadata)
    );
    let contract = Contract::new(accounts(0), metadata("nft-1.0.0", None, None)).ok().unwrap();
    assert_eq!(contract.nft_metadata().name, "n");
    let example = Contract::new_default_meta(accounts(0));
    assert_eq!(example.nft_metadata().spec, "nft-1.0.0");
    assert_eq!(example.nft_metadata().name, "Example NEAR non-fungible token");
    assert_eq!(example.nft_metadata().symbol, "EXAMPLE");
    assert!(example.nft_metadata().icon.as_ref().unwrap().starts_with("data:image/svg+xml,"));
    assert!(example.nft_metadata().is_valid());
}

#[test]
fn decimal_texts() {
    for n in [0u128, 1, 9, 10, 11, 99, 100, 101, 1234567890, u64::MAX as u128, u128::MAX] {
        assert_eq!(decimal_text(n), n.to_string());
    }
    assert_eq!(derive_token_id(&"12".to_string(), 345), "12:345");
}

#[test]
fn refusals_have_their_texts() {
    assert_eq!(
        ContractError::PriceTooHigh.message(),
        format!("FireFly: price higher than {}", MAX_PRICE)
    );
    assert_eq!(ContractError::TitleRequired.message(), "FireFly: token_metadata.title is required");
    assert_eq!(ContractError::DuplicateSeriesId.message(), "FireFly: duplicate token_series_id");
    assert_eq!(ContractError::TokenNotFound.message(), "Token not found");
    assert_eq!(ContractError::NotTokenOwner.message(), "Predecessor must be token owner.");
    assert_eq!(
        ContractError::ApprovalsNotSupported.message(),
        "NFT does not support Approval Management"
    );
    assert_eq!(
        ContractError::OneYoctoRequired.message(),
        "Requires attached deposit of exactly 1 yoctoNEAR"
    );
    assert_eq!(
        ContractError::DepositRequired.message(),
        "Requires attached deposit of at least 1 yoctoNEAR"
    );
}

#[test]
fn notice_gets_the_gas_that_the_call_does_not_keep() {
    assert_eq!(GAS_FOR_NFT_APPROVE, 10_000_000_000_000);
    assert_eq!(gas_for_notice(300_000_000_000_000), Some(290_000_000_000_000));
    assert_eq!(gas_for_notice(10_000_000_000_000), Some(0));
    assert_eq!(gas_for_notice(9_999_999_999_999), None);
    assert_eq!(gas_for_notice(u64::MAX), Some(u64::MAX - 10_000_000_000_000));
}

#[test]
fn next_series_id_is_the_count_plus_one() {
    let mut contract = Contract::new_default_meta(accounts(0));
    assert_eq!(contract.next_series_id(), "1");
    let ctx = context(accounts(1), MINT_STORAGE_COST);
    for n in 2..=11u32 {
        contract.nft_create_series(&ctx, sample_token_metadata(), None, 0).unwrap();
        assert_eq!(contract.next_series_id(), n.to_string());
    }
}
