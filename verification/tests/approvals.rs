use nft::contract::Contract;
use nft::types::{
    Approval, ApprovalNotice, CallContext, ContractError, NFTContractMetadata, TokenMetadata,
};

const MINT_STORAGE_COST: u128 = 6010000000000000000000;

fn accounts(i: usize) -> String {
    ["alice", "bob", "charlie", "danny", "eugene", "fargo"][i].to_string()
}

fn context(predecessor: String, attached_deposit: u128) -> CallContext {
    CallContext { predecessor_account_id: predecessor, attached_deposit }
}

fn sample_token_metadata() -> TokenMetadata {
    TokenMetadata {
        title: Some("Olympus Mons".into()),
        description: Some("The tallest mountain in the charted solar system".into()),
        media: None,
        media_hash: None,
        copies: Some(1u64),
        issued_at: None,
        expires_at: None,
        starts_at: None,
        updated_at: None,
        extra: None,
        reference: None,
        reference_hash: None,
    }
}

/// A contract owned by `accounts(0)` with one series and one token of it,
/// owned by `owner`.
fn with_token(owner: String) -> (Contract, String) {
    let mut contract = Contract::new_default_meta(accounts(0));
    let ctx = context(accounts(0), MINT_STORAGE_COST);
    let created = contract
        .nft_create_series(&ctx, sample_token_metadata(), Some(0u128), 601)
        .unwrap();
    let token = contract.nft_mint(&ctx, created.series.token_series_id, owner).unwrap();
    (contract, token.token_id)
}

#[test]
fn test_approve() {
    const MINT_STORAGE_COST: u128 = 6010000000000000000000;
    let mut contract = Contract::new_default_meta(accounts(0));

    let ctx = context(accounts(0), MINT_STORAGE_COST);
    let token_series = contract
        .nft_create_series(&ctx, sample_token_metadata(), Some(0u128), 601)
        .unwrap()
        .series;
    let token = contract.nft_mint(&ctx, token_series.token_series_id, accounts(2)).unwrap();

    // alice approves bob
    let ctx = context(accounts(2), 170000000000000000000);
    contract.nft_approve(&ctx, token.token_id.clone(), accounts(3), None).unwrap();

    assert!(contract.nft_is_approved(token.token_id.clone(), accounts(3), Some(1)).unwrap());
}

#[test]
fn test_revoke() {
    let (mut contract, token_id) = with_token(accounts(0));

    // alice approves bob
    let ctx = context(accounts(0), 150000000000000000000);
    contract.nft_approve(&ctx, token_id.clone(), accounts(1), None).unwrap();

    // alice revokes bob
    let ctx = context(accounts(0), 1);
    contract.nft_revoke(&ctx, token_id.clone(), accounts(1)).unwrap();
    assert!(!contract.nft_is_approved(token_id.clone(), accounts(1), None).unwrap());
}

#[test]
fn test_revoke_all() {
    let (mut contract, token_id) = with_token(accounts(0));

    // alice approves bob
    let ctx = context(accounts(0), 150000000000000000000);
    contract.nft_approve(&ctx, token_id.clone(), accounts(1), None).unwrap();

    // alice revokes bob
    let ctx = context(accounts(0), 1);
    contract.nft_revoke_all(&ctx, token_id.clone()).unwrap();
    assert!(!contract.nft_is_approved(token_id.clone(), accounts(1), Some(1)).unwrap());
}

#[test]
fn approve_after_mint_gets_id_one_and_reapproval_two() {
    let (mut contract, token_id) = with_token(accounts(2));
    let ctx = context(accounts(2), 150000000000000000000);
    let first = contract.nft_approve(&ctx, token_id.clone(), accounts(1), None).unwrap();
    assert_eq!(first, Approval { approval_id: 1, refund: 0, notice: None });
    assert_eq!(contract.nft_is_approved(token_id.clone(), accounts(1), None), Ok(true));

    // the second approval of bob uses no storage: all but nothing comes back
    let second = contract.nft_approve(&ctx, token_id.clone(), accounts(1), None).unwrap();
    assert_eq!(
        second,
        Approval { approval_id: 2, refund: 150000000000000000000, notice: None }
    );
    assert_eq!(contract.nft_is_approved(token_id.clone(), accounts(1), Some(2)), Ok(true));
    assert_eq!(contract.nft_is_approved(token_id.clone(), accounts(1), Some(1)), Ok(false));
    let token = contract.nft_token(token_id).unwrap();
    assert_eq!(token.approved_account_ids, Some(vec![(accounts(1), 2)]));
}

#[test]
fn approval_ids_grow_across_revokes() {
    let (mut contract, token_id) = with_token(accounts(2));
    let pay = context(accounts(2), 200000000000000000000);
    let one = context(accounts(2), 1);
    let a = contract.nft_approve(&pay, token_id.clone(), accounts(1), None).unwrap();
    let b = contract.nft_approve(&pay, token_id.clone(), accounts(3), None).unwrap();
    assert_eq!((a.approval_id, b.approval_id), (1, 2));
    assert_eq!(a.refund, 50000000000000000000);
    assert_eq!(b.refund, 30000000000000000000);
    contract.nft_revoke(&one, token_id.clone(), accounts(1)).unwrap();
    let c = contract.nft_approve(&pay, token_id.clone(), accounts(1), None).unwrap();
    assert_eq!(c.approval_id, 3);
    contract.nft_revoke_all(&one, token_id.clone()).unwrap();
    let d = contract.nft_approve(&pay, token_id.clone(), accounts(1), None).unwrap();
    assert_eq!(d.approval_id, 4);
    assert_eq!(contract.nft_is_approved(token_id.clone(), accounts(1), Some(3)), Ok(false));
    assert_eq!(contract.nft_is_approved(token_id.clone(), accounts(1), Some(4)), Ok(true));
    assert_eq!(contract.nft_is_approved(token_id, accounts(3), None), Ok(false));
}

#[test]
fn approve_with_message_owes_a_notice() {
    let (mut contract, token_id) = with_token(accounts(2));
    let ctx = context(accounts(2), 1);
    // one unit does not pay for a new entry
    assert_eq!(
        contract.nft_approve(&ctx, token_id.clone(), accounts(1), Some("hi".to_string())),
        Err(ContractError::InsufficientDeposit)
    );
    assert_eq!(contract.nft_is_approved(token_id.clone(), accounts(1), None), Ok(false));
    let ctx = context(accounts(2), 150000000000000000002);
    let done = contract
        .nft_approve(&ctx, token_id.clone(), accounts(1), Some("hi".to_string()))
        .unwrap();
    assert_eq!(
        done,
        Approval {
            approval_id: 1,
            refund: 2,
            notice: Some(ApprovalNotice {
                receiver_id: accounts(1),
                token_id,
                owner_id: accounts(2),
                approval_id: 1,
                msg: "hi".to_string(),
            }),
        }
    );
}

#[test]
fn all_that_the_entry_leaves_goes_back() {
    let (mut contract, token_id) = with_token(accounts(2));
    // a new entry for "bob" takes 15 bytes: one unit is left
    let ctx = context(accounts(2), 150000000000000000001);
    let done = contract.nft_approve(&ctx, token_id.clone(), accounts(1), None).unwrap();
    assert_eq!(done.refund, 1);
    // a repeated approval takes nothing: the whole deposit goes back
    let ctx = context(accounts(2), 1);
    let again = contract.nft_approve(&ctx, token_id.clone(), accounts(1), None).unwrap();
    assert_eq!(again, Approval { approval_id: 2, refund: 1, notice: None });
    let ctx = context(accounts(2), 170000000000000000000);
    let third = contract.nft_approve(&ctx, token_id, accounts(1), None).unwrap();
    assert_eq!(third.refund, 170000000000000000000);
}

#[test]
fn approve_refusals() {
    let (mut contract, token_id) = with_token(accounts(2));
    let none = context(accounts(2), 0);
    assert_eq!(
        contract.nft_approve(&none, token_id.clone(), accounts(1), None),
        Err(ContractError::DepositRequired)
    );
    let pay = context(accounts(2), 150000000000000000000);
    assert_eq!(
        contract.nft_approve(&pay, "7:7".to_string(), accounts(1), None),
        Err(ContractError::TokenNotFound)
    );
    let stranger = context(accounts(4), 150000000000000000000);
    assert_eq!(
        contract.nft_approve(&stranger, token_id.clone(), accounts(1), None),
        Err(ContractError::NotTokenOwner)
    );
    // "charlie" needs 19 bytes, the deposit pays for 15
    assert_eq!(
        contract.nft_approve(&pay, token_id.clone(), accounts(2), None),
        Err(ContractError::InsufficientDeposit)
    );
    assert_eq!(contract.nft_token(token_id).unwrap().approved_account_ids, Some(vec![]));
}

#[test]
fn revoke_refusals() {
    let (mut contract, token_id) = with_token(accounts(2));
    for deposit in [0u128, 2, 150000000000000000000] {
        let ctx = context(accounts(2), deposit);
        assert_eq!(
            contract.nft_revoke(&ctx, token_id.clone(), accounts(1)),
            Err(ContractError::OneYoctoRequired)
        );
        assert_eq!(
            contract.nft_revoke_all(&ctx, token_id.clone()),
            Err(ContractError::OneYoctoRequired)
        );
    }
    let one = context(accounts(2), 1);
    assert_eq!(
        contract.nft_revoke(&one, "9:9".to_string(), accounts(1)),
        Err(ContractError::TokenNotFound)
    );
    assert_eq!(
        contract.nft_revoke_all(&one, "9:9".to_string()),
        Err(ContractError::TokenNotFound)
    );
    let stranger = context(accounts(1), 1);
    assert_eq!(
        contract.nft_revoke(&stranger, token_id.clone(), accounts(1)),
        Err(ContractError::NotTokenOwner)
    );
    assert_eq!(
        contract.nft_revoke_all(&stranger, token_id),
        Err(ContractError::NotTokenOwner)
    );
}

#[test]
fn revoke_of_unapproved_account_changes_nothing() {
    let (mut contract, token_id) = with_token(accounts(2));
    let one = context(accounts(2), 1);
    // no approval entry at all
    assert_eq!(contract.nft_revoke(&one, token_id.clone(), accounts(1)), Ok(None));
    assert_eq!(contract.nft_revoke_all(&one, token_id.clone()), Ok(None));
    let pay = context(accounts(2), 150000000000000000000);
    contract.nft_approve(&pay, token_id.clone(), accounts(1), None).unwrap();
    let before = contract.nft_token(token_id.clone());
    // an entry, but not for danny
    assert_eq!(contract.nft_revoke(&one, token_id.clone(), accounts(3)), Ok(None));
    assert_eq!(contract.nft_token(token_id.clone()), before);
    assert_eq!(contract.nft_is_approved(token_id, accounts(1), Some(1)), Ok(true));
}

#[test]
fn revoke_pays_back_the_entry() {
    let (mut contract, token_id) = with_token(accounts(2));
    let pay = context(accounts(2), 190000000000000000000);
    let one = context(accounts(2), 1);
    contract.nft_approve(&pay, token_id.clone(), accounts(1), None).unwrap();
    contract.nft_approve(&pay, token_id.clone(), accounts(2), None).unwrap();
    contract.nft_approve(&pay, token_id.clone(), accounts(3), None).unwrap();
    // "charlie": 7 + 12 bytes
    assert_eq!(
        contract.nft_revoke(&one, token_id.clone(), accounts(2)),
        Ok(Some(190000000000000000000))
    );
    assert_eq!(
        contract.nft_token(token_id.clone()).unwrap().approved_account_ids,
        Some(vec![(accounts(1), 1), (accounts(3), 3)])
    );
    // "bob" and "danny": 15 + 17 bytes
    assert_eq!(
        contract.nft_revoke_all(&one, token_id.clone()),
        Ok(Some(320000000000000000000))
    );
    for i in 0..6 {
        assert_eq!(contract.nft_is_approved(token_id.clone(), accounts(i), None), Ok(false));
    }
    assert_eq!(contract.nft_token(token_id).unwrap().approved_account_ids, Some(vec![]));
}

#[test]
fn is_approved_needs_the_token() {
    let (contract, token_id) = with_token(accounts(2));
    assert_eq!(
        contract.nft_is_approved("nope".to_string(), accounts(1), None),
        Err(ContractError::TokenNotFound)
    );
    assert_eq!(contract.nft_is_approved(token_id, accounts(1), None), Ok(false));
}

#[test]
fn contract_without_approvals() {
    let metadata = NFTContractMetadata {
        spec: "nft-1.0.0".to_string(),
        name: "Plain".to_string(),
        symbol: "PLAIN".to_string(),
        icon: None,
        base_uri: None,
        reference: None,
        reference_hash: None,
    };
    let mut contract = Contract::new_without_approvals(accounts(0), metadata).ok().unwrap();
    let ctx = context(accounts(0), MINT_STORAGE_COST);
    let created = contract
        .nft_create_series(&ctx, sample_token_metadata(), None, 10)
        .unwrap();
    let token = contract
        .nft_mint(&ctx, created.series.token_series_id, accounts(1))
        .unwrap();
    assert_eq!(token.approved_account_ids, None);
    let pay = context(accounts(1), 150000000000000000000);
    assert_eq!(
        contract.nft_approve(&pay, token.token_id.clone(), accounts(2), None),
        Err(ContractError::ApprovalsNotSupported)
    );
    let one = context(accounts(1), 1);
    assert_eq!(
        contract.nft_revoke(&one, token.token_id.clone(), accounts(2)),
        Err(ContractError::ApprovalsNotSupported)
    );
    assert_eq!(
        contract.nft_revoke_all(&one, token.token_id.clone()),
        Err(ContractError::ApprovalsNotSupported)
    );
    assert_eq!(contract.nft_is_approved(token.token_id, accounts(2), None), Ok(false));
}
