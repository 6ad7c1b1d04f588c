//! Storage-cost accounting: what a number of stored bytes costs, and what part
//! of an attached deposit goes back to the payer.

use crate::table::Table;
use vstd::prelude::*;

verus! {

/// Price of one byte of contract storage, in the smallest currency unit.
pub open spec fn byte_cost() -> nat {
    10_000_000_000_000_000_000
}

/// Cost of `bytes` bytes of storage.
pub open spec fn cost_of(bytes: nat) -> nat {
    bytes * byte_cost()
}

/// What is paid back out of `attached` once `cost` is kept: all that is left.
pub open spec fn refund_of(attached: nat, cost: nat) -> nat {
    if cost <= attached {
        (attached - cost) as nat
    } else {
        0
    }
}

/// Calls `near_sdk::env::storage_byte_cost`, which returns the protocol's
/// fixed price per stored byte and touches no host state. Believed without
/// proof: the price that it returns is `byte_cost()`.
#[verifier::external_body]
fn storage_byte_cost() -> (cost: u128)
    ensures
        cost == byte_cost(),
{
    near_sdk::env::storage_byte_cost()
}

/// The cost of storing `bytes` bytes. Never overflows: the largest byte count
/// times the price stays below `u128::MAX`.
pub fn storage_cost(bytes: u64) -> (cost: u128)
    ensures
        cost == cost_of(bytes as nat),
{
    let price: u128 = storage_byte_cost();
    let wide: u128 = bytes as u128;
    assert(wide * price <= u128::MAX) by (nonlinear_arith)
        requires
            wide <= 0xffff_ffff_ffff_ffff,
            price == 10_000_000_000_000_000_000,
    ;
    wide * price
}

/// Bytes that one approval occupies: the account name in UTF-8, four bytes for
/// its length, and eight for the approval id.
pub open spec fn approval_bytes(account: Seq<char>) -> nat {
    vstd::utf8::encode_utf8(account).len() + 12
}

/// Bytes that the approvals of all the given accounts occupy together.
pub open spec fn released_bytes(accounts: Seq<Seq<char>>) -> nat
    decreases accounts.len(),
{
    if accounts.len() == 0 {
        0
    } else {
        released_bytes(accounts.drop_last()) + approval_bytes(accounts.last())
    }
}

/// The cost of storing one approval for `account`.
pub fn approval_storage_cost(account: &String) -> (cost: u128)
    ensures
        cost == cost_of(approval_bytes(account@)),
{
    let price: u128 = storage_byte_cost();
    let length: usize = account.as_str().as_bytes().len();
    let bytes: u128 = length as u128 + 12;
    assert(bytes * price <= u128::MAX) by (nonlinear_arith)
        requires
            bytes <= 0xffff_ffff_ffff_ffff + 12,
            price == 10_000_000_000_000_000_000,
    ;
    bytes * price
}

/// The bytes of a prefix and of the account after it add up.
pub proof fn lemma_released_step(accounts: Seq<Seq<char>>, i: int)
    requires
        0 <= i < accounts.len(),
    ensures
        released_bytes(accounts.subrange(0, i + 1)) == released_bytes(accounts.subrange(0, i))
            + approval_bytes(accounts[i]),
{
    assert(accounts.subrange(0, i + 1).drop_last() =~= accounts.subrange(0, i));
}

/// A prefix never occupies more than the whole.
pub proof fn lemma_released_prefix(accounts: Seq<Seq<char>>, i: int)
    requires
        0 <= i <= accounts.len(),
    ensures
        released_bytes(accounts.subrange(0, i)) <= released_bytes(accounts),
    decreases accounts.len() - i,
{
    if i == accounts.len() {
        assert(accounts.subrange(0, i) =~= accounts);
    } else {
        lemma_released_step(accounts, i);
        lemma_released_prefix(accounts, i + 1);
    }
}

/// The cost of the approvals of all the accounts fits the currency type, so
/// that it can be paid back in one amount.
pub open spec fn payable(accounts: Seq<Seq<char>>) -> bool {
    cost_of(released_bytes(accounts)) <= u128::MAX
}

/// More bytes never cost less, and the cost of two shares adds up.
pub proof fn lemma_cost(a: nat, b: nat)
    ensures
        cost_of(a + b) == cost_of(a) + cost_of(b),
        a <= b ==> cost_of(a) <= cost_of(b),
{
    assert(cost_of(a + b) == cost_of(a) + cost_of(b)) by (nonlinear_arith);
    assert(a <= b ==> cost_of(a) <= cost_of(b)) by (nonlinear_arith);
}

/// One more account adds the bytes of its approval.
pub proof fn lemma_released_push(accounts: Seq<Seq<char>>, account: Seq<char>)
    ensures
        released_bytes(accounts.push(account)) == released_bytes(accounts) + approval_bytes(
            account,
        ),
{
    assert(accounts.push(account).drop_last() =~= accounts);
}

/// One account less takes the bytes of its approval away.
pub proof fn lemma_released_remove(accounts: Seq<Seq<char>>, i: int)
    requires
        0 <= i < accounts.len(),
    ensures
        released_bytes(accounts.remove(i)) + approval_bytes(accounts[i]) == released_bytes(
            accounts,
        ),
    decreases accounts.len(),
{
    if i == accounts.len() - 1 {
        assert(accounts.remove(i) =~= accounts.drop_last());
    } else {
        assert(accounts.remove(i).drop_last() =~= accounts.drop_last().remove(i));
        assert(accounts.remove(i).last() == accounts.last());
        lemma_released_remove(accounts.drop_last(), i);
    }
}

/// The cost of storing the approvals of all the accounts in `approved`.
pub fn released_storage_cost(approved: &Table<u64>) -> (cost: u128)
    requires
        approved.wf(),
        payable(approved.keys()),
    ensures
        cost == cost_of(released_bytes(approved.keys())),
{
    let count: usize = approved.len();
    let mut total: u128 = 0;
    let mut i: usize = 0;
    while i < count
        invariant
            approved.wf(),
            payable(approved.keys()),
            count == approved.keys().len(),
            i <= count,
            total == cost_of(released_bytes(approved.keys().subrange(0, i as int))),
        decreases count - i,
    {
        let one: u128 = approval_storage_cost(approved.key_at(i));
        proof {
            let before = released_bytes(approved.keys().subrange(0, i as int));
            let entry = approval_bytes(approved.keys()[i as int]);
            lemma_released_step(approved.keys(), i as int);
            lemma_released_prefix(approved.keys(), i + 1);
            lemma_cost(before, entry);
            lemma_cost(before + entry, released_bytes(approved.keys()));
        }
        total = total + one;
        i += 1;
    }
    assert(approved.keys().subrange(0, i as int) =~= approved.keys());
    total
}

/// Settles a deposit against the storage an operation used. `None` when the
/// deposit does not cover the cost; otherwise the amount to pay back.
pub fn refund_deposit(attached_deposit: u128, storage_used: u64) -> (refund: Option<u128>)
    ensures
        refund.is_some() <==> cost_of(storage_used as nat) <= attached_deposit,
        refund.is_some() ==> refund.unwrap() == refund_of(
            attached_deposit as nat,
            cost_of(storage_used as nat),
        ),
{
    let required: u128 = storage_cost(storage_used);
    if required > attached_deposit {
        return None;
    }
    Some(attached_deposit - required)
}

} // verus!
