use nft::refund::{approval_storage_cost, refund_deposit, released_storage_cost, storage_cost};
use nft::table::Table;

#[test]
fn storage_costs_ten_to_the_nineteenth_per_byte() {
    assert_eq!(storage_cost(0), 0);
    assert_eq!(storage_cost(1), 10_000_000_000_000_000_000);
    assert_eq!(storage_cost(601), 6010000000000000000000);
    assert_eq!(storage_cost(u64::MAX), 184467440737095516150000000000000000000);
}

#[test]
fn an_approval_takes_the_name_and_twelve_bytes() {
    assert_eq!(approval_storage_cost(&"bob".to_string()), 150000000000000000000);
    assert_eq!(approval_storage_cost(&"danny".to_string()), 170000000000000000000);
    assert_eq!(approval_storage_cost(&String::new()), 120000000000000000000);
    // two bytes for the one character
    assert_eq!(approval_storage_cost(&"\u{e9}".to_string()), 140000000000000000000);
}

#[test]
fn refund_is_what_the_storage_leaves() {
    let unit: u128 = 10_000_000_000_000_000_000;
    assert_eq!(refund_deposit(10 * unit, 3), Some(7 * unit));
    assert_eq!(refund_deposit(10 * unit, 10), Some(0));
    assert_eq!(refund_deposit(10 * unit + 1, 10), Some(1));
    assert_eq!(refund_deposit(10 * unit + 2, 10), Some(2));
    assert_eq!(refund_deposit(10 * unit - 1, 10), None);
    assert_eq!(refund_deposit(0, 0), Some(0));
    assert_eq!(refund_deposit(1, 0), Some(1));
    assert_eq!(refund_deposit(5, 0), Some(5));
    assert_eq!(refund_deposit(u128::MAX, u64::MAX), Some(u128::MAX - storage_cost(u64::MAX)));
}

#[test]
fn released_cost_adds_up_the_entries() {
    let mut approved: Table<u64> = Table::new();
    assert_eq!(released_storage_cost(&approved), 0);
    approved.insert("bob".to_string(), 1);
    approved.insert("danny".to_string(), 2);
    approved.insert("bob".to_string(), 3);
    assert_eq!(released_storage_cost(&approved), 320000000000000000000);
}

#[test]
fn table_keeps_one_value_per_key_in_first_come_order() {
    let mut table: Table<u64> = Table::new();
    assert_eq!(table.len(), 0);
    assert_eq!(table.insert("b".to_string(), 1), None);
    assert_eq!(table.insert("a".to_string(), 2), None);
    assert_eq!(table.insert("b".to_string(), 3), Some(1));
    assert_eq!(table.len(), 2);
    assert_eq!(table.get(&"b".to_string()), Some(&3));
    assert_eq!(table.get(&"c".to_string()), None);
    assert_eq!(table.position(&"a".to_string()), Some(1));
    assert_eq!(table.listing(), vec![("b".to_string(), 3), ("a".to_string(), 2)]);
    assert_eq!(table.replace_at(1, 9), 2);
    assert_eq!((table.key_at(1).as_str(), *table.value_at(1)), ("a", 9));
    assert_eq!(table.remove(&"c".to_string()), None);
    assert_eq!(table.remove(&"b".to_string()), Some(3));
    assert_eq!(table.listing(), vec![("a".to_string(), 9)]);
}
