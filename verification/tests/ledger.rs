use tip_escrow::{AccountId, TipLedger, TipRecord};

fn record(id: u64, amount: i128) -> TipRecord {
    TipRecord {
        id,
        sender: AccountId::new("fan"),
        artist: AccountId::new("artist"),
        amount,
        timestamp: 1000 + id,
    }
}

#[test]
fn new_ledger_lists_nothing() {
    assert_eq!(TipLedger::new().list_all(), vec![]);
}

#[test]
fn appended_record_is_listed() {
    let mut ledger = TipLedger::new();
    ledger.append(record(5, 100));
    assert_eq!(ledger.list_all(), vec![record(5, 100)]);
}

#[test]
fn records_are_listed_by_rising_identifier() {
    let mut ledger = TipLedger::new();
    for id in [5u64, 1, 9, 3, 7, 0, u64::MAX] {
        ledger.append(record(id, 10));
    }
    let ids: Vec<u64> = ledger.list_all().iter().map(|r| r.id).collect();
    assert_eq!(ids, vec![0, 1, 3, 5, 7, 9, u64::MAX]);
}

#[test]
fn record_under_a_used_identifier_takes_the_place_of_the_old_one() {
    let mut ledger = TipLedger::new();
    ledger.append(record(1, 10));
    ledger.append(record(2, 20));
    ledger.append(record(3, 30));
    ledger.append(record(2, 99));
    assert_eq!(ledger.list_all(), vec![record(1, 10), record(2, 99), record(3, 30)]);
    ledger.append(record(3, 77));
    ledger.append(record(1, 55));
    assert_eq!(ledger.list_all(), vec![record(1, 55), record(2, 99), record(3, 77)]);
}

#[test]
fn listing_is_a_copy() {
    let mut ledger = TipLedger::new();
    ledger.append(record(1, 10));
    let mut listing = ledger.list_all();
    listing[0].amount = 0;
    listing.clear();
    assert_eq!(ledger.list_all(), vec![record(1, 10)]);
}
