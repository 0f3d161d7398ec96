use tip_escrow::{
    AccountId, PendingTip, RoyaltySplit, TipError, TipEscrowContract, TipRecord, Transfer,
};

fn id(key: &str) -> AccountId {
    AccountId::new(key)
}

fn line(recipient: &str, percentage: u32) -> RoyaltySplit {
    RoyaltySplit { recipient: id(recipient), percentage }
}

fn pay(to: &str, amount: i128) -> Transfer {
    Transfer { token: id("token"), from: id("fan"), to: id(to), amount }
}

fn record(id_: u64, amount: i128, timestamp: u64) -> TipRecord {
    TipRecord { id: id_, sender: id("fan"), artist: id("artist"), amount, timestamp }
}

fn begin(contract: &TipEscrowContract, amount: i128) -> PendingTip {
    match contract.send_tip(&id("fan"), &id("fan"), &id("artist"), &id("token"), amount) {
        Ok(tip) => tip,
        Err(e) => panic!("refused: {:?}", e),
    }
}

/// Carries a tip through a transfer service that accepts the first `accepts`
/// transfers; gives what it was asked to transfer.
fn drive(tip: &mut PendingTip, accepts: usize) -> Vec<Transfer> {
    let mut issued: Vec<Transfer> = Vec::new();
    loop {
        let next = match tip.next_transfer() {
            Some(transfer) => transfer.clone(),
            None => break,
        };
        let accepted = issued.len() < accepts;
        issued.push(next);
        tip.transfer_settled(accepted);
    }
    issued
}

fn with_table(splits: Vec<RoyaltySplit>) -> TipEscrowContract {
    let mut contract = TipEscrowContract::new();
    assert_eq!(contract.set_royalty_splits(&id("artist"), &id("artist"), splits), Ok(()));
    contract
}

#[test]
fn tip_with_two_splits() {
    let mut contract = with_table(vec![line("r1", 3000), line("r2", 2000)]);
    let mut tip = begin(&contract, 101);
    assert_eq!(drive(&mut tip, 3), vec![pay("r1", 30), pay("r2", 20), pay("artist", 51)]);
    assert!(tip.is_complete());
    assert_eq!(contract.record_tip(tip, 12, 1700), Ok(12));
    assert_eq!(contract.get_tips(), vec![record(12, 101, 1700)]);
}

#[test]
fn tip_without_splits() {
    let mut contract = TipEscrowContract::new();
    let mut tip = begin(&contract, 500);
    assert_eq!(drive(&mut tip, 1), vec![pay("artist", 500)]);
    assert_eq!(contract.record_tip(tip, 1, 2), Ok(1));
    assert_eq!(contract.get_tips(), vec![record(1, 500, 2)]);
}

#[test]
fn tip_with_one_whole_split() {
    let mut contract = with_table(vec![line("r1", 10000)]);
    let mut tip = begin(&contract, 7);
    assert_eq!(drive(&mut tip, 1), vec![pay("r1", 7)]);
    assert_eq!(contract.record_tip(tip, 3, 4), Ok(3));
    assert_eq!(contract.get_tips(), vec![record(3, 7, 4)]);
}

#[test]
fn splits_above_the_whole_are_refused() {
    let mut contract = TipEscrowContract::new();
    assert_eq!(
        contract.set_royalty_splits(&id("artist"), &id("artist"), vec![line("r1", 5000), line("r2", 5001)]),
        Err(TipError::InvalidConfiguration)
    );
    assert_eq!(contract.get_royalty_splits(&id("artist")), None);
    let old = vec![line("r1", 3000), line("r2", 2000)];
    assert_eq!(contract.set_royalty_splits(&id("artist"), &id("artist"), old.clone()), Ok(()));
    assert_eq!(
        contract.set_royalty_splits(&id("artist"), &id("artist"), vec![line("r3", 10001)]),
        Err(TipError::InvalidConfiguration)
    );
    assert_eq!(contract.get_royalty_splits(&id("artist")), Some(old));
}

#[test]
fn splits_are_set_by_the_artist_only() {
    let mut contract = TipEscrowContract::new();
    assert_eq!(
        contract.set_royalty_splits(&id("fan"), &id("artist"), vec![line("fan", 10000)]),
        Err(TipError::Unauthorized)
    );
    assert_eq!(contract.get_royalty_splits(&id("artist")), None);
    assert_eq!(contract.get_tips(), vec![]);
}

#[test]
fn setting_splits_writes_no_tip() {
    let contract = with_table(vec![line("r1", 1)]);
    assert_eq!(contract.get_tips(), vec![]);
    assert_eq!(contract.get_royalty_splits(&id("artist")), Some(vec![line("r1", 1)]));
}

#[test]
fn tip_is_sent_by_the_sender_only() {
    let contract = TipEscrowContract::new();
    let refused = contract.send_tip(&id("mallory"), &id("fan"), &id("artist"), &id("token"), 10);
    assert_eq!(refused.unwrap_err(), TipError::Unauthorized);
    let refused = contract.send_tip(&id("artist"), &id("fan"), &id("artist"), &id("token"), 10);
    assert_eq!(refused.unwrap_err(), TipError::Unauthorized);
    assert!(contract.send_tip(&id("fan"), &id("fan"), &id("artist"), &id("token"), 10).is_ok());
}

#[test]
fn nothing_is_recorded_before_the_transfers_are_done() {
    let mut contract = with_table(vec![line("r1", 5000)]);
    let tip = begin(&contract, 100);
    assert_eq!(contract.get_tips(), vec![]);
    assert!(!tip.is_complete());
    assert_eq!(contract.record_tip(tip, 1, 1), Err(TipError::TransferFailure));
    assert_eq!(contract.get_tips(), vec![]);
}

#[test]
fn refused_transfer_ends_the_tip() {
    let mut contract = with_table(vec![line("r1", 3000), line("r2", 2000)]);
    let mut tip = begin(&contract, 101);
    // the second transfer is refused: the third is never handed out
    assert_eq!(drive(&mut tip, 1), vec![pay("r1", 30), pay("r2", 20)]);
    assert!(tip.next_transfer().is_none());
    assert!(!tip.is_complete());
    tip.transfer_settled(true);
    assert!(tip.next_transfer().is_none());
    assert!(!tip.is_complete());
    assert_eq!(contract.record_tip(tip, 8, 9), Err(TipError::TransferFailure));
    assert_eq!(contract.get_tips(), vec![]);
    assert_eq!(contract.get_royalty_splits(&id("artist")), Some(vec![line("r1", 3000), line("r2", 2000)]));
}

#[test]
fn refused_first_transfer_ends_the_tip() {
    let mut contract = TipEscrowContract::new();
    let mut tip = begin(&contract, 500);
    assert_eq!(drive(&mut tip, 0), vec![pay("artist", 500)]);
    assert_eq!(contract.record_tip(tip, 8, 9), Err(TipError::TransferFailure));
    assert_eq!(contract.get_tips(), vec![]);
}

#[test]
fn next_transfer_stays_until_it_is_settled() {
    let contract = with_table(vec![line("r1", 5000)]);
    let mut tip = begin(&contract, 10);
    assert_eq!(tip.next_transfer(), Some(&pay("r1", 5)));
    assert_eq!(tip.next_transfer(), Some(&pay("r1", 5)));
    tip.transfer_settled(true);
    assert_eq!(tip.next_transfer(), Some(&pay("artist", 5)));
    tip.transfer_settled(true);
    assert_eq!(tip.next_transfer(), None);
    assert!(tip.is_complete());
    tip.transfer_settled(false);
    assert!(tip.is_complete());
}

#[test]
fn tip_without_transfers_is_complete_at_once() {
    let mut contract = with_table(vec![line("r1", 5000)]);
    let tip = begin(&contract, 0);
    assert_eq!(tip.next_transfer(), None);
    assert!(tip.is_complete());
    assert_eq!(contract.record_tip(tip, 4, 5), Ok(4));
    assert_eq!(contract.get_tips(), vec![record(4, 0, 5)]);
}

#[test]
fn each_tip_adds_one_record_with_the_whole_amount() {
    let mut contract = with_table(vec![line("r1", 2500), line("r2", 2500)]);
    let amounts: Vec<i128> = vec![101, 7, 0, 1_000_000];
    for (n, amount) in amounts.iter().enumerate() {
        let before = contract.get_tips();
        let mut tip = begin(&contract, *amount);
        drive(&mut tip, usize::MAX);
        let sequence = 100 + n as u32;
        assert_eq!(contract.record_tip(tip, sequence, 50), Ok(sequence as u64));
        let after = contract.get_tips();
        assert_eq!(after.len(), before.len() + 1);
        let new: Vec<&TipRecord> = after.iter().filter(|r| r.id == sequence as u64).collect();
        assert_eq!(new, vec![&record(sequence as u64, *amount, 50)]);
        for old in &before {
            assert!(after.contains(old));
        }
    }
}

#[test]
fn identifier_is_the_sequence_number() {
    let mut contract = TipEscrowContract::new();
    let mut tip = begin(&contract, 1);
    drive(&mut tip, 1);
    assert_eq!(contract.record_tip(tip, u32::MAX, u64::MAX), Ok(4294967295));
    assert_eq!(contract.get_tips(), vec![record(4294967295, 1, u64::MAX)]);
}

#[test]
fn two_tips_under_one_sequence_number_share_a_record() {
    let mut contract = TipEscrowContract::new();
    let mut first = begin(&contract, 10);
    drive(&mut first, 1);
    assert_eq!(contract.record_tip(first, 5, 100), Ok(5));
    let mut second = begin(&contract, 20);
    drive(&mut second, 1);
    assert_eq!(contract.record_tip(second, 5, 101), Ok(5));
    assert_eq!(contract.get_tips(), vec![record(5, 20, 101)]);
}

#[test]
fn tips_are_listed_by_rising_identifier() {
    let mut contract = TipEscrowContract::new();
    for sequence in [30u32, 10, 20] {
        let mut tip = begin(&contract, sequence as i128);
        drive(&mut tip, 1);
        assert_eq!(contract.record_tip(tip, sequence, 0), Ok(sequence as u64));
    }
    assert_eq!(contract.get_tips(), vec![record(10, 10, 0), record(20, 20, 0), record(30, 30, 0)]);
}

#[test]
fn table_that_is_set_while_a_tip_is_pending_does_not_change_it() {
    let mut contract = with_table(vec![line("r1", 5000)]);
    let mut tip = begin(&contract, 100);
    assert_eq!(contract.set_royalty_splits(&id("artist"), &id("artist"), vec![line("r2", 10000)]), Ok(()));
    assert_eq!(drive(&mut tip, 2), vec![pay("r1", 50), pay("artist", 50)]);
    let mut later = begin(&contract, 100);
    assert_eq!(drive(&mut later, 1), vec![pay("r2", 100)]);
}

#[test]
fn sending_a_tip_leaves_the_splits_alone() {
    let mut contract = with_table(vec![line("r1", 5000)]);
    let mut tip = begin(&contract, 100);
    drive(&mut tip, 2);
    assert_eq!(contract.record_tip(tip, 1, 1), Ok(1));
    assert_eq!(contract.get_royalty_splits(&id("artist")), Some(vec![line("r1", 5000)]));
}
