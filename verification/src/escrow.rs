//! The escrow as a whole: the split registry, the tip ledger, and the
//! operations that callers see.

use vstd::prelude::*;
use crate::engine::{distribute, payment, total_amount, transfers};
use crate::ledger::{lemma_appended_record_is_listed, lists, TipLedger};
use crate::pending::{PendingTip, PendingTipView};
use crate::registry::{set_outcome, valid_configuration, SplitRegistry};
use crate::types::{
    record_views, split_views, AccountId, RoyaltySplit, RoyaltySplitView, TipError, TipRecord,
    TipRecordView,
};

verus! {

/// The state of the escrow: the split table of each payee that has one, and
/// the record of each tip that went through.
#[derive(Debug)]
pub struct TipEscrowContract {
    registry: SplitRegistry,
    ledger: TipLedger,
}

/// The record of `tip`, made under the sequence number `sequence` at the
/// time `timestamp`: it holds the whole tip, not any share of it.
pub open spec fn record_of(tip: PendingTipView, sequence: u32, timestamp: u64) -> TipRecordView {
    TipRecordView {
        id: sequence as nat,
        sender: tip.sender,
        artist: tip.artist,
        amount: tip.amount,
        timestamp: timestamp as nat,
    }
}

impl TipEscrowContract {
    /// The split tables, by payee.
    pub closed spec fn splits(&self) -> Map<Seq<char>, Seq<RoyaltySplitView>> {
        self.registry@
    }

    /// The tip records, by identifier.
    pub closed spec fn tips(&self) -> Map<nat, TipRecordView> {
        self.ledger@
    }

    /// The split table of `payee`, if it has one.
    pub open spec fn configuration(&self, payee: Seq<char>) -> Option<Seq<RoyaltySplitView>> {
        if self.splits().contains_key(payee) {
            Some(self.splits()[payee])
        } else {
            None
        }
    }

    /// An escrow without split tables and without tips.
    pub fn new() -> (contract: TipEscrowContract)
        ensures
            contract.splits() == Map::<Seq<char>, Seq<RoyaltySplitView>>::empty(),
            contract.tips() == Map::<nat, TipRecordView>::empty(),
    {
        TipEscrowContract { registry: SplitRegistry::new(), ledger: TipLedger::new() }
    }

    /// Replaces the split table of `artist` by `splits`. The caller must be
    /// the artist, and the percentages must not add up to more than 10000
    /// basis points; a refused call leaves the table as it was.
    pub fn set_royalty_splits(
        &mut self,
        caller: &AccountId,
        artist: &AccountId,
        splits: Vec<RoyaltySplit>,
    ) -> (done: Result<(), TipError>)
        ensures
            done == set_outcome(caller@, artist@, split_views(splits@)),
            done is Ok ==> final(self).splits() == old(self).splits().insert(
                artist@,
                split_views(splits@),
            ),
            done is Err ==> final(self).splits() == old(self).splits(),
            final(self).tips() == old(self).tips(),
    {
        self.registry.set(caller, artist, splits)
    }

    /// The split table of `artist`, or `None` where the artist has none.
    pub fn get_royalty_splits(&self, artist: &AccountId) -> (found: Option<Vec<RoyaltySplit>>)
        ensures
            match found {
                Some(splits) => self.configuration(artist@) == Some(split_views(splits@))
                    && valid_configuration(split_views(splits@)),
                None => self.configuration(artist@) is None,
            },
    {
        self.registry.get(artist)
    }

    /// The records of all tips, by rising identifier.
    pub fn get_tips(&self) -> (all: Vec<TipRecord>)
        ensures
            lists(record_views(all@), self.tips()),
    {
        self.ledger.list_all()
    }

    /// Begins a tip of `amount` of `token` from `sender` to `artist`: decides
    /// its transfers, of which none is carried out yet. The caller must be
    /// the sender. Nothing is recorded before `record_tip`.
    pub fn send_tip(
        &self,
        caller: &AccountId,
        sender: &AccountId,
        artist: &AccountId,
        token: &AccountId,
        amount: i128,
    ) -> (begun: Result<PendingTip, TipError>)
        ensures
            match begun {
                Ok(tip) => caller@ == sender@ && tip@ == (PendingTipView {
                    sender: sender@,
                    artist: artist@,
                    amount: amount as int,
                    plan: transfers(
                        token@,
                        sender@,
                        artist@,
                        amount as int,
                        self.configuration(artist@),
                    ),
                    settled: 0,
                    failed: false,
                }),
                Err(e) => caller@ != sender@ && e == TipError::Unauthorized,
            },
            begun is Ok && self.configuration(artist@) is None ==> begun->Ok_0@.plan
                == seq![payment(token@, sender@, artist@, amount as int)],
            begun is Ok && amount >= 0 ==> total_amount(begun->Ok_0@.plan) == amount,
    {
        if *caller != *sender {
            return Err(TipError::Unauthorized);
        }
        let plan = distribute(&self.registry, sender, artist, token, amount);
        Ok(PendingTip::begin(sender, artist, amount, plan))
    }

    /// Ends a tip. Where the transfer service accepted every transfer of
    /// `tip`, its record goes into the ledger under the identifier
    /// `sequence`, and that identifier is returned. Otherwise the tip has
    /// failed and nothing is recorded.
    pub fn record_tip(
        &mut self,
        tip: PendingTip,
        sequence: u32,
        timestamp: u64,
    ) -> (done: Result<u64, TipError>)
        ensures
            final(self).splits() == old(self).splits(),
            match done {
                Ok(id) => {
                    &&& tip@.complete()
                    &&& id == sequence
                    &&& final(self).tips() == old(self).tips().insert(
                        id as nat,
                        record_of(tip@, sequence, timestamp),
                    )
                },
                Err(e) => {
                    &&& !tip@.complete()
                    &&& e == TipError::TransferFailure
                    &&& final(self).tips() == old(self).tips()
                },
            },
    {
        if !tip.is_complete() {
            return Err(TipError::TransferFailure);
        }
        let id: u64 = sequence as u64;
        let record = tip.into_record(id, timestamp);
        self.ledger.append(record);
        Ok(id)
    }
}

/// A tip that went through is listed by `get_tips` exactly once, with the
/// whole amount of the tip, beside every record that was listed before under
/// another identifier. The listing has grown by this one record, unless an
/// older record had the same identifier and gave way to it.
pub proof fn lemma_recorded_tip_is_listed(
    tip: PendingTipView,
    sequence: u32,
    timestamp: u64,
    before: Map<nat, TipRecordView>,
    listing_before: Seq<TipRecordView>,
    listing_after: Seq<TipRecordView>,
)
    requires
        lists(listing_before, before),
        lists(listing_after, before.insert(sequence as nat, record_of(tip, sequence, timestamp))),
    ensures
        exists|i: int|
            {
                &&& 0 <= i < listing_after.len()
                &&& #[trigger] listing_after[i] == record_of(tip, sequence, timestamp)
                &&& listing_after[i].amount == tip.amount
                &&& forall|j: int|
                    0 <= j < listing_after.len() && j != i ==> (#[trigger] listing_after[j]).id
                        != sequence
            },
        forall|i: int|
            0 <= i < listing_before.len() && (#[trigger] listing_before[i]).id != sequence
                ==> listing_after.contains(listing_before[i]),
        forall|j: int|
            0 <= j < listing_after.len() && (#[trigger] listing_after[j]).id != sequence
                ==> listing_before.contains(listing_after[j]),
        !before.contains_key(sequence as nat) ==> listing_after.len() == listing_before.len() + 1,
        before.contains_key(sequence as nat) ==> listing_after.len() == listing_before.len(),
{
    lemma_appended_record_is_listed(
        before,
        listing_before,
        record_of(tip, sequence, timestamp),
        listing_after,
    );
}

} // verus!
