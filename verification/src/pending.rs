//! A tip on its way: the transfers it was split into, and how far the
//! transfer service has come with them.
//!
//! The escrow moves no value itself. It hands the transfers of a tip out one
//! at a time, waits to hear of each whether the service accepted it, and
//! hands out no further one after a refusal.

use vstd::prelude::*;
use crate::types::{
    transfer_views, AccountId, TipRecord, TipRecordView, Transfer, TransferView,
};

verus! {

/// A tip on its way.
#[derive(Debug)]
pub struct PendingTip {
    sender: AccountId,
    artist: AccountId,
    amount: i128,
    transfers: Vec<Transfer>,
    settled: usize,
    failed: bool,
}

/// What a `PendingTip` stands for.
pub struct PendingTipView {
    /// Who pays.
    pub sender: Seq<char>,
    /// Whom the tip is for.
    pub artist: Seq<char>,
    /// The whole tip.
    pub amount: int,
    /// All transfers of the tip, in the order of issue.
    pub plan: Seq<TransferView>,
    /// How many of them the transfer service has accepted.
    pub settled: nat,
    /// Whether the transfer service has refused one.
    pub failed: bool,
}

impl PendingTipView {
    /// No more transfers are counted as accepted than the tip has.
    pub open spec fn well_formed(self) -> bool {
        self.settled <= self.plan.len()
    }

    /// The transfer that is to be carried out next: the first that is not
    /// yet accepted, as long as none was refused.
    pub open spec fn next(self) -> Option<TransferView> {
        if !self.failed && self.settled < self.plan.len() {
            Some(self.plan[self.settled as int])
        } else {
            None
        }
    }

    /// The tip once the transfer service has answered for the transfer that
    /// was next. Where none was next, the answer changes nothing.
    pub open spec fn after(self, accepted: bool) -> PendingTipView {
        if self.next() is None {
            self
        } else if accepted {
            PendingTipView { settled: self.settled + 1, ..self }
        } else {
            PendingTipView { failed: true, ..self }
        }
    }

    /// Every transfer of the tip was accepted.
    pub open spec fn complete(self) -> bool {
        !self.failed && self.settled == self.plan.len()
    }

    /// The tip as it begins: nothing accepted, nothing refused.
    pub open spec fn fresh(self) -> bool {
        self.settled == 0 && !self.failed
    }

    /// The tip once the transfer service has given `answers`, one after the
    /// other.
    pub open spec fn after_all(self, answers: Seq<bool>) -> PendingTipView
        decreases answers.len(),
    {
        if answers.len() == 0 {
            self
        } else {
            self.after_all(answers.drop_last()).after(answers.last())
        }
    }
}

/// All or nothing: a tip becomes complete exactly when the transfer service
/// has accepted every one of its transfers, and so without any refusal
/// before the last of them.
pub proof fn lemma_complete_when_all_accepted(tip: PendingTipView, answers: Seq<bool>)
    requires
        tip.fresh(),
    ensures
        tip.after_all(answers).plan == tip.plan,
        tip.after_all(answers).complete() <==> tip.plan.len() <= answers.len() && forall|i: int|
            0 <= i < tip.plan.len() ==> answers[i],
{
    lemma_progress(tip, answers);
}

/// Where a tip stands after `answers`: it has counted the answers up to the
/// first refusal, and no further than its last transfer.
proof fn lemma_progress(tip: PendingTipView, answers: Seq<bool>)
    requires
        tip.fresh(),
    ensures
        ({
            let now = tip.after_all(answers);
            &&& now.plan == tip.plan
            &&& now.settled <= tip.plan.len()
            &&& now.settled <= answers.len()
            &&& forall|i: int| 0 <= i < now.settled ==> answers[i]
            &&& !now.failed ==> now.settled == tip.plan.len() || now.settled == answers.len()
            &&& now.failed ==> now.settled < tip.plan.len() && now.settled < answers.len()
                && !answers[now.settled as int]
        }),
    decreases answers.len(),
{
    if answers.len() > 0 {
        let earlier = answers.drop_last();
        let then = tip.after_all(earlier);
        lemma_progress(tip, earlier);
        assert(tip.after_all(answers) == then.after(answers.last()));
        assert forall|i: int| 0 <= i < earlier.len() implies earlier[i] == answers[i] by {}
    }
}

impl View for PendingTip {
    type V = PendingTipView;

    closed spec fn view(&self) -> PendingTipView {
        PendingTipView {
            sender: self.sender@,
            artist: self.artist@,
            amount: self.amount as int,
            plan: transfer_views(self.transfers@),
            settled: self.settled as nat,
            failed: self.failed,
        }
    }
}

impl PendingTip {
    #[verifier::type_invariant]
    spec fn within_plan(&self) -> bool {
        self.settled <= self.transfers.len()
    }

    /// A tip of `amount` from `sender` for `artist`, of whose `transfers`
    /// none is carried out yet.
    pub(crate) fn begin(
        sender: &AccountId,
        artist: &AccountId,
        amount: i128,
        transfers: Vec<Transfer>,
    ) -> (tip: PendingTip)
        ensures
            tip@ == (PendingTipView {
                sender: sender@,
                artist: artist@,
                amount: amount as int,
                plan: transfer_views(transfers@),
                settled: 0,
                failed: false,
            }),
    {
        PendingTip {
            sender: sender.clone(),
            artist: artist.clone(),
            amount,
            transfers,
            settled: 0,
            failed: false,
        }
    }

    /// The transfer to carry out next, or `None` where the tip has none
    /// left or one was refused.
    pub fn next_transfer(&self) -> (next: Option<&Transfer>)
        ensures
            self@.well_formed(),
            match next {
                Some(transfer) => self@.next() == Some(transfer@),
                None => self@.next() is None,
            },
    {
        proof {
            use_type_invariant(self);
        }
        if !self.failed && self.settled < self.transfers.len() {
            Some(&self.transfers[self.settled])
        } else {
            None
        }
    }

    /// Takes the transfer service's answer for the transfer that was next.
    pub fn transfer_settled(&mut self, accepted: bool)
        ensures
            final(self)@ == old(self)@.after(accepted),
            final(self)@.well_formed(),
    {
        proof {
            use_type_invariant(&*self);
        }
        if !self.failed && self.settled < self.transfers.len() {
            if accepted {
                self.settled = self.settled + 1;
            } else {
                self.failed = true;
            }
        }
    }

    /// The record of the tip under the identifier `id`, at the time
    /// `timestamp`.
    pub(crate) fn into_record(self, id: u64, timestamp: u64) -> (record: TipRecord)
        ensures
            record@ == (TipRecordView {
                id: id as nat,
                sender: self@.sender,
                artist: self@.artist,
                amount: self@.amount,
                timestamp: timestamp as nat,
            }),
    {
        TipRecord { id, sender: self.sender, artist: self.artist, amount: self.amount, timestamp }
    }

    /// Whether every transfer of the tip was accepted.
    pub fn is_complete(&self) -> (complete: bool)
        ensures
            complete == self@.complete(),
    {
        !self.failed && self.settled == self.transfers.len()
    }
}

} // verus!
