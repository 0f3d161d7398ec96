//! The values that the escrow works on, each with its mathematical view.

use vstd::prelude::*;
use vstd::std_specs::cmp::PartialEqSpecImpl;

verus! {

/// One hundred percent, in basis points.
pub const BASIS_POINTS: u32 = 10000;

/// An account identifier: the textual key under which the transfer service
/// knows a payer, a payee, a recipient or a token.
#[derive(Debug)]
pub struct AccountId {
    pub key: String,
}

impl View for AccountId {
    type V = Seq<char>;

    open spec fn view(&self) -> Seq<char> {
        self.key@
    }
}

impl AccountId {
    /// The identifier with the given key.
    pub fn new(key: &str) -> (id: AccountId)
        ensures
            id@ == key@,
    {
        AccountId { key: key.to_owned() }
    }
}

impl Clone for AccountId {
    fn clone(&self) -> (copy: AccountId)
        ensures
            copy@ == self@,
    {
        AccountId { key: self.key.clone() }
    }
}

impl PartialEq for AccountId {
    fn eq(&self, other: &AccountId) -> (same: bool) {
        self.key == other.key
    }
}

impl PartialEqSpecImpl for AccountId {
    open spec fn obeys_eq_spec() -> bool {
        true
    }

    open spec fn eq_spec(&self, other: &AccountId) -> bool {
        self@ == other@
    }
}

/// One line of a payee's split table: `percentage` basis points of every tip
/// go to `recipient`.
#[derive(Debug)]
pub struct RoyaltySplit {
    pub recipient: AccountId,
    pub percentage: u32,
}

/// What a `RoyaltySplit` stands for.
pub struct RoyaltySplitView {
    pub recipient: Seq<char>,
    pub percentage: nat,
}

impl View for RoyaltySplit {
    type V = RoyaltySplitView;

    open spec fn view(&self) -> RoyaltySplitView {
        RoyaltySplitView { recipient: self.recipient@, percentage: self.percentage as nat }
    }
}

impl Clone for RoyaltySplit {
    fn clone(&self) -> (copy: RoyaltySplit)
        ensures
            copy@ == self@,
    {
        RoyaltySplit { recipient: self.recipient.clone(), percentage: self.percentage }
    }
}

impl PartialEq for RoyaltySplit {
    fn eq(&self, other: &RoyaltySplit) -> (same: bool) {
        self.recipient == other.recipient && self.percentage == other.percentage
    }
}

impl PartialEqSpecImpl for RoyaltySplit {
    open spec fn obeys_eq_spec() -> bool {
        true
    }

    open spec fn eq_spec(&self, other: &RoyaltySplit) -> bool {
        self@ == other@
    }
}

/// An instruction to the transfer service: move `amount` of `token` from
/// `from` to `to`.
#[derive(Debug)]
pub struct Transfer {
    pub token: AccountId,
    pub from: AccountId,
    pub to: AccountId,
    pub amount: i128,
}

/// What a `Transfer` stands for.
pub struct TransferView {
    pub token: Seq<char>,
    pub from: Seq<char>,
    pub to: Seq<char>,
    pub amount: int,
}

impl View for Transfer {
    type V = TransferView;

    open spec fn view(&self) -> TransferView {
        TransferView {
            token: self.token@,
            from: self.from@,
            to: self.to@,
            amount: self.amount as int,
        }
    }
}

impl Clone for Transfer {
    fn clone(&self) -> (copy: Transfer)
        ensures
            copy@ == self@,
    {
        Transfer {
            token: self.token.clone(),
            from: self.from.clone(),
            to: self.to.clone(),
            amount: self.amount,
        }
    }
}

impl PartialEq for Transfer {
    fn eq(&self, other: &Transfer) -> (same: bool) {
        self.token == other.token && self.from == other.from && self.to == other.to
            && self.amount == other.amount
    }
}

impl PartialEqSpecImpl for Transfer {
    open spec fn obeys_eq_spec() -> bool {
        true
    }

    open spec fn eq_spec(&self, other: &Transfer) -> bool {
        self@ == other@
    }
}

/// The ledger's entry for one tip. `amount` is the whole tip, not a share of
/// it.
#[derive(Debug)]
pub struct TipRecord {
    pub id: u64,
    pub sender: AccountId,
    pub artist: AccountId,
    pub amount: i128,
    pub timestamp: u64,
}

/// What a `TipRecord` stands for.
pub struct TipRecordView {
    pub id: nat,
    pub sender: Seq<char>,
    pub artist: Seq<char>,
    pub amount: int,
    pub timestamp: nat,
}

impl View for TipRecord {
    type V = TipRecordView;

    open spec fn view(&self) -> TipRecordView {
        TipRecordView {
            id: self.id as nat,
            sender: self.sender@,
            artist: self.artist@,
            amount: self.amount as int,
            timestamp: self.timestamp as nat,
        }
    }
}

impl Clone for TipRecord {
    fn clone(&self) -> (copy: TipRecord)
        ensures
            copy@ == self@,
    {
        TipRecord {
            id: self.id,
            sender: self.sender.clone(),
            artist: self.artist.clone(),
            amount: self.amount,
            timestamp: self.timestamp,
        }
    }
}

impl PartialEq for TipRecord {
    fn eq(&self, other: &TipRecord) -> (same: bool) {
        self.id == other.id && self.sender == other.sender && self.artist == other.artist
            && self.amount == other.amount && self.timestamp == other.timestamp
    }
}

impl PartialEqSpecImpl for TipRecord {
    open spec fn obeys_eq_spec() -> bool {
        true
    }

    open spec fn eq_spec(&self, other: &TipRecord) -> bool {
        self@ == other@
    }
}

/// Why an operation of the escrow was refused.
#[derive(Debug, Clone, Copy, PartialEq, Eq, Structural)]
pub enum TipError {
    /// The caller is not the identity that the operation is reserved for.
    Unauthorized,
    /// The percentages of a split table add up to more than the whole.
    InvalidConfiguration,
    /// The transfer service refused a transfer.
    TransferFailure,
}

/// The views of a table of splits, line by line.
pub open spec fn split_views(splits: Seq<RoyaltySplit>) -> Seq<RoyaltySplitView> {
    splits.map_values(|s: RoyaltySplit| s@)
}

/// The views of a list of transfers, one by one.
pub open spec fn transfer_views(transfers: Seq<Transfer>) -> Seq<TransferView> {
    transfers.map_values(|t: Transfer| t@)
}

/// The views of a list of tip records, one by one.
pub open spec fn record_views(records: Seq<TipRecord>) -> Seq<TipRecordView> {
    records.map_values(|r: TipRecord| r@)
}

} // verus!
