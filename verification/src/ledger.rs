//! The tip ledger: one record for each tip that went through, kept under the
//! record's identifier.

use vstd::prelude::*;
use crate::types::{record_views, TipRecord, TipRecordView};

verus! {

/// `listing` is `ledger` written out: every record of the ledger once, by
/// rising identifier, and nothing else.
pub open spec fn lists(listing: Seq<TipRecordView>, ledger: Map<nat, TipRecordView>) -> bool {
    &&& forall|i: int, j: int|
        0 <= i < j < listing.len() ==> (#[trigger] listing[i]).id < (#[trigger] listing[j]).id
    &&& forall|i: int|
        0 <= i < listing.len() ==> ledger.contains_key((#[trigger] listing[i]).id)
            && ledger[listing[i].id] == listing[i]
    &&& forall|id: nat| #[trigger]
        ledger.contains_key(id) ==> exists|i: int|
            0 <= i < listing.len() && (#[trigger] listing[i]).id == id
}

/// A listing without its last record lists the ledger without that record.
proof fn lemma_listing_without_last(listing: Seq<TipRecordView>, ledger: Map<nat, TipRecordView>)
    requires
        lists(listing, ledger),
        listing.len() > 0,
    ensures
        lists(listing.drop_last(), ledger.remove(listing.last().id)),
{
    let rest = listing.drop_last();
    let smaller = ledger.remove(listing.last().id);
    assert forall|id: nat| #[trigger] smaller.contains_key(id) implies exists|i: int|
        0 <= i < rest.len() && (#[trigger] rest[i]).id == id by {
        let i = choose|i: int| 0 <= i < listing.len() && (#[trigger] listing[i]).id == id;
        assert(rest[i] == listing[i]);
    }
    assert forall|i: int| 0 <= i < rest.len() implies smaller.contains_key(
        (#[trigger] rest[i]).id,
    ) && smaller[rest[i].id] == rest[i] by {
        assert(rest[i] == listing[i]);
    }
}

/// A listing is as long as its ledger is large.
pub proof fn lemma_listing_length(listing: Seq<TipRecordView>, ledger: Map<nat, TipRecordView>)
    requires
        lists(listing, ledger),
    ensures
        ledger.dom().finite(),
        ledger.dom().len() == listing.len(),
    decreases listing.len(),
{
    if listing.len() == 0 {
        assert(ledger.dom() =~= Set::<nat>::empty());
    } else {
        let last = listing.last();
        let smaller = ledger.remove(last.id);
        lemma_listing_without_last(listing, ledger);
        lemma_listing_length(listing.drop_last(), smaller);
        assert(ledger.dom() =~= smaller.dom().insert(last.id));
    }
}

/// A ledger has one listing only.
pub proof fn lemma_listing_unique(
    one: Seq<TipRecordView>,
    other: Seq<TipRecordView>,
    ledger: Map<nat, TipRecordView>,
)
    requires
        lists(one, ledger),
        lists(other, ledger),
    ensures
        one == other,
    decreases one.len(),
{
    lemma_listing_length(one, ledger);
    lemma_listing_length(other, ledger);
    if one.len() == 0 {
        assert(one =~= other);
    } else {
        let a = one.last();
        let b = other.last();
        assert(ledger.contains_key(a.id));
        assert(ledger.contains_key(b.id));
        let i = choose|i: int| 0 <= i < other.len() && (#[trigger] other[i]).id == a.id;
        let j = choose|j: int| 0 <= j < one.len() && (#[trigger] one[j]).id == b.id;
        assert(other[i].id <= b.id);
        assert(one[j].id <= a.id);
        assert(a == b);
        lemma_listing_without_last(one, ledger);
        lemma_listing_without_last(other, ledger);
        lemma_listing_unique(one.drop_last(), other.drop_last(), ledger.remove(a.id));
        assert(one =~= one.drop_last().push(a));
        assert(other =~= other.drop_last().push(b));
    }
}

/// A record that has just been put into a ledger is listed exactly once,
/// beside every record that was listed before under another identifier. The
/// listing has grown by that one record, unless the record took the place of
/// an older one with its identifier.
pub proof fn lemma_appended_record_is_listed(
    before: Map<nat, TipRecordView>,
    listing_before: Seq<TipRecordView>,
    record: TipRecordView,
    listing_after: Seq<TipRecordView>,
)
    requires
        lists(listing_before, before),
        lists(listing_after, before.insert(record.id, record)),
    ensures
        exists|i: int|
            {
                &&& 0 <= i < listing_after.len()
                &&& #[trigger] listing_after[i] == record
                &&& forall|j: int|
                    0 <= j < listing_after.len() && j != i ==> (#[trigger] listing_after[j]).id
                        != record.id
            },
        forall|i: int|
            0 <= i < listing_before.len() && (#[trigger] listing_before[i]).id != record.id
                ==> listing_after.contains(listing_before[i]),
        forall|j: int|
            0 <= j < listing_after.len() && (#[trigger] listing_after[j]).id != record.id
                ==> listing_before.contains(listing_after[j]),
        !before.contains_key(record.id) ==> listing_after.len() == listing_before.len() + 1,
        before.contains_key(record.id) ==> listing_after.len() == listing_before.len(),
{
    let after = before.insert(record.id, record);
    assert forall|i: int|
        0 <= i < listing_before.len() && (#[trigger] listing_before[i]).id
            != record.id implies listing_after.contains(listing_before[i]) by {
        let kept = listing_before[i];
        assert(after.contains_key(kept.id));
        let j = choose|j: int|
            0 <= j < listing_after.len() && (#[trigger] listing_after[j]).id == kept.id;
        assert(listing_after[j] == kept);
    }
    assert forall|j: int|
        0 <= j < listing_after.len() && (#[trigger] listing_after[j]).id
            != record.id implies listing_before.contains(listing_after[j]) by {
        let kept = listing_after[j];
        assert(before.contains_key(kept.id));
        let i = choose|i: int|
            0 <= i < listing_before.len() && (#[trigger] listing_before[i]).id == kept.id;
        assert(listing_before[i] == kept);
    }
    assert(after.contains_key(record.id));
    let i = choose|i: int|
        0 <= i < listing_after.len() && (#[trigger] listing_after[i]).id == record.id;
    assert(listing_after[i] == record);
    assert forall|j: int| 0 <= j < listing_after.len() && j != i implies (
    #[trigger] listing_after[j]).id != record.id by {
        if j < i {
            assert(listing_after[j].id < listing_after[i].id);
        } else {
            assert(listing_after[i].id < listing_after[j].id);
        }
    }
    lemma_listing_length(listing_before, before);
    lemma_listing_length(listing_after, after);
    if before.contains_key(record.id) {
        assert(after.dom() =~= before.dom());
    }
}

/// The ledger of all tips. It only grows: a record is never taken out, and
/// it changes only where a later record arrives under its identifier.
#[derive(Debug)]
pub struct TipLedger {
    records: Vec<TipRecord>,
}

impl TipLedger {
    #[verifier::type_invariant]
    spec fn well_formed(&self) -> bool {
        forall|i: int, j: int|
            0 <= i < j < self.records.len() ==> (#[trigger] self.records[i]).id < (
            #[trigger] self.records[j]).id
    }

    spec fn holds(&self, i: int, id: nat) -> bool {
        0 <= i < self.records.len() && self.records[i].id == id
    }

    /// The ledger as a map from identifier to record.
    pub closed spec fn view(&self) -> Map<nat, TipRecordView> {
        Map::new(
            |id: nat| exists|i: int| self.holds(i, id),
            |id: nat| self.records[choose|i: int| self.holds(i, id)]@,
        )
    }

    /// A ledger without any record.
    pub fn new() -> (ledger: TipLedger)
        ensures
            ledger@ == Map::<nat, TipRecordView>::empty(),
    {
        let ledger = TipLedger { records: Vec::new() };
        assert(ledger@ =~= Map::<nat, TipRecordView>::empty());
        ledger
    }

    /// `append`: stores `record` under its identifier. A record that was
    /// there under the same identifier gives way to it.
    pub fn append(&mut self, record: TipRecord)
        ensures
            final(self)@ == old(self)@.insert(record.id as nat, record@),
    {
        proof {
            use_type_invariant(&*self);
        }
        let ghost before = *self;
        let ghost stored = record@;
        let mut records: Vec<TipRecord> = Vec::new();
        std::mem::swap(&mut records, &mut self.records);
        let mut k: usize = records.len();
        while k > 0 && records[k - 1].id > record.id
            invariant
                0 <= k <= records.len(),
                records == before.records,
                forall|j: int| k <= j < records.len() ==> (#[trigger] records[j]).id > record.id,
            decreases k,
        {
            k = k - 1;
        }
        if k > 0 && records[k - 1].id == record.id {
            records.set(k - 1, record);
            self.records = records;
            proof {
                before.lemma_record_replaced(*self, k - 1, stored);
            }
        } else {
            records.insert(k, record);
            proof {
                assert forall|i: int, j: int| 0 <= i < j < records.len() implies (
                #[trigger] records[i]).id < (#[trigger] records[j]).id by {
                    let a = if i < k { i } else { i - 1 };
                    let b = if j < k { j } else { j - 1 };
                    if i != k {
                        assert(records[i] == before.records[a]);
                    }
                    if j != k {
                        assert(records[j] == before.records[b]);
                    }
                    if k > 0 {
                        assert(before.records[k - 1].id < stored.id);
                    }
                }
            }
            self.records = records;
            proof {
                before.lemma_record_inserted(*self, k as int, stored);
            }
        }
    }

    /// A record written over the one at the place `k`, which has its
    /// identifier, is an `insert` into the map.
    proof fn lemma_record_replaced(self, after: TipLedger, k: int, record: TipRecordView)
        requires
            self.well_formed(),
            after.well_formed(),
            self.holds(k, record.id),
            after.records@ == self.records@.update(k, after.records[k]),
            after.records[k]@ == record,
        ensures
            after@ == self@.insert(record.id, record),
    {
        let expected = self@.insert(record.id, record);
        assert(after.holds(k, record.id));
        assert forall|id: nat| #[trigger] after@.contains_key(id) == expected.contains_key(
            id,
        ) by {
            if expected.contains_key(id) && id != record.id {
                let i = choose|i: int| self.holds(i, id);
                assert(after.holds(i, id));
            }
            if after@.contains_key(id) {
                let i = choose|i: int| after.holds(i, id);
                if i != k {
                    assert(self.holds(i, id));
                }
            }
        }
        assert forall|id: nat| #[trigger] after@.contains_key(id) implies after@[id]
            == expected[id] by {
            let i = choose|i: int| after.holds(i, id);
            if id == record.id {
                assert(i == k);
            } else {
                assert(self.holds(i, id));
                let j = choose|j: int| self.holds(j, id);
                assert(i == j);
            }
        }
        assert(after@ =~= expected);
    }

    /// A record put in at the place `k`, into a ledger that has none with
    /// its identifier, is an `insert` into the map.
    proof fn lemma_record_inserted(self, after: TipLedger, k: int, record: TipRecordView)
        requires
            self.well_formed(),
            after.well_formed(),
            0 <= k <= self.records.len(),
            after.records.len() == self.records.len() + 1,
            after.records@ == self.records@.insert(k, after.records[k]),
            after.records[k]@ == record,
        ensures
            after@ == self@.insert(record.id, record),
    {
        let expected = self@.insert(record.id, record);
        assert(after.holds(k, record.id));
        assert forall|id: nat| #[trigger] after@.contains_key(id) == expected.contains_key(
            id,
        ) by {
            if expected.contains_key(id) && id != record.id {
                let i = choose|i: int| self.holds(i, id);
                if i < k {
                    assert(after.holds(i, id));
                } else {
                    assert(after.holds(i + 1, id));
                }
            }
            if after@.contains_key(id) {
                let i = choose|i: int| after.holds(i, id);
                if i < k {
                    assert(self.holds(i, id));
                } else if i > k {
                    assert(self.holds(i - 1, id));
                }
            }
        }
        assert forall|id: nat| #[trigger] after@.contains_key(id) implies after@[id]
            == expected[id] by {
            let i = choose|i: int| after.holds(i, id);
            if id == record.id {
                assert(i == k);
            } else {
                let j = choose|j: int| self.holds(j, id);
                if i < k {
                    assert(self.holds(i, id));
                    assert(i == j);
                } else {
                    assert(self.holds(i - 1, id));
                    assert(i - 1 == j);
                }
            }
        }
        assert(after@ =~= expected);
    }

    /// `list_all`: every record of the ledger, by rising identifier.
    pub fn list_all(&self) -> (all: Vec<TipRecord>)
        ensures
            lists(record_views(all@), self@),
    {
        proof {
            use_type_invariant(self);
        }
        let all = self.records.clone();
        proof {
            let listing = record_views(all@);
            assert forall|j: int| 0 <= j < listing.len() implies self@.contains_key(
                (#[trigger] listing[j]).id,
            ) && self@[listing[j].id] == listing[j] by {
                assert(self.holds(j, listing[j].id));
                let c = choose|c: int| self.holds(c, listing[j].id);
                assert(c == j);
            }
            assert forall|id: nat| #[trigger] self@.contains_key(id) implies exists|j: int|
                0 <= j < listing.len() && (#[trigger] listing[j]).id == id by {
                let c = choose|c: int| self.holds(c, id);
                assert(listing[c].id == id);
            }
        }
        all
    }
}

} // verus!
