//! The split registry: for each payee, the table that says which part of a
//! tip goes to whom.

use vstd::prelude::*;
use crate::types::{
    split_views, AccountId, RoyaltySplit, RoyaltySplitView, TipError, BASIS_POINTS,
};

verus! {

/// The sum of the percentages of a split table, in basis points.
pub open spec fn total_percentage(splits: Seq<RoyaltySplitView>) -> nat
    decreases splits.len(),
{
    if splits.len() == 0 {
        0
    } else {
        total_percentage(splits.drop_last()) + splits.last().percentage
    }
}

/// A split table is valid when it gives away no more than the whole tip.
pub open spec fn valid_configuration(splits: Seq<RoyaltySplitView>) -> bool {
    total_percentage(splits) <= BASIS_POINTS
}

/// The first `n` lines of a table sum to no more than the whole table.
pub proof fn lemma_total_percentage_prefix(splits: Seq<RoyaltySplitView>, n: int)
    requires
        0 <= n <= splits.len(),
    ensures
        total_percentage(splits.take(n)) <= total_percentage(splits),
    decreases splits.len() - n,
{
    if n == splits.len() {
        assert(splits.take(n) =~= splits);
    } else {
        assert(splits.take(n + 1).drop_last() =~= splits.take(n));
        lemma_total_percentage_prefix(splits, n + 1);
    }
}

/// No line of a table is larger than the table's sum.
pub proof fn lemma_line_within_total(splits: Seq<RoyaltySplitView>, i: int)
    requires
        0 <= i < splits.len(),
    ensures
        splits[i].percentage <= total_percentage(splits),
{
    assert(splits.take(i + 1).drop_last() =~= splits.take(i));
    lemma_total_percentage_prefix(splits, i + 1);
}

/// Checks the rule on split tables: the percentages must not add up to more
/// than 10000 basis points.
pub fn validate_splits(splits: &Vec<RoyaltySplit>) -> (checked: Result<(), TipError>)
    ensures
        checked is Ok <==> valid_configuration(split_views(splits@)),
        checked is Err ==> checked == Err::<(), TipError>(TipError::InvalidConfiguration),
{
    let ghost lines = split_views(splits@);
    let mut total: u64 = 0;
    let mut i: usize = 0;
    while i < splits.len()
        invariant
            0 <= i <= splits.len(),
            lines == split_views(splits@),
            total == total_percentage(lines.take(i as int)),
            total <= BASIS_POINTS,
        decreases splits.len() - i,
    {
        proof {
            assert(lines.take(i + 1).drop_last() =~= lines.take(i as int));
            lemma_total_percentage_prefix(lines, i + 1);
        }
        total = total + splits[i].percentage as u64;
        if total > BASIS_POINTS as u64 {
            return Err(TipError::InvalidConfiguration);
        }
        i = i + 1;
    }
    proof {
        assert(lines.take(i as int) =~= lines);
    }
    Ok(())
}

/// One payee's table.
#[derive(Debug)]
struct RegistryEntry {
    payee: AccountId,
    splits: Vec<RoyaltySplit>,
}

/// The split tables of all payees. A payee has at most one table, and every
/// table in the registry is valid.
#[derive(Debug)]
pub struct SplitRegistry {
    entries: Vec<RegistryEntry>,
}

impl SplitRegistry {
    #[verifier::type_invariant]
    spec fn well_formed(&self) -> bool {
        &&& forall|i: int, j: int|
            0 <= i < j < self.entries.len() ==> self.entries[i].payee@ != self.entries[j].payee@
        &&& forall|i: int|
            0 <= i < self.entries.len() ==> valid_configuration(
                split_views(#[trigger] self.entries[i].splits@),
            )
    }

    spec fn holds(&self, i: int, payee: Seq<char>) -> bool {
        0 <= i < self.entries.len() && self.entries[i].payee@ == payee
    }

    /// The registry as a map from payee to table.
    pub closed spec fn view(&self) -> Map<Seq<char>, Seq<RoyaltySplitView>> {
        Map::new(
            |payee: Seq<char>| exists|i: int| self.holds(i, payee),
            |payee: Seq<char>|
                split_views(self.entries[choose|i: int| self.holds(i, payee)].splits@),
        )
    }

    /// The table that `payee` has in the registry, if there is one.
    pub open spec fn configuration(&self, payee: Seq<char>) -> Option<Seq<RoyaltySplitView>> {
        if self@.contains_key(payee) {
            Some(self@[payee])
        } else {
            None
        }
    }

    /// A registry without any table.
    pub fn new() -> (registry: SplitRegistry)
        ensures
            registry@ == Map::<Seq<char>, Seq<RoyaltySplitView>>::empty(),
    {
        let registry = SplitRegistry { entries: Vec::new() };
        assert(registry@ =~= Map::<Seq<char>, Seq<RoyaltySplitView>>::empty());
        registry
    }

    /// Where `payee`'s entry stands, if it has one.
    fn position(&self, payee: &AccountId) -> (found: Option<usize>)
        ensures
            match found {
                Some(k) => self.holds(k as int, payee@),
                None => forall|i: int| !self.holds(i, payee@),
            },
    {
        let mut i: usize = 0;
        while i < self.entries.len()
            invariant
                0 <= i <= self.entries.len(),
                forall|j: int| 0 <= j < i ==> !self.holds(j, payee@),
            decreases self.entries.len() - i,
        {
            if self.entries[i].payee == *payee {
                return Some(i);
            }
            i = i + 1;
        }
        None
    }

    /// The table of `payee`, borrowed from the registry.
    pub fn find(&self, payee: &AccountId) -> (found: Option<&Vec<RoyaltySplit>>)
        ensures
            match found {
                Some(splits) => self.configuration(payee@) == Some(split_views(splits@))
                    && valid_configuration(split_views(splits@)),
                None => self.configuration(payee@) is None,
            },
    {
        proof {
            use_type_invariant(self);
        }
        match self.position(payee) {
            Some(k) => {
                proof {
                    let chosen = choose|i: int| self.holds(i, payee@);
                    assert(self.holds(k as int, payee@));
                    assert(chosen == k);
                }
                Some(&self.entries[k].splits)
            },
            None => None,
        }
    }

    /// `get`: the table of `payee`, or `None` where the payee has configured
    /// none. Anyone may read it.
    pub fn get(&self, payee: &AccountId) -> (found: Option<Vec<RoyaltySplit>>)
        ensures
            match found {
                Some(splits) => self.configuration(payee@) == Some(split_views(splits@))
                    && valid_configuration(split_views(splits@)),
                None => self.configuration(payee@) is None,
            },
    {
        match self.find(payee) {
            Some(splits) => {
                let copy = splits.clone();
                assert(split_views(copy@) =~= split_views(splits@));
                Some(copy)
            },
            None => None,
        }
    }

    /// `set`: replaces the whole table of `payee` by `splits`. Only the payee
    /// may do so, and only with a valid table; a refused call changes nothing.
    pub fn set(
        &mut self,
        caller: &AccountId,
        payee: &AccountId,
        splits: Vec<RoyaltySplit>,
    ) -> (done: Result<(), TipError>)
        ensures
            done == set_outcome(caller@, payee@, split_views(splits@)),
            done is Ok ==> final(self)@ == old(self)@.insert(payee@, split_views(splits@)),
            done is Err ==> final(self)@ == old(self)@,
    {
        proof {
            use_type_invariant(&*self);
        }
        if *caller != *payee {
            return Err(TipError::Unauthorized);
        }
        if validate_splits(&splits).is_err() {
            return Err(TipError::InvalidConfiguration);
        }
        let ghost before = *self;
        let ghost table = split_views(splits@);
        let entry = RegistryEntry { payee: payee.clone(), splits };
        let place = self.position(payee);
        let mut entries: Vec<RegistryEntry> = Vec::new();
        std::mem::swap(&mut entries, &mut self.entries);
        let ghost k = match place {
            Some(k) => k as int,
            None => entries.len() as int,
        };
        match place {
            Some(k) => {
                entries.set(k, entry);
            },
            None => {
                entries.push(entry);
            },
        }
        proof {
            assert forall|i: int| 0 <= i < entries.len() && i != k implies entries[i].payee@
                != payee@ by {
                assert(before.holds(k, payee@) || !before.holds(i, payee@));
            }
        }
        self.entries = entries;
        proof {
            before.lemma_entry_put(*self, k, payee@, table);
        }
        Ok(())
    }

    /// Putting a table under `payee` at the place `k`, which is the payee's
    /// own or a new one at the end, is an `insert` into the map.
    proof fn lemma_entry_put(
        self,
        after: SplitRegistry,
        k: int,
        payee: Seq<char>,
        table: Seq<RoyaltySplitView>,
    )
        requires
            self.well_formed(),
            after.well_formed(),
            self.holds(k, payee) || (k == self.entries.len() && forall|i: int|
                !self.holds(i, payee)),
            k < self.entries.len() ==> after.entries.len() == self.entries.len(),
            k == self.entries.len() ==> after.entries.len() == self.entries.len() + 1,
            after.holds(k, payee),
            split_views(after.entries[k].splits@) == table,
            forall|i: int|
                0 <= i < self.entries.len() && i != k ==> after.entries[i] == self.entries[i],
        ensures
            after@ == self@.insert(payee, table),
    {
        let expected = self@.insert(payee, table);
        assert forall|p: Seq<char>| #[trigger] after@.contains_key(p) == expected.contains_key(
            p,
        ) by {
            if expected.contains_key(p) && p != payee {
                let i = choose|i: int| self.holds(i, p);
                assert(after.holds(i, p));
            }
            if after@.contains_key(p) {
                let i = choose|i: int| after.holds(i, p);
                if i != k {
                    assert(self.holds(i, p));
                }
            }
        }
        assert forall|p: Seq<char>| #[trigger] after@.contains_key(p) implies after@[p]
            == expected[p] by {
            let i = choose|i: int| after.holds(i, p);
            if p == payee {
                assert(i == k);
            } else {
                assert(self.holds(i, p));
                let j = choose|j: int| self.holds(j, p);
                assert(i == j);
            }
        }
        assert(after@ =~= expected);
    }
}

/// What `set` answers: the caller must be the payee, and the table valid.
pub open spec fn set_outcome(
    caller: Seq<char>,
    payee: Seq<char>,
    table: Seq<RoyaltySplitView>,
) -> Result<(), TipError> {
    if caller != payee {
        Err(TipError::Unauthorized)
    } else if !valid_configuration(table) {
        Err(TipError::InvalidConfiguration)
    } else {
        Ok(())
    }
}

} // verus!
