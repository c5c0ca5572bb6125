//! Lending positions and the book that holds the latest state of each.

use std::collections::HashMap;
use vstd::prelude::*;
use vstd::std_specs::hash::*;
use vstd::std_specs::iter::IteratorSpec;
use crate::decimal::Decimal;

verus! {

broadcast use group_hash_axioms;

/// One side of a position: an asset and how much of it.
#[derive(Clone, Debug)]
pub struct Asset {
    pub name: String,
    pub amount: Decimal,
}

/// A borrower's open debt, secured by collateral.
#[derive(Clone, Debug)]
pub struct Position {
    /// The identity of the position: it stays the same across updates.
    pub key: u64,
    pub debt: Asset,
    pub collateral: Asset,
}

/// The book that results from filing `updates` into `book`, one after the
/// other.
pub open spec fn merged(book: Map<u64, Position>, updates: Seq<Position>) -> Map<u64, Position>
    decreases updates.len(),
{
    if updates.len() == 0 {
        book
    } else {
        merged(book, updates.drop_last()).insert(updates.last().key, updates.last())
    }
}

/// The last write wins: after any run of updates, the book holds for a key
/// the update that came last among those with that key.
pub proof fn lemma_last_write_wins(book: Map<u64, Position>, updates: Seq<Position>, last: int)
    requires
        0 <= last < updates.len(),
        forall|later: int| last < later < updates.len() ==> updates[later].key != updates[last].key,
    ensures
        merged(book, updates).contains_key(updates[last].key),
        merged(book, updates)[updates[last].key] == updates[last],
    decreases updates.len(),
{
    if last < updates.len() - 1 {
        let before = updates.drop_last();
        assert(before[last] == updates[last]);
        assert forall|later: int| last < later < before.len() implies before[later].key
            != before[last].key by {
            assert(before[later] == updates[later]);
        }
        lemma_last_write_wins(book, before, last);
    }
}

/// A position that no update names stays as the book had it, and a key that
/// neither the book nor an update names stays unknown.
pub proof fn lemma_unnamed_keys_stay(book: Map<u64, Position>, updates: Seq<Position>, key: u64)
    requires
        forall|i: int| 0 <= i < updates.len() ==> updates[i].key != key,
    ensures
        merged(book, updates).contains_key(key) == book.contains_key(key),
        book.contains_key(key) ==> merged(book, updates)[key] == book[key],
    decreases updates.len(),
{
    if updates.len() > 0 {
        let before = updates.drop_last();
        assert forall|i: int| 0 <= i < before.len() implies before[i].key != key by {
            assert(before[i] == updates[i]);
        }
        lemma_unnamed_keys_stay(book, before, key);
    }
}

/// The latest known state of every position, by key.
pub struct PositionBook {
    positions: HashMap<u64, Position>,
}

impl View for PositionBook {
    type V = Map<u64, Position>;

    closed spec fn view(&self) -> Map<u64, Position> {
        self.positions@
    }
}

impl PositionBook {
    /// Every position is filed under its own key.
    pub open spec fn well_formed(&self) -> bool {
        forall|key: u64| #[trigger] self@.contains_key(key) ==> self@[key].key == key
    }

    /// An empty book.
    pub fn new() -> (book: PositionBook)
        ensures
            book.well_formed(),
            book@ == Map::<u64, Position>::empty(),
    {
        PositionBook { positions: HashMap::new() }
    }

    /// Files `position` under its key, in place of what was known of that
    /// position before.
    pub fn insert(&mut self, position: Position)
        requires
            old(self).well_formed(),
        ensures
            final(self).well_formed(),
            final(self)@ == old(self)@.insert(position.key, position),
    {
        let key = position.key;
        self.positions.insert(key, position);
        proof {
            assert forall|k: u64| #[trigger] self@.contains_key(k) implies self@[k].key == k by {
                if k != key {
                    assert(old(self)@.contains_key(k));
                }
            }
        }
    }

    /// The latest state of the position with this key.
    pub fn get(&self, key: u64) -> (found: Option<&Position>)
        ensures
            match found {
                Some(position) => self@.contains_key(key) && *position == self@[key],
                None => !self@.contains_key(key),
            },
    {
        self.positions.get(&key)
    }

    /// The number of positions.
    pub fn len(&self) -> (len: usize)
        ensures
            len == self@.len(),
    {
        self.positions.len()
    }

    /// Whether the book holds no position.
    pub fn is_empty(&self) -> (empty: bool)
        ensures
            empty == (self@.len() == 0),
            empty == (self@ == Map::<u64, Position>::empty()),
    {
        let empty = self.positions.is_empty();
        proof {
            if empty {
                assert(self.positions@ =~= Map::<u64, Position>::empty());
            }
        }
        empty
    }

    /// The keys of all positions, each once, in the order in which the book
    /// walks them.
    pub fn keys(&self) -> (keys: Vec<u64>)
        ensures
            keys@.no_duplicates(),
            keys@.to_set() == self@.dom(),
    {
        let mut keys: Vec<u64> = Vec::new();
        for key in iter: self.positions.keys()
            invariant
                keys@.len() == iter.index(),
                forall|i: int| 0 <= i < keys@.len() ==> keys@[i] == *iter.seq()[i],
        {
            keys.push(*key);
        }
        assert(keys@ =~= self.positions.keys().remaining().unref());
        keys
    }
}

} // verus!
