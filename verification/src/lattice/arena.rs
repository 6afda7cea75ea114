//! Cell storage, split into shards by coordinate hash.
//!
//! A shard keeps its numbers in slots, in the order the cells were first
//! written, and remembers the slot of each coordinate. A shard and an arena
//! have a single owner; sharing them between writers is the caller's
//! business.
use crate::scalar::Scalar;
use std::collections::HashMap;
use vstd::prelude::*;

verus! {

broadcast use vstd::std_specs::hash::group_hash_axioms;

/// The number of shards of an arena.
pub const SHARD_COUNT: usize = 64;

/// The mathematical value of an [`ArenaShard`].
pub struct ShardState {
    /// The numbers, by slot.
    pub values: Seq<Scalar>,
    /// The slot of each coordinate that has been written.
    pub slots: Map<u128, usize>,
    /// The texts, in the order they were stored.
    pub strings: Seq<Seq<char>>,
}

impl ShardState {
    pub open spec fn empty() -> ShardState {
        ShardState { values: Seq::empty(), slots: Map::empty(), strings: Seq::empty() }
    }

    /// Every coordinate's slot exists.
    pub open spec fn well_formed(self) -> bool {
        forall|hash: u128| #[trigger]
            self.slots.contains_key(hash) ==> self.slots[hash] < self.values.len()
    }

    /// The number at a coordinate; zero where nothing was written.
    pub open spec fn cell(self, hash: u128) -> Scalar {
        if self.slots.contains_key(hash) {
            self.values[self.slots[hash] as int]
        } else {
            Scalar::zero()
        }
    }

    /// The slot a coordinate has, or would get when written next.
    pub open spec fn slot_for(self, hash: u128) -> int {
        if self.slots.contains_key(hash) {
            self.slots[hash] as int
        } else {
            self.values.len() as int
        }
    }

    /// The shard after `value` is written at `hash`: in the coordinate's
    /// slot where it has one, in a new last slot where it has none.
    pub open spec fn with_cell(self, hash: u128, value: Scalar) -> ShardState {
        if self.slots.contains_key(hash) {
            ShardState { values: self.values.update(self.slots[hash] as int, value), ..self }
        } else {
            ShardState {
                values: self.values.push(value),
                slots: self.slots.insert(hash, self.values.len() as usize),
                ..self
            }
        }
    }

    /// The shard after a text is stored.
    pub open spec fn with_string(self, text: Seq<char>) -> ShardState {
        ShardState { strings: self.strings.push(text), ..self }
    }
}

/// One shard of an arena.
pub struct ArenaShard {
    values: Vec<Scalar>,
    strings: Vec<String>,
    index_map: HashMap<u128, usize>,
}

impl View for ArenaShard {
    type V = ShardState;

    closed spec fn view(&self) -> ShardState {
        ShardState {
            values: self.values@,
            slots: self.index_map@,
            strings: self.strings.deep_view(),
        }
    }
}

impl ArenaShard {
    /// An empty shard with room for `capacity` cells.
    pub fn new(capacity: usize) -> (shard: ArenaShard)
        ensures
            shard@ == ShardState::empty(),
    {
        let shard = ArenaShard {
            values: Vec::with_capacity(capacity),
            strings: Vec::with_capacity(capacity),
            index_map: HashMap::with_capacity(capacity),
        };
        assert(shard.strings.deep_view() =~= Seq::<Seq<char>>::empty());
        shard
    }

    /// Allocates or updates a cell and returns its slot.
    pub fn set_cell(&mut self, hash: u128, value: Scalar) -> (slot: usize)
        requires
            old(self)@.well_formed(),
        ensures
            final(self)@.well_formed(),
            final(self)@ == old(self)@.with_cell(hash, value),
            slot == old(self)@.slot_for(hash),
    {
        let known = match self.index_map.get(&hash) {
            Some(idx) => Some(*idx),
            None => None,
        };
        if let Some(idx) = known {
            assert(self@.slots.contains_key(hash));
            self.values.set(idx, value);
            return idx;
        }
        let idx = self.values.len();
        self.values.push(value);
        self.index_map.insert(hash, idx);
        proof {
            assert forall|other: u128| #[trigger]
                self@.slots.contains_key(other) implies self@.slots[other] < self@.values.len() by {
                if other != hash {
                    assert(old(self)@.slots.contains_key(other));
                }
            }
        }
        idx
    }

    /// Retrieves a cell value; zero if the cell was never written.
    pub fn get_cell(&self, hash: u128) -> (value: Scalar)
        requires
            self@.well_formed(),
        ensures
            value == self@.cell(hash),
    {
        match self.index_map.get(&hash) {
            Some(idx) => {
                assert(self@.slots.contains_key(hash));
                self.values[*idx]
            },
            None => Scalar::new_zero(),
        }
    }

    /// Stores a text and returns its place among the shard's texts.
    pub fn set_string(&mut self, val: String) -> (index: usize)
        ensures
            final(self)@ == old(self)@.with_string(val@),
            index == old(self)@.strings.len(),
    {
        let ghost before = self.strings.deep_view();
        let idx = self.strings.len();
        self.strings.push(val);
        assert(self.strings.deep_view() =~= before.push(val@));
        idx
    }

    /// Appends the shard's numbers, by slot, to `out`.
    pub fn append_values(&self, out: &mut Vec<Scalar>)
        ensures
            final(out)@ == old(out)@ + self@.values,
    {
        let mut i: usize = 0;
        while i < self.values.len()
            invariant
                i <= self.values.len(),
                out@ == old(out)@ + self.values@.take(i as int),
            decreases self.values.len() - i,
        {
            out.push(self.values[i]);
            assert(self.values@.take(i + 1) =~= self.values@.take(i as int).push(self.values@[i as int]));
            i += 1;
        }
        assert(self.values@.take(i as int) =~= self.values@);
    }
}

/// The shard a coordinate belongs to.
pub open spec fn shard_of(hash: u128) -> int {
    (hash % 64) as int
}

/// The numbers of the first `count` shards, shard after shard.
pub open spec fn values_of(shards: Seq<ShardState>, count: int) -> Seq<Scalar>
    decreases count,
{
    if count <= 0 {
        Seq::empty()
    } else {
        values_of(shards, count - 1) + shards[count - 1].values
    }
}

/// The memory for all cells of a grid view.
pub struct LatticeArena {
    shards: Vec<ArenaShard>,
}

impl View for LatticeArena {
    type V = Seq<ShardState>;

    closed spec fn view(&self) -> Seq<ShardState> {
        Seq::new(self.shards@.len(), |i: int| self.shards@[i]@)
    }
}

impl LatticeArena {
    /// There are `SHARD_COUNT` shards, each well-formed.
    pub open spec fn well_formed(&self) -> bool {
        &&& self@.len() == SHARD_COUNT
        &&& forall|i: int| 0 <= i < self@.len() ==> (#[trigger] self@[i]).well_formed()
    }

    /// An empty arena with room for about `capacity` cells.
    pub fn new(capacity: usize) -> (arena: LatticeArena)
        ensures
            arena.well_formed(),
            forall|i: int| 0 <= i < SHARD_COUNT ==> #[trigger] arena@[i] == ShardState::empty(),
    {
        let shard_cap = capacity / SHARD_COUNT + 1;
        let mut shards: Vec<ArenaShard> = Vec::with_capacity(SHARD_COUNT);
        let mut i: usize = 0;
        while i < SHARD_COUNT
            invariant
                i <= SHARD_COUNT,
                shards@.len() == i,
                forall|j: int| 0 <= j < i ==> #[trigger] shards@[j]@ == ShardState::empty(),
            decreases SHARD_COUNT - i,
        {
            shards.push(ArenaShard::new(shard_cap));
            i += 1;
        }
        LatticeArena { shards }
    }

    /// The index of the shard a coordinate belongs to.
    pub fn shard_index(hash: u128) -> (index: usize)
        ensures
            index == shard_of(hash),
            index < SHARD_COUNT,
    {
        (hash % 64) as usize
    }

    /// Allocates or updates a cell value and returns its slot in its shard.
    pub fn set_cell(&mut self, hash: u128, value: Scalar) -> (slot: usize)
        requires
            old(self).well_formed(),
        ensures
            final(self).well_formed(),
            final(self)@ == old(self)@.update(
                shard_of(hash),
                old(self)@[shard_of(hash)].with_cell(hash, value),
            ),
            slot == old(self)@[shard_of(hash)].slot_for(hash),
    {
        let index = LatticeArena::shard_index(hash);
        let ghost before = self@;
        assert(before[index as int].well_formed());
        let slot = self.shards[index].set_cell(hash, value);
        assert(self@ =~= before.update(index as int, before[index as int].with_cell(hash, value)));
        slot
    }

    /// Retrieves a cell value. Returns zero if not found (sparse).
    pub fn get_cell(&self, hash: u128) -> (value: Scalar)
        requires
            self.well_formed(),
        ensures
            value == self@[shard_of(hash)].cell(hash),
    {
        let index = LatticeArena::shard_index(hash);
        assert(self@[index as int].well_formed());
        self.shards[index].get_cell(hash)
    }

    /// Returns the numbers of all shards in one vector, shard after shard.
    pub fn get_vector(&self) -> (combined: Vec<Scalar>)
        ensures
            combined@ == values_of(self@, self@.len() as int),
    {
        let mut combined: Vec<Scalar> = Vec::new();
        let mut i: usize = 0;
        while i < self.shards.len()
            invariant
                i <= self.shards.len(),
                combined@ == values_of(self@, i as int),
            decreases self.shards.len() - i,
        {
            self.shards[i].append_values(&mut combined);
            i += 1;
        }
        combined
    }

    /// Stores a text in the shard of `hash` and returns its place there.
    pub fn set_string(&mut self, hash: u128, val: String) -> (index: usize)
        requires
            old(self).well_formed(),
        ensures
            final(self).well_formed(),
            final(self)@ == old(self)@.update(
                shard_of(hash),
                old(self)@[shard_of(hash)].with_string(val@),
            ),
            index == old(self)@[shard_of(hash)].strings.len(),
    {
        let shard = LatticeArena::shard_index(hash);
        let ghost before = self@;
        let index = self.shards[shard].set_string(val);
        assert(self@ =~= before.update(shard as int, before[shard as int].with_string(val@)));
        index
    }

    /// Stores a date, given in milliseconds, as the number nearest to it.
    pub fn set_date(&mut self, hash: u128, val: i64) -> (slot: usize)
        requires
            old(self).well_formed(),
        ensures
            final(self).well_formed(),
            final(self)@ == old(self)@.update(
                shard_of(hash),
                old(self)@[shard_of(hash)].with_cell(hash, Scalar::of_integer(val)),
            ),
            slot == old(self)@[shard_of(hash)].slot_for(hash),
    {
        self.set_cell(hash, Scalar::from_integer(val))
    }
}

} // verus!
