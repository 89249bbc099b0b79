//! The lookup from a player's name to a position in the roster.
//!
//! The index owns no entries, only positions. It is kept as a short list of
//! keyed slots: rosters hold a few dozen names at most.

use vstd::prelude::*;

verus! {

struct Slot {
    key: String,
    position: usize,
}

/// A finite map from names to positions.
pub struct NameIndex {
    slots: Vec<Slot>,
}

/// The slot at `i` holds `key`.
spec fn held_at(slots: Seq<Slot>, key: Seq<char>, i: int) -> bool {
    0 <= i < slots.len() && slots[i].key@ == key
}

/// Some slot holds `key`.
spec fn holds(slots: Seq<Slot>, key: Seq<char>) -> bool {
    exists|i: int| held_at(slots, key, i)
}

/// The slot that holds `key`, where there is one.
spec fn slot_of(slots: Seq<Slot>, key: Seq<char>) -> int {
    choose|i: int| held_at(slots, key, i)
}

/// No key is held by two slots.
spec fn distinct_keys(slots: Seq<Slot>) -> bool {
    forall|i: int, j: int| 0 <= i < j < slots.len() ==> slots[i].key@ != slots[j].key@
}

/// The map that the slots stand for.
spec fn map_of(slots: Seq<Slot>) -> Map<Seq<char>, usize> {
    Map::new(|key: Seq<char>| holds(slots, key), |key: Seq<char>| slots[slot_of(slots, key)].position)
}

/// The positions that remain valid once the entry at `removed` has left the
/// roster: every position behind it moves one step to the front.
pub open spec fn shifted(index: Map<Seq<char>, usize>, removed: usize) -> Map<Seq<char>, usize> {
    Map::new(
        |key: Seq<char>| index.contains_key(key),
        |key: Seq<char>|
            if index[key] > removed {
                (index[key] - 1) as usize
            } else {
                index[key]
            },
    )
}

impl View for NameIndex {
    type V = Map<Seq<char>, usize>;

    closed spec fn view(&self) -> Map<Seq<char>, usize> {
        map_of(self.slots@)
    }
}

impl NameIndex {
    /// No name is held twice.
    pub closed spec fn wf(&self) -> bool {
        distinct_keys(self.slots@)
    }

    /// An index without names.
    pub fn new() -> (index: NameIndex)
        ensures
            index.wf(),
            index@ == Map::<Seq<char>, usize>::empty(),
    {
        NameIndex { slots: Vec::new() }
    }

    /// The slot that holds `key`.
    fn find(&self, key: &str) -> (found: Option<usize>)
        ensures
            match found {
                Some(i) => held_at(self.slots@, key@, i as int),
                None => !holds(self.slots@, key@),
            },
    {
        let wanted = key.to_owned();
        let mut i: usize = 0;
        while i < self.slots.len()
            invariant
                i <= self.slots.len(),
                wanted@ == key@,
                forall|j: int| 0 <= j < i ==> self.slots[j].key@ != key@,
            decreases self.slots.len() - i,
        {
            if self.slots[i].key == wanted {
                return Some(i);
            }
            i += 1;
        }
        None
    }

    /// The position recorded for `key`.
    pub fn get(&self, key: &str) -> (position: Option<usize>)
        requires
            self.wf(),
        ensures
            position == (if self@.contains_key(key@) {
                Some(self@[key@])
            } else {
                None
            }),
    {
        match self.find(key) {
            Some(i) => Some(self.slots[i].position),
            None => None,
        }
    }

    /// Records `position` for `key`, replacing what was recorded before.
    pub fn insert(&mut self, key: String, position: usize)
        requires
            old(self).wf(),
        ensures
            final(self).wf(),
            final(self)@ == old(self)@.insert(key@, position),
    {
        let ghost before = self.slots@;
        match self.find(key.as_str()) {
            Some(i) => {
                self.slots[i].position = position;
                proof {
                    let after = self.slots@;
                    assert forall|k: Seq<char>| holds(after, k) == holds(before, k) by {
                        if holds(after, k) {
                            let j = slot_of(after, k);
                            assert(held_at(before, k, j));
                        }
                        if holds(before, k) {
                            let j = slot_of(before, k);
                            assert(held_at(after, k, j));
                        }
                    }
                }
            },
            None => {
                let ghost name = key@;
                self.slots.push(Slot { key, position });
                proof {
                    let after = self.slots@;
                    let last = before.len() as int;
                    assert(distinct_keys(after)) by {
                        assert forall|a: int, b: int| 0 <= a < b < after.len() implies after[a].key@
                            != after[b].key@ by {
                            if b == last {
                                if before[a].key@ == name {
                                    assert(held_at(before, name, a));
                                }
                            }
                        }
                    }
                    assert forall|k: Seq<char>| holds(after, k) == (k == name || holds(
                        before,
                        k,
                    )) by {
                        if holds(after, k) {
                            let j = slot_of(after, k);
                            if j < last {
                                assert(held_at(before, k, j));
                            }
                        }
                        if holds(before, k) {
                            let j = slot_of(before, k);
                            assert(held_at(after, k, j));
                        }
                        if k == name {
                            assert(held_at(after, k, last));
                        }
                    }
                }
            },
        }
    }

    /// Forgets `key` and returns the position that was recorded for it.
    pub fn remove(&mut self, key: &str) -> (position: Option<usize>)
        requires
            old(self).wf(),
        ensures
            final(self).wf(),
            final(self)@ == old(self)@.remove(key@),
            position == (if old(self)@.contains_key(key@) {
                Some(old(self)@[key@])
            } else {
                None
            }),
    {
        let ghost before = self.slots@;
        match self.find(key) {
            Some(i) => {
                let slot = self.slots.remove(i);
                proof {
                    let after = self.slots@;
                    let at = i as int;
                    assert forall|k: Seq<char>| holds(after, k) == (k != key@ && holds(
                        before,
                        k,
                    )) by {
                        if holds(after, k) {
                            let j = slot_of(after, k);
                            if j < at {
                                assert(held_at(before, k, j));
                            } else {
                                assert(held_at(before, k, j + 1));
                            }
                        }
                        if k != key@ && holds(before, k) {
                            let j = slot_of(before, k);
                            if j < at {
                                assert(held_at(after, k, j));
                            } else {
                                assert(held_at(after, k, j - 1));
                            }
                        }
                    }
                }
                Some(slot.position)
            },
            None => None,
        }
    }

    /// Follows the removal of the roster entry at `removed`: every recorded
    /// position behind it is moved one step to the front.
    pub fn shift_after(&mut self, removed: usize)
        requires
            old(self).wf(),
        ensures
            final(self).wf(),
            final(self)@ == shifted(old(self)@, removed),
    {
        let ghost before = self.slots@;
        let mut i: usize = 0;
        while i < self.slots.len()
            invariant
                i <= self.slots.len(),
                self.slots.len() == before.len(),
                forall|j: int| 0 <= j < before.len() ==> self.slots[j].key@ == before[j].key@,
                forall|j: int|
                    0 <= j < i ==> self.slots[j].position == (if before[j].position > removed {
                        (before[j].position - 1) as usize
                    } else {
                        before[j].position
                    }),
                forall|j: int| i <= j < before.len() ==> self.slots[j].position == before[j].position,
            decreases self.slots.len() - i,
        {
            if self.slots[i].position > removed {
                let moved = self.slots[i].position - 1;
                self.slots[i].position = moved;
            }
            i += 1;
        }
        proof {
            let after = self.slots@;
            assert forall|k: Seq<char>| holds(after, k) == holds(before, k) by {
                if holds(after, k) {
                    let j = slot_of(after, k);
                    assert(held_at(before, k, j));
                }
                if holds(before, k) {
                    let j = slot_of(before, k);
                    assert(held_at(after, k, j));
                }
            }
        }
    }
}

} // verus!
