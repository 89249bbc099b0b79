//! What holds of the roster's operations whatever the roster and the names:
//! stated over the sequence of entries, in the terms in which the operations
//! of `PlayerVecMap` are specified.

use vstd::prelude::*;
use crate::player::PlayerView;
use crate::player::retainable_as_empty;
use crate::player::with_presence;
use crate::roster::as_record;
use crate::roster::departed;
use crate::roster::has_comment;
use crate::roster::has_name;
use crate::roster::in_lock_step;
use crate::roster::joined;
use crate::roster::lemma_place_is_unique;
use crate::roster::marked_absent;
use crate::roster::named_at;
use crate::roster::place_of;
use crate::roster::restored;
use crate::roster::saved;
use crate::roster::swept;
use crate::roster::unique_names;

verus! {

/// An index that is in lock step with the entries admits no name twice,
/// holds exactly the names of the entries, and finds each at its position.
pub proof fn lemma_lock_step_tells_the_names(entries: Seq<PlayerView>, index: Map<Seq<char>, usize>)
    requires
        in_lock_step(entries, index),
    ensures
        unique_names(entries),
        forall|name: Seq<char>| has_name(entries, name) <==> index.contains_key(name),
        forall|name: Seq<char>| #[trigger]
            index.contains_key(name) ==> place_of(entries, name) == index[name],
{
    assert forall|i: int, j: int| 0 <= i < j < entries.len() implies entries[i].name
        != entries[j].name by {
        assert(index[entries[i].name] == i);
        assert(index[entries[j].name] == j);
    }
    assert forall|name: Seq<char>| has_name(entries, name) <==> index.contains_key(name) by {
        if has_name(entries, name) {
            let i = place_of(entries, name);
            assert(named_at(entries, name, i));
            assert(index.contains_key(entries[i].name));
        }
        if index.contains_key(name) {
            assert(named_at(entries, name, index[name] as int));
        }
    }
    assert forall|name: Seq<char>| #[trigger] index.contains_key(name) implies place_of(
        entries,
        name,
    ) == index[name] by {
        let i = index[name] as int;
        assert(named_at(entries, name, i));
        lemma_place_is_unique(entries, i);
    }
}

/// After a player has joined there is exactly one entry for them, it is
/// marked present, and nobody else's entry has changed.
pub proof fn lemma_join_gives_one_present_entry(entries: Seq<PlayerView>, name: Seq<char>)
    requires
        unique_names(entries),
    ensures
        unique_names(joined(entries, name)),
        has_name(joined(entries, name), name),
        joined(entries, name)[place_of(joined(entries, name), name)].in_squad,
        joined(entries, name).len() == (if has_name(entries, name) {
            entries.len()
        } else {
            entries.len() + 1
        }),
        forall|i: int|
            0 <= i < entries.len() && entries[i].name != name ==> joined(entries, name)[i]
                == entries[i],
{
    let after = joined(entries, name);
    if has_name(entries, name) {
        let i = place_of(entries, name);
        assert(named_at(entries, name, i));
        assert forall|a: int, b: int| 0 <= a < b < after.len() implies after[a].name
            != after[b].name by {
            assert(after[a].name == entries[a].name);
            assert(after[b].name == entries[b].name);
        }
        assert(named_at(after, name, i));
        lemma_place_is_unique(after, i);
    } else {
        let at = entries.len() as int;
        assert forall|a: int, b: int| 0 <= a < b < after.len() implies after[a].name
            != after[b].name by {
            if b == at {
                if entries[a].name == name {
                    assert(named_at(entries, name, a));
                }
            }
        }
        assert(named_at(after, name, at));
        lemma_place_is_unique(after, at);
    }
}

/// Joining is idempotent: a player who joins twice in a row is in the roster
/// as after joining once.
pub proof fn lemma_join_is_idempotent(entries: Seq<PlayerView>, name: Seq<char>)
    requires
        unique_names(entries),
    ensures
        joined(joined(entries, name), name) == joined(entries, name),
{
    let once = joined(entries, name);
    lemma_join_gives_one_present_entry(entries, name);
    let i = place_of(once, name);
    assert(named_at(once, name, i));
    assert(with_presence(once[i], true) == once[i]);
    assert(once.update(i, once[i]) =~= once);
}

/// When a player leaves, an entry without a comment is gone: the roster is
/// one shorter and holds no entry of that name. An entry with a comment stays
/// where it was, with its comment, and is marked absent. Nobody else's entry
/// differs from before.
pub proof fn lemma_departure_keeps_the_annotated(entries: Seq<PlayerView>, name: Seq<char>)
    requires
        unique_names(entries),
        has_name(entries, name),
    ensures
        unique_names(departed(entries, name)),
        retainable_as_empty(entries[place_of(entries, name)]) ==> {
            &&& !has_name(departed(entries, name), name)
            &&& departed(entries, name).len() == entries.len() - 1
        },
        !retainable_as_empty(entries[place_of(entries, name)]) ==> {
            &&& departed(entries, name).len() == entries.len()
            &&& has_name(departed(entries, name), name)
            &&& place_of(departed(entries, name), name) == place_of(entries, name)
            &&& departed(entries, name)[place_of(entries, name)] == with_presence(
                entries[place_of(entries, name)],
                false,
            )
            &&& forall|i: int|
                0 <= i < entries.len() && i != place_of(entries, name) ==> departed(entries, name)[i]
                    == entries[i]
        },
{
    let i = place_of(entries, name);
    let after = departed(entries, name);
    assert(named_at(entries, name, i));
    if retainable_as_empty(entries[i]) {
        assert forall|a: int, b: int| 0 <= a < b < after.len() implies after[a].name
            != after[b].name by {
            let before_a = if a < i {
                a
            } else {
                a + 1
            };
            let before_b = if b < i {
                b
            } else {
                b + 1
            };
            assert(after[a] == entries[before_a]);
            assert(after[b] == entries[before_b]);
        }
        if has_name(after, name) {
            let a = place_of(after, name);
            assert(named_at(after, name, a));
            let before_a = if a < i {
                a
            } else {
                a + 1
            };
            assert(after[a] == entries[before_a]);
            if before_a < i {
                assert(entries[before_a].name != entries[i].name);
            } else {
                assert(entries[i].name != entries[before_a].name);
            }
        }
    } else {
        assert forall|a: int, b: int| 0 <= a < b < after.len() implies after[a].name
            != after[b].name by {
            assert(after[a].name == entries[a].name);
            assert(after[b].name == entries[b].name);
        }
        assert(named_at(after, name, i));
        lemma_place_is_unique(after, i);
    }
}

/// An entry of a swept roster stems from an entry of the roster before.
proof fn lemma_swept_entry_has_origin(entries: Seq<PlayerView>, i: int) -> (j: int)
    requires
        0 <= i < swept(entries).len(),
    ensures
        0 <= j < entries.len(),
        swept(entries)[i] == with_presence(entries[j], false),
        entries[j].comment.len() > 0,
{
    let marked = entries.map_values(marked_absent());
    let left = swept(entries);
    marked.lemma_filter_pred(has_comment(), i);
    assert(left.contains(left[i]));
    marked.lemma_filter_contains_rev(has_comment(), left[i]);
    let j = choose|j: int| 0 <= j < marked.len() && marked[j] == left[i];
    assert(marked[j] == with_presence(entries[j], false));
    j
}

/// After a sweep nobody is marked present and no entry is without a comment;
/// every entry that had a comment is still there, with that comment, and no
/// name that had none is.
pub proof fn lemma_sweep_keeps_the_annotated(entries: Seq<PlayerView>)
    requires
        unique_names(entries),
    ensures
        unique_names(swept(entries)),
        forall|i: int|
            0 <= i < swept(entries).len() ==> !(#[trigger] swept(entries)[i]).in_squad && swept(
                entries,
            )[i].comment.len() > 0,
        forall|j: int|
            0 <= j < entries.len() && (#[trigger] entries[j]).comment.len() > 0 ==> swept(
                entries,
            ).contains(with_presence(entries[j], false)),
        forall|j: int|
            0 <= j < entries.len() && (#[trigger] entries[j]).comment.len() == 0 ==> !has_name(
                swept(entries),
                entries[j].name,
            ),
{
    let marked = entries.map_values(marked_absent());
    let left = swept(entries);
    assert forall|i: int| 0 <= i < left.len() implies !(#[trigger] left[i]).in_squad
        && left[i].comment.len() > 0 by {
        let j = lemma_swept_entry_has_origin(entries, i);
    }
    assert forall|j: int|
        0 <= j < entries.len() && (#[trigger] entries[j]).comment.len() > 0 implies left.contains(
        with_presence(entries[j], false),
    ) by {
        assert(marked[j] == with_presence(entries[j], false));
        marked.lemma_filter_contains(has_comment(), j);
    }
    assert forall|j: int|
        0 <= j < entries.len() && (#[trigger] entries[j]).comment.len() == 0 implies !has_name(
        left,
        entries[j].name,
    ) by {
        if has_name(left, entries[j].name) {
            let i = place_of(left, entries[j].name);
            assert(named_at(left, entries[j].name, i));
            let origin = lemma_swept_entry_has_origin(entries, i);
            if origin < j {
                assert(entries[origin].name != entries[j].name);
            } else if j < origin {
                assert(entries[j].name != entries[origin].name);
            }
        }
    }
    lemma_swept_names_are_unique(entries);
}

/// A sweep moves no entry past another, so names stay unique.
proof fn lemma_swept_names_are_unique(entries: Seq<PlayerView>)
    requires
        unique_names(entries),
    ensures
        unique_names(swept(entries)),
        forall|name: Seq<char>| has_name(swept(entries), name) ==> has_name(entries, name),
    decreases entries.len(),
{
    reveal(Seq::filter);
    let left = swept(entries);
    assert forall|name: Seq<char>| has_name(left, name) implies has_name(entries, name) by {
        let i = place_of(left, name);
        assert(named_at(left, name, i));
        let j = lemma_swept_entry_has_origin(entries, i);
        assert(named_at(entries, name, j));
    }
    if entries.len() > 0 {
        let front = entries.drop_last();
        let last = entries.last();
        lemma_swept_names_are_unique(front);
        assert(entries.map_values(marked_absent()).drop_last() =~= front.map_values(
            marked_absent(),
        ));
        let before = swept(front);
        assert forall|a: int, b: int| 0 <= a < b < left.len() implies left[a].name
            != left[b].name by {
            if b < before.len() {
                assert(left[a] == before[a]);
                assert(left[b] == before[b]);
            } else {
                assert(left[a] == before[a]);
                assert(named_at(before, before[a].name, a));
                assert(has_name(front, before[a].name));
                let j = place_of(front, before[a].name);
                assert(named_at(front, before[a].name, j));
                assert(entries[j].name != entries[entries.len() - 1].name);
            }
        }
    }
}

/// Saving a roster and reading it back gives the entries that had a comment,
/// in their order and with their comments, all marked absent: the roster as
/// a sweep would leave it. No entry without a comment comes back.
pub proof fn lemma_saved_roster_comes_back(entries: Seq<PlayerView>)
    requires
        unique_names(entries),
    ensures
        restored(saved(entries)) == swept(entries),
        saved(restored(saved(entries))) == saved(entries),
        forall|i: int|
            0 <= i < restored(saved(entries)).len() ==> (#[trigger] restored(
                saved(entries),
            )[i]).comment.len() > 0,
{
    lemma_round_trip(entries);
    let back = swept(entries);
    assert forall|i: int| 0 <= i < back.len() implies (#[trigger] back[i]).comment.len() > 0 by {
        let j = lemma_swept_entry_has_origin(entries, i);
    }
    lemma_saving_ignores_presence(entries);
}

/// What is saved of a swept roster is what is saved of the roster itself.
proof fn lemma_saving_ignores_presence(entries: Seq<PlayerView>)
    ensures
        saved(swept(entries)) == saved(entries),
    decreases entries.len(),
{
    reveal(Seq::filter);
    if entries.len() == 0 {
        assert(entries.map_values(marked_absent()) =~= entries);
        assert(saved(swept(entries)) =~= saved(entries));
    } else {
        let front = entries.drop_last();
        let last = entries.last();
        lemma_saving_ignores_presence(front);
        assert(entries.map_values(marked_absent()).drop_last() =~= front.map_values(
            marked_absent(),
        ));
        if has_comment()(last) {
            let kept = with_presence(last, false);
            assert(swept(entries) == swept(front).push(kept));
            assert(swept(entries).drop_last() =~= swept(front));
            assert(swept(entries).filter(has_comment()) == swept(front).filter(
                has_comment(),
            ).push(kept));
            assert(saved(swept(entries)) =~= saved(swept(front)).push(as_record()(kept)));
            assert(saved(entries) =~= saved(front).push(as_record()(last)));
        } else {
            assert(swept(entries) == swept(front));
            assert(saved(entries) =~= saved(front));
        }
    }
}

/// Reading back what was saved gives the roster as a sweep would leave it.
proof fn lemma_round_trip(entries: Seq<PlayerView>)
    requires
        unique_names(entries),
    ensures
        restored(saved(entries)) == swept(entries),
    decreases entries.len(),
{
    reveal(Seq::filter);
    if entries.len() == 0 {
        assert(entries.map_values(marked_absent()) =~= entries);
        assert(saved(entries) =~= Seq::empty());
        assert(swept(entries) =~= Seq::empty());
    } else {
        let front = entries.drop_last();
        let last = entries.last();
        assert(unique_names(front));
        lemma_round_trip(front);
        lemma_swept_names_are_unique(front);
        assert(entries.map_values(marked_absent()).drop_last() =~= front.map_values(
            marked_absent(),
        ));
        if has_comment()(last) {
            let record = as_record()(last);
            assert(saved(entries) =~= saved(front).push(record));
            assert(saved(entries).drop_last() =~= saved(front));
            assert(swept(entries) == swept(front).push(with_presence(last, false)));
            if has_name(swept(front), last.name) {
                assert(has_name(front, last.name));
                let j = place_of(front, last.name);
                assert(named_at(front, last.name, j));
                assert(entries[j].name != entries[entries.len() - 1].name);
            }
        } else {
            assert(saved(entries) =~= saved(front));
            assert(swept(entries) == swept(front));
        }
    }
}

} // verus!
