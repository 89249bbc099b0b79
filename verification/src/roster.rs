//! The roster store: the entries in the order in which they were first seen,
//! and an index from each name to the position of its entry.
//!
//! What each operation does is said over the sequence of entries alone (the
//! functions `added`, `joined`, `departed`, `deleted`, `annotated` and `swept`);
//! `PlayerVecMap::wf` ties the index to that sequence.

use vstd::prelude::*;
use crate::name_index::NameIndex;
use crate::name_index::shifted;
use crate::player::Player;
use crate::player::PlayerRecord;
use crate::player::PlayerView;
use crate::player::RecordView;
use crate::player::retainable_as_empty;
use crate::player::with_comment;
use crate::player::with_presence;

verus! {

/// The entry at position `i` is the one for `name`.
pub open spec fn named_at(entries: Seq<PlayerView>, name: Seq<char>, i: int) -> bool {
    0 <= i < entries.len() && entries[i].name == name
}

/// Some entry is the one for `name`.
pub open spec fn has_name(entries: Seq<PlayerView>, name: Seq<char>) -> bool {
    exists|i: int| named_at(entries, name, i)
}

/// The position of the entry for `name`, where there is one.
pub open spec fn place_of(entries: Seq<PlayerView>, name: Seq<char>) -> int {
    choose|i: int| named_at(entries, name, i)
}

/// No two entries share a name.
pub open spec fn unique_names(entries: Seq<PlayerView>) -> bool {
    forall|i: int, j: int| 0 <= i < j < entries.len() ==> entries[i].name != entries[j].name
}

/// The index and the sequence describe each other: every key of the index
/// leads to the entry of that name, and every entry is found under its name
/// at its own position.
pub open spec fn in_lock_step(entries: Seq<PlayerView>, index: Map<Seq<char>, usize>) -> bool {
    &&& forall|key: Seq<char>| #[trigger]
        index.contains_key(key) ==> named_at(entries, key, index[key] as int)
    &&& forall|i: int|
        0 <= i < entries.len() ==> index.contains_key((#[trigger] entries[i]).name) && index[entries[i].name]
            == i
}

/// Adding `name` with `comment`: a new entry at the end, not in the squad,
/// unless the name is there already, in which case nothing changes.
pub open spec fn added(entries: Seq<PlayerView>, name: Seq<char>, comment: Seq<char>) -> Seq<
    PlayerView,
> {
    if has_name(entries, name) {
        entries
    } else {
        entries.push(PlayerView { name, comment, in_squad: false })
    }
}

/// `name` joins the squad: its entry is marked present, and is created with
/// an empty comment where there was none.
pub open spec fn joined(entries: Seq<PlayerView>, name: Seq<char>) -> Seq<PlayerView> {
    if has_name(entries, name) {
        let i = place_of(entries, name);
        entries.update(i, with_presence(entries[i], true))
    } else {
        entries.push(PlayerView { name, comment: Seq::empty(), in_squad: true })
    }
}

/// `name` leaves the squad: an entry without a comment is dropped, one with a
/// comment stays and is marked absent.
pub open spec fn departed(entries: Seq<PlayerView>, name: Seq<char>) -> Seq<PlayerView> {
    if has_name(entries, name) {
        let i = place_of(entries, name);
        if retainable_as_empty(entries[i]) {
            entries.remove(i)
        } else {
            entries.update(i, with_presence(entries[i], false))
        }
    } else {
        entries
    }
}

/// The entry for `name` is removed, whatever its comment.
pub open spec fn deleted(entries: Seq<PlayerView>, name: Seq<char>) -> Seq<PlayerView> {
    if has_name(entries, name) {
        entries.remove(place_of(entries, name))
    } else {
        entries
    }
}

/// The entry for `name` gets another comment.
pub open spec fn annotated(entries: Seq<PlayerView>, name: Seq<char>, comment: Seq<char>) -> Seq<
    PlayerView,
> {
    if has_name(entries, name) {
        let i = place_of(entries, name);
        entries.update(i, with_comment(entries[i], comment))
    } else {
        entries
    }
}

/// Marks an entry absent.
pub open spec fn marked_absent() -> spec_fn(PlayerView) -> PlayerView {
    |entry: PlayerView| with_presence(entry, false)
}

/// Whether something was noted on an entry. Such an entry outlives a sweep, and
/// it is the only kind that is saved.
pub open spec fn has_comment() -> spec_fn(PlayerView) -> bool {
    |entry: PlayerView| !retainable_as_empty(entry)
}

/// The local player leaves: everybody is marked absent, then the entries
/// without a comment are dropped.
pub open spec fn swept(entries: Seq<PlayerView>) -> Seq<PlayerView> {
    entries.map_values(marked_absent()).filter(has_comment())
}

/// What is saved of an entry: its name and its comment.
pub open spec fn as_record() -> spec_fn(PlayerView) -> RecordView {
    |entry: PlayerView| RecordView { name: entry.name, comment: entry.comment }
}

/// What is saved of a roster: the entries with a comment, in order.
pub open spec fn saved(entries: Seq<PlayerView>) -> Seq<RecordView> {
    entries.filter(has_comment()).map_values(as_record())
}

/// The roster that saved records give back: each record is added in turn, so
/// that of two records with one name the first stands. Nobody is in the squad.
pub open spec fn restored(records: Seq<RecordView>) -> Seq<PlayerView>
    decreases records.len(),
{
    if records.len() == 0 {
        Seq::empty()
    } else {
        added(restored(records.drop_last()), records.last().name, records.last().comment)
    }
}

/// The entries that a list of players stands for.
pub open spec fn entries_view(players: Seq<Player>) -> Seq<PlayerView> {
    players.map_values(|player: Player| player@)
}

/// The records that a list of stored records stands for.
pub open spec fn records_view(records: Seq<PlayerRecord>) -> Seq<RecordView> {
    records.map_values(|record: PlayerRecord| record@)
}

/// With unique names, an entry is found at exactly its own position.
pub proof fn lemma_place_is_unique(entries: Seq<PlayerView>, i: int)
    requires
        unique_names(entries),
        0 <= i < entries.len(),
    ensures
        has_name(entries, entries[i].name),
        place_of(entries, entries[i].name) == i,
{
    assert(named_at(entries, entries[i].name, i));
}

/// Lock step after the entry at `at` was taken out, its key forgotten and the
/// positions behind it moved up.
proof fn lemma_lock_step_remove(entries: Seq<PlayerView>, index: Map<Seq<char>, usize>, at: usize)
    requires
        in_lock_step(entries, index),
        at < entries.len(),
    ensures
        in_lock_step(entries.remove(at as int), shifted(index.remove(entries[at as int].name), at)),
{
}

/// Filtering changes nothing where every element passes.
proof fn lemma_filter_keeps_all(entries: Seq<PlayerView>, pred: spec_fn(PlayerView) -> bool)
    requires
        forall|i: int| 0 <= i < entries.len() ==> pred(#[trigger] entries[i]),
    ensures
        entries.filter(pred) == entries,
    decreases entries.len(),
{
    reveal(Seq::filter);
    if entries.len() > 0 {
        let front = entries.drop_last();
        lemma_filter_keeps_all(front, pred);
    }
}

/// The roster in the middle of a sweep: the entries before `cut` are as they
/// were, those from `cut` on have been swept.
spec fn swept_from(marked: Seq<PlayerView>, cut: int) -> Seq<PlayerView> {
    marked.take(cut) + marked.skip(cut).filter(has_comment())
}

/// Taking out the last entry before `cut` that a sweep drops moves the cut down
/// to that entry.
proof fn lemma_sweep_step(marked: Seq<PlayerView>, cut: int, at: int)
    requires
        0 <= at < cut <= marked.len(),
        retainable_as_empty(marked[at]),
        forall|j: int| at < j < cut ==> !retainable_as_empty(#[trigger] marked[j]),
    ensures
        at < swept_from(marked, cut).len(),
        swept_from(marked, cut).remove(at) == swept_from(marked, at),
{
    let keep = has_comment();
    let between = marked.subrange(at + 1, cut);
    let behind = marked.skip(cut);
    lemma_filter_keeps_all(between, keep);
    assert(marked.skip(at) =~= seq![marked[at]] + (between + behind));
    (between + behind).lemma_filter_prepend(marked[at], keep);
}

/// Once the cut has passed every entry that a sweep drops, the sweep is done.
proof fn lemma_sweep_done(marked: Seq<PlayerView>, cut: int)
    requires
        0 <= cut <= marked.len(),
        forall|j: int| 0 <= j < cut ==> !retainable_as_empty(#[trigger] marked[j]),
    ensures
        swept_from(marked, cut) == marked.filter(has_comment()),
{
    let keep = has_comment();
    let front = marked.take(cut);
    lemma_filter_keeps_all(front, keep);
    assert(front + marked.skip(cut) =~= marked);
}

/// The roster: entries in order of first appearance, with the index over them.
pub struct PlayerVecMap {
    player_list: Vec<Player>,
    name_dict: NameIndex,
}

impl View for PlayerVecMap {
    type V = Seq<PlayerView>;

    closed spec fn view(&self) -> Seq<PlayerView> {
        entries_view(self.player_list@)
    }
}

impl PlayerVecMap {
    /// The index as a map from names to positions.
    pub closed spec fn index(&self) -> Map<Seq<char>, usize> {
        self.name_dict@
    }

    /// The index is sound in itself.
    pub closed spec fn index_wf(&self) -> bool {
        self.name_dict.wf()
    }

    /// The invariant of the store: index and sequence are in lock step.
    pub open spec fn wf(&self) -> bool {
        &&& self.index_wf()
        &&& in_lock_step(self@, self.index())
    }

    /// A roster without entries.
    pub fn new() -> (store: PlayerVecMap)
        ensures
            store.wf(),
            store@ == Seq::<PlayerView>::empty(),
    {
        PlayerVecMap { player_list: Vec::new(), name_dict: NameIndex::new() }
    }

    /// The number of entries.
    pub fn len(&self) -> (count: usize)
        ensures
            count == self@.len(),
    {
        self.player_list.len()
    }

    /// The entry at `position`, counted in order of first appearance.
    pub fn get(&self, position: usize) -> (player: &Player)
        requires
            position < self@.len(),
        ensures
            player@ == self@[position as int],
    {
        &self.player_list[position]
    }

    /// The entries in order of first appearance. This is the roster itself,
    /// not a copy of it.
    pub fn players(&self) -> (players: &Vec<Player>)
        ensures
            entries_view(players@) == self@,
    {
        &self.player_list
    }

    /// Where the index says the entry for `username` is.
    pub fn position(&self, username: &str) -> (position: Option<usize>)
        requires
            self.wf(),
        ensures
            position == (if self.index().contains_key(username@) {
                Some(self.index()[username@])
            } else {
                None
            }),
    {
        self.name_dict.get(username)
    }

    /// Whether the entry for `username` would be dropped if the player left now.
    pub fn is_deletable(&self, username: &str) -> (deletable: bool)
        requires
            self.wf(),
        ensures
            deletable == (has_name(self@, username@) && retainable_as_empty(
                self@[place_of(self@, username@)],
            )),
    {
        match self.name_dict.get(username) {
            Some(position) => self.player_list[position].is_retainable_as_empty(),
            None => false,
        }
    }

    /// Makes sure there is an entry for `username` and returns its position. A
    /// new entry gets `comment` and is not in the squad; an entry that is
    /// there already is left as it is, and `comment` is dropped.
    pub fn add_player(&mut self, username: &str, comment: String) -> (position: usize)
        requires
            old(self).wf(),
        ensures
            final(self).wf(),
            final(self)@ == added(old(self)@, username@, comment@),
            named_at(final(self)@, username@, position as int),
    {
        match self.name_dict.get(username) {
            Some(position) => position,
            None => {
                let position = self.player_list.len();
                let player = Player::new(username.to_owned(), comment);
                self.name_dict.insert(username.to_owned(), position);
                self.player_list.push(player);
                assert(self@ =~= old(self)@.push(player@));
                position
            },
        }
    }

    /// `username` is in the squad: the entry is created if need be and marked
    /// present. A comment that is there stays.
    pub fn join(&mut self, username: &str)
        requires
            old(self).wf(),
        ensures
            final(self).wf(),
            final(self)@ == joined(old(self)@, username@),
    {
        let position = self.add_player(username, String::new());
        self.mark(position, true);
    }

    /// Sets the presence flag of the entry at `position`.
    fn mark(&mut self, position: usize, in_squad: bool)
        requires
            old(self).wf(),
            position < old(self)@.len(),
        ensures
            final(self).wf(),
            final(self)@ == old(self)@.update(
                position as int,
                with_presence(old(self)@[position as int], in_squad),
            ),
    {
        let player = &mut self.player_list[position];
        player.set_in_squad(in_squad);
        assert(self@ =~= old(self)@.update(
            position as int,
            with_presence(old(self)@[position as int], in_squad),
        ));
    }

    /// `username` has left the squad. An entry without a comment is removed;
    /// one with a comment stays and is marked absent. Nothing happens where
    /// there is no entry.
    pub fn user_left(&mut self, username: &str)
        requires
            old(self).wf(),
        ensures
            final(self).wf(),
            final(self)@ == departed(old(self)@, username@),
    {
        match self.name_dict.get(username) {
            Some(position) => {
                if self.player_list[position].is_retainable_as_empty() {
                    self.delete_at(position);
                } else {
                    self.mark(position, false);
                }
            },
            None => {},
        }
    }

    /// Removes the entry at position `index`: the entries behind it move one
    /// step to the front, its name leaves the index, and every position that
    /// the index holds behind it is lowered by one.
    pub fn delete_at(&mut self, index: usize)
        requires
            old(self).wf(),
            index < old(self)@.len(),
        ensures
            final(self).wf(),
            final(self)@ == old(self)@.remove(index as int),
    {
        proof {
            lemma_lock_step_remove(self@, self.index(), index);
        }
        let gone = self.player_list.remove(index);
        self.name_dict.remove(gone.name());
        self.name_dict.shift_after(index);
        assert(self@ =~= old(self)@.remove(index as int));
    }

    /// Removes the entry for `username`, whatever its comment. Nothing
    /// happens where there is no entry.
    pub fn delete(&mut self, username: &str)
        requires
            old(self).wf(),
        ensures
            final(self).wf(),
            final(self)@ == deleted(old(self)@, username@),
    {
        match self.name_dict.get(username) {
            Some(position) => {
                self.delete_at(position);
            },
            None => {},
        }
    }

    /// Replaces the comment of the entry for `username`. Nothing happens
    /// where there is no entry.
    pub fn set_comment(&mut self, username: &str, comment: String)
        requires
            old(self).wf(),
        ensures
            final(self).wf(),
            final(self)@ == annotated(old(self)@, username@, comment@),
    {
        match self.name_dict.get(username) {
            Some(position) => {
                let player = &mut self.player_list[position];
                player.set_comment(comment);
                assert(self@ =~= annotated(old(self)@, username@, comment@));
            },
            None => {},
        }
    }

    /// The local player has left, which ends the view of the squad: every
    /// entry is marked absent, and the entries without a comment are removed.
    /// The positions to remove are collected from the back of the roster to
    /// its front and removed in that order, so that no removal moves an entry
    /// that is still to be removed.
    pub fn delete_all(&mut self)
        requires
            old(self).wf(),
        ensures
            final(self).wf(),
            final(self)@ == swept(old(self)@),
    {
        let ghost marked = old(self)@.map_values(marked_absent());
        let count = self.player_list.len();
        let mut delete_list: Vec<usize> = Vec::new();
        let mut i: usize = count;
        while i > 0
            invariant
                self.wf(),
                i <= count,
                count == marked.len(),
                self@.len() == count,
                marked == old(self)@.map_values(marked_absent()),
                forall|j: int| 0 <= j < i ==> #[trigger] self@[j] == old(self)@[j],
                forall|j: int| i <= j < count ==> #[trigger] self@[j] == marked[j],
                forall|a: int, b: int|
                    0 <= a < b < delete_list.len() ==> delete_list[a] > delete_list[b],
                forall|a: int|
                    0 <= a < delete_list.len() ==> i <= (#[trigger] delete_list[a]) < count
                        && retainable_as_empty(marked[delete_list[a] as int]),
                forall|j: int|
                    i <= j < count && retainable_as_empty(#[trigger] marked[j])
                        ==> delete_list@.contains(j as usize),
            decreases i,
        {
            i -= 1;
            let ghost listed = delete_list@;
            self.mark(i, false);
            assert(self@[i as int] == marked[i as int]);
            if self.player_list[i].is_retainable_as_empty() {
                delete_list.push(i);
                assert(delete_list@[listed.len() as int] == i);
            }
            assert forall|j: int|
                i <= j < count && retainable_as_empty(#[trigger] marked[j]) implies delete_list@.contains(
                j as usize,
            ) by {
                if j != i {
                    let a = choose|a: int| 0 <= a < listed.len() && listed[a] == j as usize;
                    assert(delete_list@[a] == j as usize);
                }
            }
        }
        let mut k: usize = 0;
        while k < delete_list.len()
            invariant
                self.wf(),
                k <= delete_list.len(),
                count == marked.len(),
                self@ == swept_from(
                    marked,
                    if k == 0 {
                        count as int
                    } else {
                        delete_list[k - 1] as int
                    },
                ),
                forall|a: int, b: int|
                    0 <= a < b < delete_list.len() ==> delete_list[a] > delete_list[b],
                forall|a: int|
                    0 <= a < delete_list.len() ==> (#[trigger] delete_list[a]) < count
                        && retainable_as_empty(marked[delete_list[a] as int]),
                forall|j: int|
                    0 <= j < count && retainable_as_empty(#[trigger] marked[j])
                        ==> delete_list@.contains(j as usize),
            decreases delete_list.len() - k,
        {
            let at = delete_list[k];
            proof {
                let cut = if k == 0 {
                    count as int
                } else {
                    delete_list[k - 1] as int
                };
                lemma_sweep_step(marked, cut, at as int);
            }
            self.delete_at(at);
            k += 1;
        }
        proof {
            let cut = if k == 0 {
                count as int
            } else {
                delete_list[k - 1] as int
            };
            lemma_sweep_done(marked, cut);
        }
    }

    /// The entries that are worth saving: those with a comment, in order.
    pub fn to_records(&self) -> (records: Vec<PlayerRecord>)
        ensures
            records_view(records@) == saved(self@),
    {
        let mut records: Vec<PlayerRecord> = Vec::new();
        let mut i: usize = 0;
        while i < self.player_list.len()
            invariant
                i <= self.player_list.len(),
                self.player_list.len() == self@.len(),
                records_view(records@) == saved(self@.take(i as int)),
            decreases self.player_list.len() - i,
        {
            let player = &self.player_list[i];
            let ghost before = records@;
            proof {
                reveal(Seq::filter);
                assert(self@.take(i + 1).drop_last() =~= self@.take(i as int));
            }
            if !player.is_retainable_as_empty() {
                let record = PlayerRecord {
                    name: player.name().to_owned(),
                    comment: player.comment().to_owned(),
                };
                records.push(record);
                assert(records_view(records@) =~= records_view(before).push(record@));
            }
            i += 1;
        }
        assert(self@.take(i as int) =~= self@);
        records
    }

    /// The roster that `records` give back: each is added in turn, nobody is
    /// in the squad, and of two records with one name the first stands.
    pub fn from_records(records: &Vec<PlayerRecord>) -> (store: PlayerVecMap)
        ensures
            store.wf(),
            store@ == restored(records_view(records@)),
    {
        let mut store = PlayerVecMap::new();
        let mut i: usize = 0;
        while i < records.len()
            invariant
                i <= records.len(),
                store.wf(),
                store@ == restored(records_view(records@).take(i as int)),
            decreases records.len() - i,
        {
            let record = &records[i];
            assert(records_view(records@).take(i + 1).drop_last() =~= records_view(records@).take(
                i as int,
            ));
            store.add_player(record.name.as_str(), record.comment.clone());
            i += 1;
        }
        assert(records_view(records@).take(i as int) =~= records_view(records@));
        store
    }
}

} // verus!
