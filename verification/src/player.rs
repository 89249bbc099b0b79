//! A single roster entry.

use vstd::prelude::*;
use crate::text::FoldedText;
use crate::text::lowercase;

verus! {

/// What an entry stands for: who it is, what was noted about them, and whether
/// they are in the squad right now.
pub struct PlayerView {
    pub name: Seq<char>,
    pub comment: Seq<char>,
    pub in_squad: bool,
}

/// Whether an entry may be dropped silently when its player leaves: it may
/// exactly when nothing was noted about the player.
pub open spec fn retainable_as_empty(entry: PlayerView) -> bool {
    entry.comment.len() == 0
}

/// The same entry, marked as being in the squad or not.
pub open spec fn with_presence(entry: PlayerView, in_squad: bool) -> PlayerView {
    PlayerView { name: entry.name, comment: entry.comment, in_squad }
}

/// The same entry with another comment.
pub open spec fn with_comment(entry: PlayerView, comment: Seq<char>) -> PlayerView {
    PlayerView { name: entry.name, comment, in_squad: entry.in_squad }
}

/// One tracked player. The name never changes once the entry exists.
pub struct Player {
    name: FoldedText,
    comment: FoldedText,
    in_squad: bool,
}

impl View for Player {
    type V = PlayerView;

    closed spec fn view(&self) -> PlayerView {
        PlayerView { name: self.name@, comment: self.comment@, in_squad: self.in_squad }
    }
}

impl Player {
    /// A new entry for `name`, not in the squad.
    pub fn new(name: String, comment: String) -> (player: Player)
        ensures
            player@ == (PlayerView { name: name@, comment: comment@, in_squad: false }),
    {
        Player { name: FoldedText::new(name), comment: FoldedText::new(comment), in_squad: false }
    }

    /// The name, as it was first seen.
    pub fn name(&self) -> (name: &str)
        ensures
            name@ == self@.name,
    {
        self.name.as_str()
    }

    /// The name in lowercase, for filtering.
    pub fn lowercase_name(&self) -> (lowered: &str)
        ensures
            lowered@ == lowercase(self@.name),
    {
        self.name.lowered()
    }

    /// What was noted about the player; empty where nothing was.
    pub fn comment(&self) -> (comment: &str)
        ensures
            comment@ == self@.comment,
    {
        self.comment.as_str()
    }

    /// The comment in lowercase, for filtering.
    pub fn lowercase_comment(&self) -> (lowered: &str)
        ensures
            lowered@ == lowercase(self@.comment),
    {
        self.comment.lowered()
    }

    /// Whether the player is in the squad right now.
    pub fn in_squad(&self) -> (present: bool)
        ensures
            present == self@.in_squad,
    {
        self.in_squad
    }

    /// The retention rule, read from the comment as it is now.
    pub fn is_retainable_as_empty(&self) -> (retainable: bool)
        ensures
            retainable == retainable_as_empty(self@),
    {
        self.comment.is_empty()
    }

    /// Replaces the comment; the lowercase form follows.
    pub fn set_comment(&mut self, comment: String)
        ensures
            final(self)@ == with_comment(old(self)@, comment@),
    {
        self.comment = FoldedText::new(comment);
    }

    /// Marks the player as being in the squad or not.
    pub fn set_in_squad(&mut self, in_squad: bool)
        ensures
            final(self)@ == with_presence(old(self)@, in_squad),
    {
        self.in_squad = in_squad;
    }
}

/// What is stored of a player between sessions.
pub struct PlayerRecord {
    pub name: String,
    pub comment: String,
}

/// The name and the comment of a stored player.
pub struct RecordView {
    pub name: Seq<char>,
    pub comment: Seq<char>,
}

impl View for PlayerRecord {
    type V = RecordView;

    open spec fn view(&self) -> RecordView {
        RecordView { name: self.name@, comment: self.comment@ }
    }
}

} // verus!
