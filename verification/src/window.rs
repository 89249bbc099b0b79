//! What the window lists, and what its controls do to the state.

use vstd::prelude::*;
use crate::player::Player;
use crate::player::PlayerView;
use crate::roster::added;
use crate::session::State;
use crate::session::StateView;
use crate::text::lowercase;
use crate::text::starts_with;
use crate::text::to_lowercase;

verus! {

/// Whether the window lists `entry`: its name and its comment, in lowercase,
/// begin with the filters, and it is in the squad unless everybody is shown.
/// An empty filter lets everything through.
pub open spec fn listed(state: StateView, entry: PlayerView) -> bool {
    &&& state.user_filter.is_prefix_of(lowercase(entry.name))
    &&& state.comment_filter.is_prefix_of(lowercase(entry.comment))
    &&& (state.show_all || entry.in_squad)
}

/// The positions of the entries that the window lists, among the first
/// `upto` entries, in order.
pub open spec fn listed_rows(state: StateView, upto: int) -> Seq<usize>
    decreases upto,
{
    if upto <= 0 {
        Seq::empty()
    } else if listed(state, state.players[upto - 1]) {
        listed_rows(state, upto - 1).push((upto - 1) as usize)
    } else {
        listed_rows(state, upto - 1)
    }
}

/// The comment that a player gets who is added by hand.
pub open spec fn placeholder() -> Seq<char> {
    "Comment here"@
}

/// The state after the button that adds a player was pressed: the name that
/// was typed is added with the placeholder as its comment, and the field is
/// cleared. With an empty field nothing happens.
pub open spec fn after_add(state: StateView) -> StateView {
    if state.add_user_text.len() > 0 {
        StateView {
            players: added(state.players, state.add_user_text, placeholder()),
            add_user_text: Seq::empty(),
            ..state
        }
    } else {
        state
    }
}

/// Whether the window lists `player`.
pub fn is_listed(state: &State, player: &Player) -> (shown: bool)
    ensures
        shown == listed(state@, player@),
{
    starts_with(player.lowercase_name(), state.filters.user_filter_str.as_str()) && starts_with(
        player.lowercase_comment(),
        state.filters.comment_filter_str.as_str(),
    ) && (state.flags.show_all || player.in_squad())
}

/// The positions of the entries that the window lists, in order.
pub fn visible_rows(state: &State) -> (rows: Vec<usize>)
    ensures
        rows@ == listed_rows(state@, state@.players.len() as int),
{
    let mut rows: Vec<usize> = Vec::new();
    let count = state.players.len();
    let mut i: usize = 0;
    while i < count
        invariant
            i <= count,
            count == state@.players.len(),
            rows@ == listed_rows(state@, i as int),
        decreases count - i,
    {
        if is_listed(state, state.players.get(i)) {
            rows.push(i);
        }
        i += 1;
    }
    rows
}

/// The button that adds a player was pressed.
pub fn add_typed_user(state: &mut State)
    requires
        old(state).wf(),
    ensures
        final(state).wf(),
        final(state)@ == after_add(old(state)@),
{
    if !state.add_user_text.as_str().is_empty() {
        let comment = "Comment here".to_owned();
        state.players.add_player(state.add_user_text.as_str(), comment);
        state.add_user_text = String::new();
    }
}

/// The filter on names was edited: it is kept in lowercase.
pub fn fold_user_filter(state: &mut State)
    ensures
        final(state)@ == (StateView {
            user_filter: lowercase(old(state)@.user_filter),
            ..old(state)@
        }),
        final(state).players == old(state).players,
{
    state.filters.user_filter_str = to_lowercase(state.filters.user_filter_str.as_str());
}

/// The filter on comments was edited: it is kept in lowercase.
pub fn fold_comment_filter(state: &mut State)
    ensures
        final(state)@ == (StateView {
            comment_filter: lowercase(old(state)@.comment_filter),
            ..old(state)@
        }),
        final(state).players == old(state).players,
{
    state.filters.comment_filter_str = to_lowercase(state.filters.comment_filter_str.as_str());
}

} // verus!
