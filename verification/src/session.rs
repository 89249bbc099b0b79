//! The state of a session and the adapter that turns the host's membership
//! events, key events and settings commands into changes of it.

use vstd::prelude::*;
use crate::keys::code_of_key;
use crate::keys::key_code;
use crate::keys::key_matches;
use crate::keys::key_number;
use crate::player::PlayerView;
use crate::roster::PlayerVecMap;
use crate::roster::departed;
use crate::roster::joined;
use crate::roster::swept;

verus! {

/// The texts by which the displayed rows are narrowed down, in lowercase.
pub struct Filters {
    pub user_filter_str: String,
    pub comment_filter_str: String,
}

impl Filters {
    /// No filter: both texts are empty.
    pub fn new() -> (filters: Filters)
        ensures
            filters.user_filter_str@ == Seq::<char>::empty(),
            filters.comment_filter_str@ == Seq::<char>::empty(),
    {
        Filters { user_filter_str: String::new(), comment_filter_str: String::new() }
    }
}

/// The switches of a session.
pub struct Flags {
    /// The host has told us who the local player is.
    pub extras_initialized: bool,
    /// The window is open.
    pub display_window: bool,
    /// Absent players are listed too.
    pub show_all: bool,
}

impl Flags {
    /// Every switch off.
    pub fn new() -> (flags: Flags)
        ensures
            flags == (Flags { extras_initialized: false, display_window: false, show_all: false }),
    {
        Flags { extras_initialized: false, display_window: false, show_all: false }
    }
}

/// Everything that a session keeps: the roster, who the local player is, and
/// the settings of the window.
pub struct State {
    pub players: PlayerVecMap,
    pub self_name: String,
    pub flags: Flags,
    pub filters: Filters,
    pub add_user_text: String,
    /// The code of the key that opens and closes the window.
    pub shortcut_char: Option<i32>,
    /// The next key that goes down becomes the shortcut.
    pub listening_to_key: bool,
}

/// What a `State` holds, as plain values.
pub struct StateView {
    pub players: Seq<PlayerView>,
    pub self_name: Seq<char>,
    pub extras_initialized: bool,
    pub display_window: bool,
    pub show_all: bool,
    pub user_filter: Seq<char>,
    pub comment_filter: Seq<char>,
    pub add_user_text: Seq<char>,
    pub shortcut_char: Option<i32>,
    pub listening_to_key: bool,
}

impl View for State {
    type V = StateView;

    open spec fn view(&self) -> StateView {
        StateView {
            players: self.players@,
            self_name: self.self_name@,
            extras_initialized: self.flags.extras_initialized,
            display_window: self.flags.display_window,
            show_all: self.flags.show_all,
            user_filter: self.filters.user_filter_str@,
            comment_filter: self.filters.comment_filter_str@,
            add_user_text: self.add_user_text@,
            shortcut_char: self.shortcut_char,
            listening_to_key: self.listening_to_key,
        }
    }
}

/// The role that the host reports for a user of the squad.
pub enum UserRole {
    SquadLeader,
    Lieutenant,
    Member,
    Invited,
    Applied,
    /// The user was removed from the squad.
    Removed,
    Invalid,
}

/// One membership update of the host.
pub struct UserUpdate {
    pub account_name: Option<String>,
    pub role: UserRole,
}

/// A membership update as plain values.
pub struct UpdateView {
    pub account_name: Option<Seq<char>>,
    pub role: UserRole,
}

impl View for UserUpdate {
    type V = UpdateView;

    open spec fn view(&self) -> UpdateView {
        UpdateView {
            account_name: match self.account_name {
                Some(name) => Some(name@),
                None => None,
            },
            role: self.role,
        }
    }
}

/// Whether `name` is the local player. As long as the host has not said who
/// the local player is, nobody is.
pub open spec fn is_self(state: StateView, name: Seq<char>) -> bool {
    state.extras_initialized && state.self_name == name
}

/// The state with another roster.
pub open spec fn with_players(state: StateView, players: Seq<PlayerView>) -> StateView {
    StateView { players, ..state }
}

/// `name` is no longer in the squad. Where the local player leaves, the
/// roster is swept; anybody else leaves alone.
pub open spec fn after_removal(state: StateView, name: Seq<char>) -> StateView {
    if is_self(state, name) {
        with_players(state, swept(state.players))
    } else {
        with_players(state, departed(state.players, name))
    }
}

/// `name` is in the squad. The local player is never entered into the roster.
pub open spec fn after_arrival(state: StateView, name: Seq<char>) -> StateView {
    if is_self(state, name) {
        state
    } else {
        with_players(state, joined(state.players, name))
    }
}

/// The state after one membership update: an update without a name changes
/// nothing, the role `Removed` means that the user has left, and any other role
/// that the user is there.
pub open spec fn after_update(state: StateView, update: UpdateView) -> StateView {
    match update.account_name {
        Some(name) => match update.role {
            UserRole::Removed => after_removal(state, name),
            _ => after_arrival(state, name),
        },
        None => state,
    }
}

/// The state after a run of membership updates, taken in order.
pub open spec fn after_updates(state: StateView, updates: Seq<UpdateView>) -> StateView
    decreases updates.len(),
{
    if updates.len() == 0 {
        state
    } else {
        after_update(after_updates(state, updates.drop_last()), updates.last())
    }
}

/// The updates that a list of updates stands for.
pub open spec fn updates_view(updates: Seq<UserUpdate>) -> Seq<UpdateView> {
    updates.map_values(|update: UserUpdate| update@)
}

/// Whether a key event is the shortcut: the key goes down, it is not held,
/// and it is the key that was chosen.
pub open spec fn is_shortcut(state: StateView, key: usize, key_down: bool, holding_key: bool) -> bool {
    &&& key_down
    &&& !holding_key
    &&& state.shortcut_char matches Some(code)
    &&& key == key_number(code)
}

/// Whether a key event is taken as the new shortcut.
pub open spec fn is_captured(state: StateView, key_down: bool, holding_key: bool) -> bool {
    key_down && !holding_key && state.listening_to_key
}

/// What the user can ask for on the shortcut's line of the settings.
pub enum ShortcutCommand {
    /// Forget the shortcut.
    Clear,
    /// Take the next key that goes down as the shortcut.
    Listen,
    /// Stop waiting for a key, and forget the shortcut.
    Cancel,
}

/// The state after a command on the shortcut's line of the settings.
pub open spec fn after_command(state: StateView, command: ShortcutCommand) -> StateView {
    match command {
        ShortcutCommand::Clear => StateView { shortcut_char: None, ..state },
        ShortcutCommand::Listen => StateView { listening_to_key: true, ..state },
        ShortcutCommand::Cancel => StateView {
            shortcut_char: None,
            listening_to_key: false,
            ..state
        },
    }
}

impl State {
    /// The invariant of the state is that of its roster.
    pub open spec fn wf(&self) -> bool {
        self.players.wf()
    }

    /// The state at start: an empty roster, the local player unknown, the
    /// window closed, no filter and no shortcut.
    pub fn new() -> (state: State)
        ensures
            state.wf(),
            state@ == (StateView {
                players: Seq::empty(),
                self_name: Seq::empty(),
                extras_initialized: false,
                display_window: false,
                show_all: false,
                user_filter: Seq::empty(),
                comment_filter: Seq::empty(),
                add_user_text: Seq::empty(),
                shortcut_char: None,
                listening_to_key: false,
            }),
    {
        State {
            players: PlayerVecMap::new(),
            self_name: String::new(),
            flags: Flags::new(),
            filters: Filters::new(),
            add_user_text: String::new(),
            shortcut_char: None,
            listening_to_key: false,
        }
    }

    /// Whether `username` is the local player.
    pub fn is_self(&self, username: &str) -> (own: bool)
        ensures
            own == is_self(self@, username@),
    {
        if self.flags.extras_initialized {
            let name = username.to_owned();
            name == self.self_name
        } else {
            false
        }
    }
}

/// The host says who the local player is. Without a name nothing changes.
pub fn init_extras(state: &mut State, self_name: Option<&str>)
    requires
        old(state).wf(),
    ensures
        final(state).wf(),
        final(state)@ == (match self_name {
            Some(name) => StateView { extras_initialized: true, self_name: name@, ..old(state)@ },
            None => old(state)@,
        }),
{
    if let Some(name) = self_name {
        state.flags.extras_initialized = true;
        state.self_name = name.to_owned();
    }
}

/// `username` is no longer in the squad.
pub fn remove_user(state: &mut State, username: &str)
    requires
        old(state).wf(),
    ensures
        final(state).wf(),
        final(state)@ == after_removal(old(state)@, username@),
{
    if state.is_self(username) {
        state.players.delete_all();
    } else {
        state.players.user_left(username);
    }
}

/// `username` is in the squad.
pub fn add_user(state: &mut State, username: &str)
    requires
        old(state).wf(),
    ensures
        final(state).wf(),
        final(state)@ == after_arrival(old(state)@, username@),
{
    if !state.is_self(username) {
        state.players.join(username);
    }
}

/// Takes the membership updates of the host, in order.
pub fn squad_update(state: &mut State, users: &Vec<UserUpdate>)
    requires
        old(state).wf(),
    ensures
        final(state).wf(),
        final(state)@ == after_updates(old(state)@, updates_view(users@)),
{
    let mut i: usize = 0;
    while i < users.len()
        invariant
            i <= users.len(),
            state.wf(),
            state@ == after_updates(old(state)@, updates_view(users@).take(i as int)),
        decreases users.len() - i,
    {
        let user = &users[i];
        assert(updates_view(users@).take(i + 1).drop_last() =~= updates_view(users@).take(i as int));
        if let Some(username) = &user.account_name {
            match user.role {
                UserRole::Removed => remove_user(state, username.as_str()),
                _ => add_user(state, username.as_str()),
            }
        }
        i += 1;
    }
    assert(updates_view(users@).take(i as int) =~= updates_view(users@));
}

/// A key event while the window's shortcut is active. The shortcut opens or
/// closes the window and is taken out of the host's hands: the answer is
/// `false` exactly then. Any other event is passed on.
pub fn shortcuts(state: &mut State, key: usize, key_down: bool, holding_key: bool) -> (pass_on: bool)
    ensures
        pass_on == !is_shortcut(old(state)@, key, key_down, holding_key),
        final(state)@ == (if is_shortcut(old(state)@, key, key_down, holding_key) {
            StateView { display_window: !old(state)@.display_window, ..old(state)@ }
        } else {
            old(state)@
        }),
        final(state).players == old(state).players,
{
    if key_down && !holding_key {
        if let Some(code) = state.shortcut_char {
            if key_matches(code, key) {
                state.flags.display_window = !state.flags.display_window;
                return false;
            }
        }
    }
    true
}

/// A key event while no filter of the host applies. While the settings wait
/// for a key, the first key that goes down becomes the shortcut and is taken
/// out of the host's hands: the answer is `false` exactly then.
pub fn nofilter(state: &mut State, key: usize, key_down: bool, holding_key: bool) -> (pass_on: bool)
    ensures
        pass_on == !is_captured(old(state)@, key_down, holding_key),
        final(state)@ == (if is_captured(old(state)@, key_down, holding_key) {
            StateView {
                listening_to_key: false,
                shortcut_char: Some(key_code(key)),
                ..old(state)@
            }
        } else {
            old(state)@
        }),
        final(state).players == old(state).players,
{
    if key_down && !holding_key && state.listening_to_key {
        state.listening_to_key = false;
        state.shortcut_char = Some(code_of_key(key));
        return false;
    }
    true
}

/// A command on the shortcut's line of the settings.
pub fn shortcut_command(state: &mut State, command: ShortcutCommand)
    ensures
        final(state)@ == after_command(old(state)@, command),
        final(state).players == old(state).players,
{
    match command {
        ShortcutCommand::Clear => {
            state.shortcut_char = None;
        },
        ShortcutCommand::Listen => {
            state.listening_to_key = true;
        },
        ShortcutCommand::Cancel => {
            state.listening_to_key = false;
            state.shortcut_char = None;
        },
    }
}

} // verus!
