use player_list::session::add_user;
use player_list::session::init_extras;
use player_list::session::nofilter;
use player_list::session::remove_user;
use player_list::session::shortcut_command;
use player_list::session::shortcuts;
use player_list::session::squad_update;
use player_list::session::Filters;
use player_list::session::Flags;
use player_list::session::ShortcutCommand;
use player_list::session::State;
use player_list::session::UserRole;
use player_list::session::UserUpdate;

fn rows(state: &State) -> Vec<(String, String, bool)> {
    state
        .players
        .players()
        .iter()
        .map(|p| (p.name().to_string(), p.comment().to_string(), p.in_squad()))
        .collect()
}

fn row(name: &str, comment: &str, in_squad: bool) -> (String, String, bool) {
    (name.to_string(), comment.to_string(), in_squad)
}

fn update(name: &str, role: UserRole) -> UserUpdate {
    UserUpdate { account_name: Some(name.to_string()), role }
}

#[test]
fn state_starts_empty() {
    let state = State::new();
    assert_eq!(state.players.len(), 0);
    assert_eq!(state.self_name, "");
    assert!(!state.flags.extras_initialized);
    assert!(!state.flags.display_window);
    assert!(!state.flags.show_all);
    assert_eq!(state.filters.user_filter_str, "");
    assert_eq!(state.filters.comment_filter_str, "");
    assert_eq!(state.add_user_text, "");
    assert_eq!(state.shortcut_char, None);
    assert!(!state.listening_to_key);
}

#[test]
fn flags_and_filters_start_off_and_empty() {
    let flags = Flags::new();
    assert!(!flags.extras_initialized && !flags.display_window && !flags.show_all);
    let filters = Filters::new();
    assert!(filters.user_filter_str.is_empty() && filters.comment_filter_str.is_empty());
}

#[test]
fn init_extras_takes_the_name_of_the_local_player() {
    let mut state = State::new();
    init_extras(&mut state, None);
    assert!(!state.flags.extras_initialized);
    assert_eq!(state.self_name, "");
    init_extras(&mut state, Some("me.1234"));
    assert!(state.flags.extras_initialized);
    assert_eq!(state.self_name, "me.1234");
}

#[test]
fn squad_scenario_with_annotated_and_plain_players() {
    let mut state = State::new();
    init_extras(&mut state, Some("me"));
    add_user(&mut state, "alice");
    add_user(&mut state, "bob");
    state.players.set_comment("bob", "tank".to_string());
    remove_user(&mut state, "alice");
    assert_eq!(rows(&state), vec![row("bob", "tank", true)]);
    remove_user(&mut state, "bob");
    assert_eq!(rows(&state), vec![row("bob", "tank", false)]);
    assert_eq!(state.players.position("bob"), Some(0));
}

#[test]
fn self_leaving_sweeps_the_roster() {
    let mut state = State::new();
    init_extras(&mut state, Some("me"));
    add_user(&mut state, "alice");
    add_user(&mut state, "bob");
    state.players.set_comment("bob", "tank".to_string());
    remove_user(&mut state, "alice");
    remove_user(&mut state, "me");
    assert_eq!(rows(&state), vec![row("bob", "tank", false)]);
    assert_eq!(state.players.len(), 1);
}

#[test]
fn the_local_player_is_never_entered() {
    let mut state = State::new();
    init_extras(&mut state, Some("me"));
    add_user(&mut state, "me");
    assert_eq!(state.players.len(), 0);
    add_user(&mut state, "Me");
    assert_eq!(rows(&state), vec![row("Me", "", true)]);
}

#[test]
fn while_the_local_player_is_unknown_nobody_is_self() {
    let mut state = State::new();
    add_user(&mut state, "alice");
    add_user(&mut state, "");
    assert_eq!(rows(&state), vec![row("alice", "", true), row("", "", true)]);
    remove_user(&mut state, "");
    assert_eq!(rows(&state), vec![row("alice", "", true)]);
    assert!(!state.is_self(""));
    init_extras(&mut state, Some("me"));
    assert!(state.is_self("me"));
    assert!(!state.is_self("alice"));
}

#[test]
fn squad_update_routes_each_update_by_its_role() {
    let mut state = State::new();
    init_extras(&mut state, Some("me"));
    squad_update(
        &mut state,
        &vec![
            update("a", UserRole::SquadLeader),
            update("b", UserRole::Lieutenant),
            update("c", UserRole::Member),
            update("d", UserRole::Invited),
            update("e", UserRole::Applied),
            update("f", UserRole::Invalid),
            UserUpdate { account_name: None, role: UserRole::Member },
            UserUpdate { account_name: None, role: UserRole::Removed },
            update("me", UserRole::Member),
            update("c", UserRole::Removed),
        ],
    );
    assert_eq!(
        rows(&state),
        vec![
            row("a", "", true),
            row("b", "", true),
            row("d", "", true),
            row("e", "", true),
            row("f", "", true),
        ]
    );
    state.players.set_comment("d", "kept".to_string());
    squad_update(&mut state, &vec![update("me", UserRole::Removed)]);
    assert_eq!(rows(&state), vec![row("d", "kept", false)]);
    squad_update(&mut state, &vec![]);
    assert_eq!(rows(&state), vec![row("d", "kept", false)]);
}

#[test]
fn shortcut_toggles_the_window() {
    let mut state = State::new();
    state.shortcut_char = Some(80);
    assert!(!shortcuts(&mut state, 80, true, false));
    assert!(state.flags.display_window);
    assert!(!shortcuts(&mut state, 80, true, false));
    assert!(!state.flags.display_window);
}

#[test]
fn other_key_events_are_passed_on() {
    let mut state = State::new();
    assert!(shortcuts(&mut state, 80, true, false));
    state.shortcut_char = Some(80);
    assert!(shortcuts(&mut state, 81, true, false));
    assert!(shortcuts(&mut state, 80, false, false));
    assert!(shortcuts(&mut state, 80, true, true));
    assert!(!state.flags.display_window);
}

#[test]
fn shortcut_with_a_negative_code_matches_the_key_with_the_same_bits() {
    let mut state = State::new();
    state.shortcut_char = Some(-1);
    assert!(!shortcuts(&mut state, usize::MAX, true, false));
    assert!(state.flags.display_window);
    assert!(shortcuts(&mut state, 1, true, false));
    state.shortcut_char = Some(i32::MIN);
    assert!(!shortcuts(&mut state, usize::MAX - 0x7fff_ffff, true, false));
    assert!(!state.flags.display_window);
}

#[test]
fn nofilter_captures_the_next_key_while_listening() {
    let mut state = State::new();
    assert!(nofilter(&mut state, 70, true, false));
    assert_eq!(state.shortcut_char, None);
    shortcut_command(&mut state, ShortcutCommand::Listen);
    assert!(state.listening_to_key);
    assert!(nofilter(&mut state, 70, false, false));
    assert!(nofilter(&mut state, 70, true, true));
    assert!(state.listening_to_key);
    assert!(!nofilter(&mut state, 70, true, false));
    assert_eq!(state.shortcut_char, Some(70));
    assert!(!state.listening_to_key);
    assert!(nofilter(&mut state, 71, true, false));
    assert_eq!(state.shortcut_char, Some(70));
}

#[test]
fn shortcut_commands_clear_listen_and_cancel() {
    let mut state = State::new();
    state.shortcut_char = Some(65);
    shortcut_command(&mut state, ShortcutCommand::Listen);
    assert!(state.listening_to_key);
    assert_eq!(state.shortcut_char, Some(65));
    shortcut_command(&mut state, ShortcutCommand::Cancel);
    assert!(!state.listening_to_key);
    assert_eq!(state.shortcut_char, None);
    state.shortcut_char = Some(66);
    shortcut_command(&mut state, ShortcutCommand::Clear);
    assert_eq!(state.shortcut_char, None);
    assert!(!state.listening_to_key);
}
