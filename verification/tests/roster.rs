use player_list::player::PlayerRecord;
use player_list::roster::PlayerVecMap;

fn rows(store: &PlayerVecMap) -> Vec<(String, String, bool)> {
    store
        .players()
        .iter()
        .map(|p| (p.name().to_string(), p.comment().to_string(), p.in_squad()))
        .collect()
}

fn row(name: &str, comment: &str, in_squad: bool) -> (String, String, bool) {
    (name.to_string(), comment.to_string(), in_squad)
}

fn assert_in_lock_step(store: &PlayerVecMap) {
    for i in 0..store.len() {
        assert_eq!(store.position(store.get(i).name()), Some(i));
    }
    let names: Vec<&str> = store.players().iter().map(|p| p.name()).collect();
    for (i, name) in names.iter().enumerate() {
        assert_eq!(names.iter().position(|other| other == name), Some(i));
    }
}

#[test]
fn new_roster_is_empty() {
    let store = PlayerVecMap::new();
    assert_eq!(store.len(), 0);
    assert!(store.players().is_empty());
    assert_eq!(store.position("alice"), None);
}

#[test]
fn join_creates_a_present_entry_without_comment() {
    let mut store = PlayerVecMap::new();
    store.join("Alice.1234");
    assert_eq!(rows(&store), vec![row("Alice.1234", "", true)]);
    assert_eq!(store.get(0).lowercase_name(), "alice.1234");
    assert_eq!(store.get(0).lowercase_comment(), "");
    assert_eq!(store.position("Alice.1234"), Some(0));
}

#[test]
fn join_twice_yields_one_present_entry() {
    let mut store = PlayerVecMap::new();
    store.join("x");
    store.join("x");
    assert_eq!(rows(&store), vec![row("x", "", true)]);
    assert_in_lock_step(&store);
}

#[test]
fn join_marks_an_absent_entry_present_and_keeps_its_comment() {
    let mut store = PlayerVecMap::new();
    store.add_player("bob", "tank".to_string());
    assert_eq!(rows(&store), vec![row("bob", "tank", false)]);
    store.join("bob");
    assert_eq!(rows(&store), vec![row("bob", "tank", true)]);
}

#[test]
fn names_are_case_sensitive() {
    let mut store = PlayerVecMap::new();
    store.join("Bob");
    store.join("bob");
    assert_eq!(rows(&store), vec![row("Bob", "", true), row("bob", "", true)]);
    assert_eq!(store.position("BOB"), None);
}

#[test]
fn add_player_adds_at_the_end_and_is_not_present() {
    let mut store = PlayerVecMap::new();
    assert_eq!(store.add_player("alice", "Comment here".to_string()), 0);
    assert_eq!(store.add_player("bob", String::new()), 1);
    assert_eq!(
        rows(&store),
        vec![row("alice", "Comment here", false), row("bob", "", false)]
    );
    assert_eq!(store.get(0).lowercase_comment(), "comment here");
}

#[test]
fn add_player_leaves_an_existing_entry_untouched() {
    let mut store = PlayerVecMap::new();
    store.join("alice");
    store.set_comment("alice", "healer".to_string());
    store.join("bob");
    assert_eq!(store.add_player("alice", "other".to_string()), 0);
    assert_eq!(
        rows(&store),
        vec![row("alice", "healer", true), row("bob", "", true)]
    );
}

#[test]
fn user_left_removes_an_entry_without_comment() {
    let mut store = PlayerVecMap::new();
    store.join("alice");
    store.user_left("alice");
    assert_eq!(store.len(), 0);
    assert_eq!(store.position("alice"), None);
}

#[test]
fn user_left_keeps_an_entry_with_comment_and_marks_it_absent() {
    let mut store = PlayerVecMap::new();
    store.join("alice");
    store.set_comment("alice", "note".to_string());
    store.user_left("alice");
    assert_eq!(rows(&store), vec![row("alice", "note", false)]);
    assert_eq!(store.position("alice"), Some(0));
}

#[test]
fn user_left_looks_at_the_comment_as_it_is_now() {
    let mut store = PlayerVecMap::new();
    store.join("alice");
    store.set_comment("alice", "note".to_string());
    store.set_comment("alice", String::new());
    store.user_left("alice");
    assert_eq!(store.len(), 0);
}

#[test]
fn user_left_of_an_unknown_name_changes_nothing() {
    let mut store = PlayerVecMap::new();
    store.join("alice");
    store.user_left("bob");
    assert_eq!(rows(&store), vec![row("alice", "", true)]);
}

#[test]
fn user_left_in_the_middle_moves_later_positions_up() {
    let mut store = PlayerVecMap::new();
    store.join("a");
    store.join("b");
    store.join("c");
    store.join("d");
    store.user_left("b");
    assert_eq!(store.position("a"), Some(0));
    assert_eq!(store.position("b"), None);
    assert_eq!(store.position("c"), Some(1));
    assert_eq!(store.position("d"), Some(2));
    assert_in_lock_step(&store);
}

#[test]
fn is_deletable_follows_the_comment() {
    let mut store = PlayerVecMap::new();
    store.join("alice");
    store.join("bob");
    store.set_comment("bob", "tank".to_string());
    assert!(store.is_deletable("alice"));
    assert!(!store.is_deletable("bob"));
    assert!(!store.is_deletable("carol"));
    assert!(store.get(0).is_retainable_as_empty());
    assert!(!store.get(1).is_retainable_as_empty());
}

#[test]
fn delete_reindexes_the_entries_behind() {
    let mut store = PlayerVecMap::new();
    store.add_player("A", String::new());
    store.add_player("B", String::new());
    store.add_player("C", String::new());
    store.delete("B");
    assert_eq!(store.position("A"), Some(0));
    assert_eq!(store.position("C"), Some(1));
    assert_eq!(store.position("B"), None);
    let names: Vec<&str> = store.players().iter().map(|p| p.name()).collect();
    assert_eq!(names, vec!["A", "C"]);
}

#[test]
fn delete_removes_an_entry_whatever_its_comment() {
    let mut store = PlayerVecMap::new();
    store.join("alice");
    store.set_comment("alice", "note".to_string());
    store.delete("alice");
    assert_eq!(store.len(), 0);
    assert_eq!(store.position("alice"), None);
}

#[test]
fn delete_of_an_unknown_name_changes_nothing() {
    let mut store = PlayerVecMap::new();
    store.join("alice");
    store.delete("bob");
    assert_eq!(rows(&store), vec![row("alice", "", true)]);
}

#[test]
fn delete_at_removes_by_position() {
    let mut store = PlayerVecMap::new();
    store.join("a");
    store.join("b");
    store.join("c");
    store.delete_at(0);
    assert_eq!(rows(&store), vec![row("b", "", true), row("c", "", true)]);
    assert_eq!(store.position("b"), Some(0));
    assert_eq!(store.position("c"), Some(1));
    store.delete_at(1);
    assert_eq!(rows(&store), vec![row("b", "", true)]);
    assert_in_lock_step(&store);
}

#[test]
fn a_deleted_name_can_come_back_at_the_end() {
    let mut store = PlayerVecMap::new();
    store.join("a");
    store.join("b");
    store.delete("a");
    store.join("a");
    assert_eq!(rows(&store), vec![row("b", "", true), row("a", "", true)]);
    assert_eq!(store.position("a"), Some(1));
}

#[test]
fn set_comment_replaces_the_comment_and_its_lowercase_form() {
    let mut store = PlayerVecMap::new();
    store.join("Alice");
    store.set_comment("Alice", "Good TANK".to_string());
    assert_eq!(store.get(0).comment(), "Good TANK");
    assert_eq!(store.get(0).lowercase_comment(), "good tank");
    assert_eq!(store.get(0).name(), "Alice");
    assert!(store.get(0).in_squad());
    store.set_comment("nobody", "x".to_string());
    assert_eq!(rows(&store), vec![row("Alice", "Good TANK", true)]);
}

#[test]
fn delete_all_marks_everybody_absent_and_drops_the_entries_without_comment() {
    let mut store = PlayerVecMap::new();
    for name in ["a", "b", "c", "d", "e"] {
        store.join(name);
    }
    store.set_comment("b", "one".to_string());
    store.set_comment("d", "two".to_string());
    store.user_left("d");
    store.delete_all();
    assert_eq!(rows(&store), vec![row("b", "one", false), row("d", "two", false)]);
    assert_eq!(store.position("b"), Some(0));
    assert_eq!(store.position("d"), Some(1));
    assert_eq!(store.position("a"), None);
    assert_eq!(store.position("c"), None);
    assert_eq!(store.position("e"), None);
    assert_in_lock_step(&store);
}

#[test]
fn delete_all_of_entries_without_comment_empties_the_roster() {
    let mut store = PlayerVecMap::new();
    store.join("a");
    store.join("b");
    store.delete_all();
    assert_eq!(store.len(), 0);
    store.delete_all();
    assert_eq!(store.len(), 0);
}

#[test]
fn delete_all_keeps_a_fully_annotated_roster() {
    let mut store = PlayerVecMap::new();
    store.join("a");
    store.join("b");
    store.set_comment("a", "x".to_string());
    store.set_comment("b", "y".to_string());
    store.delete_all();
    assert_eq!(rows(&store), vec![row("a", "x", false), row("b", "y", false)]);
}

#[test]
fn index_and_sequence_stay_in_lock_step() {
    let mut store = PlayerVecMap::new();
    let names = ["n0", "n1", "n2", "n3", "n4", "n5", "n6"];
    for round in 0..40usize {
        let name = names[(round * 5 + round / 3) % names.len()];
        match round % 6 {
            0 | 1 => store.join(name),
            2 => store.set_comment(name, format!("c{round}")),
            3 => store.user_left(name),
            4 => store.delete(name),
            _ => {
                store.add_player(name, String::new());
            }
        }
        if round % 17 == 16 {
            store.delete_all();
        }
        assert_in_lock_step(&store);
    }
}

#[test]
fn to_records_saves_only_the_entries_with_comment() {
    let mut store = PlayerVecMap::new();
    store.join("a");
    store.join("b");
    store.join("c");
    store.set_comment("a", "first".to_string());
    store.set_comment("c", "third".to_string());
    let records = store.to_records();
    let pairs: Vec<(&str, &str)> = records
        .iter()
        .map(|r| (r.name.as_str(), r.comment.as_str()))
        .collect();
    assert_eq!(pairs, vec![("a", "first"), ("c", "third")]);
}

#[test]
fn saved_records_come_back_in_order_and_absent() {
    let mut store = PlayerVecMap::new();
    store.join("a");
    store.join("b");
    store.join("c");
    store.set_comment("c", "third".to_string());
    store.set_comment("a", "first".to_string());
    let back = PlayerVecMap::from_records(&store.to_records());
    assert_eq!(rows(&back), vec![row("a", "first", false), row("c", "third", false)]);
    assert_eq!(back.get(1).lowercase_comment(), "third");
    assert_in_lock_step(&back);
}

#[test]
fn from_records_keeps_the_first_of_two_records_with_one_name() {
    let records = vec![
        PlayerRecord { name: "a".to_string(), comment: "one".to_string() },
        PlayerRecord { name: "b".to_string(), comment: "two".to_string() },
        PlayerRecord { name: "a".to_string(), comment: "three".to_string() },
    ];
    let store = PlayerVecMap::from_records(&records);
    assert_eq!(rows(&store), vec![row("a", "one", false), row("b", "two", false)]);
    assert_in_lock_step(&store);
}
