//! Reading the stored settings. They are kept as a TOML document; whatever
//! part of it is missing or has another shape than expected falls back to its
//! default, so that a damaged file never stops the start.

use vstd::prelude::*;
use crate::keys::code_of_integer;
use crate::keys::code_of_letter;
use crate::keys::letter_code;
use crate::keys::stored_code;
use crate::player::PlayerRecord;
use crate::player::RecordView;
use crate::roster::PlayerVecMap;
use crate::roster::records_view;
use crate::roster::restored;
use crate::session::State;
use crate::session::StateView;

verus! {

/// `toml::Value`, taken as it is: nothing of its inside is visible here. What
/// a value holds is named by `content` and read through the functions below.
#[verifier::external_type_specification]
#[verifier::external_body]
pub struct ExValue(toml::Value);

/// What a TOML value holds, as far as the settings look at it. Numbers with
/// a fraction and dates are not told apart here: no setting read in this
/// module is one.
pub enum Toml {
    Text(Seq<char>),
    Integer(i64),
    Flag(bool),
    List(Seq<Toml>),
    Table(Map<Seq<char>, Toml>),
    Other,
}

/// What `value` holds.
pub uninterp spec fn content(value: toml::Value) -> Toml;

/// What the TOML document `text` holds, where `text` is one.
pub uninterp spec fn document(text: Seq<char>) -> Option<Toml>;

/// Calls `toml::from_str` for a `toml::Value`. Whether `text` is accepted and
/// what comes out depends on `text` alone; what the parser accepts is not
/// spelled out here.
#[verifier::external_body]
fn parse(text: &str) -> (parsed: Option<toml::Value>)
    ensures
        match parsed {
            Some(value) => document(text@) == Some(content(value)),
            None => document(text@).is_none(),
        },
{
    match toml::from_str::<toml::Value>(text) {
        Ok(value) => Some(value),
        Err(_) => None,
    }
}

/// Calls `toml::Value::get` with a text key: the entry of a table under that
/// key. There is none where `value` is no table or the table lacks the key.
#[verifier::external_body]
fn entry<'a>(value: &'a toml::Value, key: &str) -> (found: Option<&'a toml::Value>)
    ensures
        match found {
            Some(inner) => entry_of(content(*value), key@) == Some(content(*inner)),
            None => entry_of(content(*value), key@).is_none(),
        },
{
    value.get(key)
}

/// Calls `toml::Value::as_bool`: the boolean, where `value` is one.
#[verifier::external_body]
fn flag(value: &toml::Value) -> (found: Option<bool>)
    ensures
        found == (match content(*value) {
            Toml::Flag(b) => Some(b),
            _ => None,
        }),
{
    value.as_bool()
}

/// Calls `toml::Value::as_integer`: the integer, where `value` is one.
#[verifier::external_body]
fn integer(value: &toml::Value) -> (found: Option<i64>)
    ensures
        found == (match content(*value) {
            Toml::Integer(i) => Some(i),
            _ => None,
        }),
{
    value.as_integer()
}

/// Calls `toml::Value::as_str`: the text, where `value` is a string.
#[verifier::external_body]
fn text<'a>(value: &'a toml::Value) -> (found: Option<&'a str>)
    ensures
        match found {
            Some(t) => content(*value) == Toml::Text(t@),
            None => !(content(*value) is Text),
        },
{
    value.as_str()
}

/// Calls `toml::Value::as_array`: the items in order, where `value` is an
/// array.
#[verifier::external_body]
fn items<'a>(value: &'a toml::Value) -> (found: Option<&'a Vec<toml::Value>>)
    ensures
        match found {
            Some(list) => content(*value) == Toml::List(contents(list@)),
            None => !(content(*value) is List),
        },
{
    value.as_array()
}

/// What each of `values` holds.
pub open spec fn contents(values: Seq<toml::Value>) -> Seq<Toml> {
    values.map_values(|value: toml::Value| content(value))
}

/// The entry of a table under `key`.
pub open spec fn entry_of(value: Toml, key: Seq<char>) -> Option<Toml> {
    match value {
        Toml::Table(entries) => if entries.contains_key(key) {
            Some(entries[key])
        } else {
            None
        },
        _ => None,
    }
}

/// A switch of the settings: off unless the document holds a boolean under
/// `key`.
pub open spec fn flag_setting(doc: Toml, key: Seq<char>) -> bool {
    match entry_of(doc, key) {
        Some(Toml::Flag(b)) => b,
        _ => false,
    }
}

/// The shortcut of the settings, under `ShortcutKey`: a key code as an
/// integer, or, as older files have it, a single capital letter.
pub open spec fn shortcut_setting(doc: Toml) -> Option<i32> {
    match entry_of(doc, "ShortcutKey"@) {
        Some(Toml::Text(t)) => letter_code(t),
        Some(Toml::Integer(i)) => Some(stored_code(i)),
        _ => None,
    }
}

/// The record that an item of the stored players stands for: a table with a
/// text under `name` and a text under `comment`. Anything else is no record.
pub open spec fn record_of(item: Toml) -> Option<RecordView> {
    match (entry_of(item, "name"@), entry_of(item, "comment"@)) {
        (Some(Toml::Text(name)), Some(Toml::Text(comment))) => Some(RecordView { name, comment }),
        _ => None,
    }
}

/// The stored players, under `Players`: the items of the array that are
/// records, in order. The others are passed over.
pub open spec fn player_records(doc: Toml) -> Seq<RecordView> {
    match entry_of(doc, "Players"@) {
        Some(Toml::List(stored)) => stored.filter_map(|item: Toml| record_of(item)),
        _ => Seq::empty(),
    }
}

/// What a document that cannot be read counts as: a table without entries.
pub open spec fn readable(parsed: Option<Toml>) -> Toml {
    match parsed {
        Some(doc) => doc,
        None => Toml::Table(Map::empty()),
    }
}

/// The state after the settings in `doc` were taken over.
pub open spec fn configured(state: StateView, doc: Toml) -> StateView {
    StateView {
        players: restored(player_records(doc)),
        display_window: flag_setting(doc, "WindowOpen"@),
        show_all: flag_setting(doc, "ShowAll"@),
        shortcut_char: shortcut_setting(doc),
        ..state
    }
}

/// Reads a switch of the settings.
fn read_flag(config: &toml::Value, key: &str) -> (on: bool)
    ensures
        on == flag_setting(content(*config), key@),
{
    match entry(config, key) {
        Some(value) => match flag(value) {
            Some(b) => b,
            None => false,
        },
        None => false,
    }
}

/// Reads the shortcut of the settings.
fn read_shortcut(config: &toml::Value) -> (code: Option<i32>)
    ensures
        code == shortcut_setting(content(*config)),
{
    match entry(config, "ShortcutKey") {
        Some(value) => match text(value) {
            Some(t) => code_of_letter(t),
            None => match integer(value) {
                Some(i) => Some(code_of_integer(i)),
                None => None,
            },
        },
        None => None,
    }
}

/// Reads one stored player.
fn read_record(item: &toml::Value) -> (record: Option<PlayerRecord>)
    ensures
        match record {
            Some(r) => record_of(content(*item)) == Some(r@),
            None => record_of(content(*item)).is_none(),
        },
{
    let name = match entry(item, "name") {
        Some(value) => text(value),
        None => None,
    };
    let comment = match entry(item, "comment") {
        Some(value) => text(value),
        None => None,
    };
    match (name, comment) {
        (Some(name), Some(comment)) => Some(
            PlayerRecord { name: name.to_owned(), comment: comment.to_owned() },
        ),
        _ => None,
    }
}

/// Reads the stored players.
fn read_records(config: &toml::Value) -> (records: Vec<PlayerRecord>)
    ensures
        records_view(records@) == player_records(content(*config)),
{
    let mut records: Vec<PlayerRecord> = Vec::new();
    let stored = match entry(config, "Players") {
        Some(value) => items(value),
        None => None,
    };
    match stored {
        Some(list) => {
            let ghost pick = |item: Toml| record_of(item);
            let mut i: usize = 0;
            while i < list.len()
                invariant
                    i <= list.len(),
                    pick == (|item: Toml| record_of(item)),
                    records_view(records@) == contents(list@).take(i as int).filter_map(pick),
                decreases list.len() - i,
            {
                assert(contents(list@).take(i + 1).drop_last() =~= contents(list@).take(i as int));
                if let Some(record) = read_record(&list[i]) {
                    records.push(record);
                }
                i += 1;
            }
            assert(contents(list@).take(i as int) =~= contents(list@));
        },
        None => {},
    }
    records
}

/// The roster that the settings in `config` give back: the stored players in
/// order, nobody in the squad. An item that is no record is passed over, and
/// of two records with one name the first stands.
pub fn init_player_list(config: &toml::Value) -> (store: PlayerVecMap)
    ensures
        store.wf(),
        store@ == restored(player_records(content(*config))),
{
    let records = read_records(config);
    PlayerVecMap::from_records(&records)
}

/// Takes over the settings in `config`: the stored players, whether the
/// window is open, whether absent players are listed, and the shortcut.
pub fn configure(state: &mut State, config: &toml::Value)
    ensures
        final(state).wf(),
        final(state)@ == configured(old(state)@, content(*config)),
{
    state.players = init_player_list(config);
    state.flags.display_window = read_flag(config, "WindowOpen");
    state.flags.show_all = read_flag(config, "ShowAll");
    state.shortcut_char = read_shortcut(config);
}

/// Starts from the text of the settings file. A text that is no TOML
/// document counts as an empty one: every setting gets its default.
pub fn init(state: &mut State, config_text: &str)
    ensures
        final(state).wf(),
        final(state)@ == configured(old(state)@, readable(document(config_text@))),
{
    match parse(config_text) {
        Some(config) => {
            configure(state, &config);
        },
        None => {
            state.players = PlayerVecMap::new();
            state.flags.display_window = false;
            state.flags.show_all = false;
            state.shortcut_char = None;
        },
    }
}

} // verus!
