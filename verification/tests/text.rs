use player_list::text::starts_with;
use player_list::text::FoldedText;

#[test]
fn folded_text_keeps_the_text_and_its_lowercase_form() {
    let folded = FoldedText::new("Hello World".to_string());
    assert_eq!(folded.as_str(), "Hello World");
    assert_eq!(folded.lowered(), "hello world");
    assert!(!folded.is_empty());
}

#[test]
fn folded_text_lowers_letters_beyond_ascii() {
    let folded = FoldedText::new("ÄÖÜ Straße".to_string());
    assert_eq!(folded.lowered(), "äöü straße");
    assert_eq!(folded.lowered(), "ÄÖÜ Straße".to_lowercase());
}

#[test]
fn empty_folded_text_is_empty() {
    let folded = FoldedText::new(String::new());
    assert!(folded.is_empty());
    assert_eq!(folded.as_str(), "");
    assert_eq!(folded.lowered(), "");
}

#[test]
fn starts_with_compares_prefixes() {
    assert!(starts_with("alice", "al"));
    assert!(starts_with("alice", "alice"));
    assert!(starts_with("alice", ""));
    assert!(starts_with("", ""));
    assert!(!starts_with("alice", "alicee"));
    assert!(!starts_with("alice", "b"));
    assert!(!starts_with("alice", "aL"));
    assert!(!starts_with("", "a"));
    assert!(starts_with("über", "ü"));
    assert!(!starts_with("uber", "ü"));
}

#[test]
fn starts_with_agrees_with_the_standard_library() {
    let texts = ["", "a", "ab", "abc", "b", "äb", "ä", "日本語", "日本"];
    for text in texts {
        for prefix in texts {
            assert_eq!(starts_with(text, prefix), text.starts_with(prefix));
        }
    }
}
