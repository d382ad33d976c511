use typing_combat::content::ParagraphContent;
use typing_combat::text::{is_control, text_matches};
use typing_combat::{Difficulty, Key, KeyEvent, TypingBuffer};

#[test]
fn easy_matching_ignores_case_on_both_sides() {
    assert!(text_matches(Difficulty::Easy, "HeLLo", "hello"));
    assert!(text_matches(Difficulty::Easy, "hello", "HELLO"));
    assert!(!text_matches(Difficulty::Easy, "hello", "help"));
}

#[test]
fn hard_matching_is_exact() {
    assert!(text_matches(Difficulty::Hard, "HeLLo", "HeLLo"));
    assert!(!text_matches(Difficulty::Hard, "HeLLo", "hello"));
}

#[test]
fn buffer_edits_in_order() {
    let mut b = TypingBuffer::new();
    let events = vec![
        KeyEvent { key: Key::Character('a'), pressed: true },
        KeyEvent { key: Key::Character('b'), pressed: true },
        KeyEvent { key: Key::Backspace, pressed: true },
        KeyEvent { key: Key::Character('c'), pressed: true },
        KeyEvent { key: Key::Character('x'), pressed: false },
        KeyEvent { key: Key::Space, pressed: true },
        KeyEvent { key: Key::Character('\u{7}'), pressed: true },
    ];
    b.update_typing_input(&events);
    assert_eq!(b.text, "ac ");
    assert_eq!(b.trimmed(), "ac");
    b.clear();
    assert_eq!(b.text, "");
}

#[test]
fn backspace_on_empty_buffer_does_nothing() {
    let mut b = TypingBuffer::new();
    b.apply_key(Key::Backspace);
    assert_eq!(b.text, "");
}

#[test]
fn control_characters_are_recognised() {
    assert!(is_control('\n'));
    assert!(is_control('\u{7f}'));
    assert!(is_control('\u{85}'));
    assert!(!is_control('a'));
    assert!(!is_control(' '));
}

#[test]
fn paragraph_keeps_trimmed_lines_and_distinct_words() {
    let p = ParagraphContent::from_text("  Hello, world!  \n\n   \nfoo bar-baz foo\r\nworld");
    assert_eq!(p.lines, vec!["Hello, world!", "foo bar-baz foo", "world"]);
    assert_eq!(p.unique_words, vec!["Hello", "world", "foo", "barbaz"]);
}

#[test]
fn paragraph_of_blank_text_is_empty() {
    let p = ParagraphContent::from_text(" \n\t\n");
    assert!(p.lines.is_empty());
    assert!(p.unique_words.is_empty());
}
