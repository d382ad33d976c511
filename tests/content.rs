use rand::rngs::StdRng;
use rand::SeedableRng;
use typing_combat::{ContentManager, Difficulty};

fn texts(items: &[&str]) -> Vec<String> {
    items.iter().map(|s| s.to_string()).collect()
}

#[test]
fn texts_without_lines_are_skipped() {
    let c = ContentManager::from_texts(&texts(&["one two\nthree", "  \n ", "four"]));
    assert_eq!(c.paragraphs.len(), 2);
    assert_eq!(c.current_index, 0);
    assert_eq!(c.get_current_lines(), vec!["one two", "three"]);
}

#[test]
fn no_usable_text_falls_back_to_built_in() {
    let c = ContentManager::from_texts(&texts(&[]));
    assert_eq!(c.paragraphs.len(), 1);
    assert_eq!(c.get_current_lines().len(), 3);
    assert_eq!(c.get_current_lines()[0], "The quick brown fox jumps over the lazy dog");
    assert!(c.paragraphs[0].unique_words.contains(&"Rust".to_string()));
}

#[test]
fn next_paragraph_wraps_around() {
    let mut c = ContentManager::from_texts(&texts(&["a", "b", "c"]));
    c.next_paragraph();
    assert_eq!(c.get_current_lines(), vec!["b"]);
    c.next_paragraph();
    c.next_paragraph();
    assert_eq!(c.current_index, 0);
    assert_eq!(c.get_current_lines(), vec!["a"]);
}

#[test]
fn easy_words_are_lower_case() {
    let c = ContentManager::from_texts(&texts(&["Zebra"]));
    let mut rng = StdRng::seed_from_u64(3);
    for _ in 0..10 {
        assert_eq!(c.get_word(Difficulty::Easy, &mut rng), "zebra");
    }
}

#[test]
fn hard_words_are_case_variants() {
    let c = ContentManager::from_texts(&texts(&["zebra"]));
    let mut rng = StdRng::seed_from_u64(5);
    let mut saw_upper = false;
    for _ in 0..20 {
        let w = c.get_word(Difficulty::Hard, &mut rng);
        assert_eq!(w.to_lowercase(), "zebra");
        if w != "zebra" {
            saw_upper = true;
        }
    }
    assert!(saw_upper);
}

#[test]
fn paragraph_without_words_yields_the_empty_token() {
    let c = ContentManager::from_texts(&texts(&["!!! ???"]));
    let mut rng = StdRng::seed_from_u64(1);
    assert_eq!(c.get_word(Difficulty::Easy, &mut rng), "empty");
}

#[test]
fn words_come_from_the_current_paragraph() {
    let mut c = ContentManager::from_texts(&texts(&["alpha beta", "gamma"]));
    let mut rng = StdRng::seed_from_u64(9);
    for _ in 0..10 {
        let w = c.get_word(Difficulty::Easy, &mut rng);
        assert!(w == "alpha" || w == "beta");
    }
    c.next_paragraph();
    assert_eq!(c.get_word(Difficulty::Easy, &mut rng), "gamma");
}
