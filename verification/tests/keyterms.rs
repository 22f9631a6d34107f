use villflow::keyterms::{build_keyterms, dictionary_words_ordered};
use villflow::settings::DictEntry;

fn entry(word: &str, starred: bool, use_count: i64) -> DictEntry {
    DictEntry { id: 0, word: word.to_string(), starred, source: "manual".into(), use_count }
}

#[test]
fn starred_first_then_use_count() {
    let entries = vec![
        entry("low", false, 1),
        entry("high", false, 99),
        entry("star", true, 0),
        entry("star2", true, 5),
    ];
    let terms = build_keyterms(&entries);
    assert_eq!(terms, vec!["star2", "star", "high", "low"]);
}

#[test]
fn truncates_length_and_count() {
    let long = "a".repeat(30);
    let mut entries: Vec<DictEntry> = (0..60).map(|i| entry(&format!("w{i:02}"), false, i)).collect();
    entries.push(entry(&long, true, 0));
    let terms = build_keyterms(&entries);
    assert_eq!(terms.len(), 50);
    assert_eq!(terms[0].chars().count(), 20);
    assert!(terms[0].chars().all(|c| c == 'a'));
}

#[test]
fn keyterms_dedup_ignoring_case_and_skip_blank() {
    let entries = vec![entry("Groq", false, 3), entry("groq", false, 2), entry("   ", true, 9), entry(" x ", false, 1)];
    assert_eq!(build_keyterms(&entries), vec!["Groq", "x"]);
}

#[test]
fn dictionary_order_ties_break_alphabetically() {
    let entries = vec![entry("beta", false, 1), entry("alpha", false, 1), entry("zed", true, 0)];
    assert_eq!(dictionary_words_ordered(&entries), vec!["zed", "alpha", "beta"]);
}

#[test]
fn keyterms_ignore_the_order_of_entries() {
    let a = vec![entry("Groq", true, 1), entry("VillFlow", false, 9), entry("tauri", false, 9), entry("Rust", false, 0)];
    let mut b = a.clone();
    b.reverse();
    assert_eq!(build_keyterms(&a), build_keyterms(&b));
    assert_eq!(build_keyterms(&a), vec!["Groq", "VillFlow", "tauri", "Rust"]);
}
