use villflow::dictionary::{normalized_source, normalized_word, unique_bump_words};

#[test]
fn words_are_trimmed_and_never_empty() {
    assert_eq!(normalized_word("  Kubernetes \n"), Ok("Kubernetes".to_string()));
    assert_eq!(normalized_word(" \t "), Err("dictionary word cannot be empty".to_string()));
    assert_eq!(normalized_word(""), Err("dictionary word cannot be empty".to_string()));
}

#[test]
fn source_is_auto_or_manual() {
    assert_eq!(normalized_source("auto"), "auto");
    assert_eq!(normalized_source("  auto "), "auto");
    assert_eq!(normalized_source("AUTO"), "manual");
    assert_eq!(normalized_source("manual"), "manual");
    assert_eq!(normalized_source("imported"), "manual");
}

#[test]
fn one_bump_per_word_whatever_its_case() {
    let words: Vec<String> = vec!["Groq", " groq ", "", "  ", "VillFlow", "GROQ", "villflow", "Tauri"]
        .into_iter()
        .map(String::from)
        .collect();
    assert_eq!(unique_bump_words(&words), vec!["Groq".to_string(), "VillFlow".to_string(), "Tauri".to_string()]);
    assert!(unique_bump_words(&[]).is_empty());
}
