use villflow::autolearn::{edit_distance, find_learn_candidates, is_stopword, tokenize, words_for_bump};

#[test]
fn edit_distance_basic() {
    assert_eq!(edit_distance("kitten", "sitting"), 3);
    assert_eq!(edit_distance("color", "colour"), 1);
    assert_eq!(edit_distance("same", "same"), 0);
}

#[test]
fn edit_distance_empty_sides() {
    assert_eq!(edit_distance("", "abc"), 3);
    assert_eq!(edit_distance("abcd", ""), 4);
    assert_eq!(edit_distance("ab", "ba"), 2);
}

#[test]
fn learn_candidates_detects_typo_fix() {
    let injected = "please check the colour of the widget";
    let current = "please check the color of the widget";
    let c = find_learn_candidates(injected, current);
    assert!(c.iter().any(|w| w.eq_ignore_ascii_case("color")));
    assert!(c.len() <= 3);
}

#[test]
fn ignores_short_and_stopwords() {
    let injected = "I am here";
    let current = "I be here";
    let c = find_learn_candidates(injected, current);
    assert!(c.is_empty());
}

#[test]
fn learn_candidates_at_most_three_and_distinct() {
    let injected = "alpha bravo charlie delta echoo";
    let current = "alphx bravx charlix deltx echox";
    let c = find_learn_candidates(injected, current);
    assert_eq!(c, vec!["alphx", "bravx", "charlix"]);
    let dup = find_learn_candidates("widgit widgit", "widget Widget");
    assert_eq!(dup, vec!["widget"]);
}

#[test]
fn tokens_and_stopwords() {
    assert_eq!(tokenize("it's a well-known fact!"), vec!["it's", "a", "well-known", "fact"]);
    assert_eq!(words_for_bump("Hello, world"), vec!["Hello", "world"]);
    assert!(is_stopword("The"));
    assert!(!is_stopword("VillFlow"));
}

#[test]
fn edit_distance_is_symmetric_and_bounded() {
    for (a, b) in [("kitten", "sitting"), ("", "abc"), ("flaw", "lawn"), ("same", "same")] {
        let d = edit_distance(a, b);
        assert_eq!(d, edit_distance(b, a));
        let (na, nb) = (a.chars().count(), b.chars().count());
        assert!(na.abs_diff(nb) <= d && d <= na.max(nb));
    }
    assert_eq!(edit_distance("kitten", "sitting"), 3);
    assert_eq!(edit_distance("abc", ""), 3);
    assert_eq!(edit_distance("same", "same"), 0);
}
