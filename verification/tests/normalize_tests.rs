use aegistry::indexer::normalize_for_index;
use aegistry::matching::compute_parts_match_score;
use aegistry::normalize::normalize_name;
use aegistry::similarity::jaro_winkler;

fn toks(words: &[&str]) -> Vec<Vec<char>> {
    words.iter().map(|w| w.chars().collect()).collect()
}

#[test]
fn normalize_strips_accents() {
    let input = "Alvaro   Nunez";
    let norm = normalize_name(input);
    assert_eq!(norm, "alvaro nunez");
}

#[test]
fn indexer_normalize_strips_accents() {
    assert_eq!(normalize_for_index("Alvaro Nunez"), "alvaro nunez");
}

#[test]
fn normalize_folds_diacritics() {
    assert_eq!(normalize_name("Álvaro Núñez"), "alvaro nunez");
    assert_eq!(normalize_name("  Émile   ZOLA "), "emile zola");
}

#[test]
fn normalize_is_idempotent_on_samples() {
    for s in ["Álvaro   Núñez", "  John\tDoe ", "", "Ş Ţ ů Ğ", "ABC def GHI"] {
        let once = normalize_name(s);
        let twice = normalize_name(&once);
        assert_eq!(once, twice);
    }
}

#[test]
fn normalize_handles_full_unicode() {
    // Lowercasing applies beyond ASCII, and decomposable letters lose
    // their marks wherever they come from.
    assert_eq!(normalize_name("Иван  Петров"), "иван петров");
    assert_eq!(normalize_name("\u{1E44}"), "n");
    assert_eq!(normalize_name("ΩΜΕΓΑ"), "ωμεγα");
}

#[test]
fn jaro_winkler_basics() {
    let a: Vec<char> = "martha".chars().collect();
    let b: Vec<char> = "marhta".chars().collect();
    let same = jaro_winkler(&a, &a);
    assert_eq!(same, 10000);
    let close = jaro_winkler(&a, &b);
    assert!(close > 9000 && close <= 10000);
    let empty: Vec<char> = Vec::new();
    assert_eq!(jaro_winkler(&empty, &empty), 10000);
    assert_eq!(jaro_winkler(&a, &empty), 0);
}

#[test]
fn parts_match_is_order_insensitive() {
    let subject = toks(&["vladimir", "putin"]);
    let one = compute_parts_match_score(&toks(&["putin", "vladimir"]), &subject);
    let two = compute_parts_match_score(&toks(&["vladimir", "putin"]), &subject);
    assert_eq!(one, two);
    assert_eq!(one, 10000);
}

#[test]
fn parts_match_penalizes_missing_tokens() {
    let subject = toks(&["john", "doe"]);
    let score = compute_parts_match_score(&toks(&["john", "zzzz"]), &subject);
    assert!(score < 9000);
    let empty = compute_parts_match_score(&toks(&[]), &subject);
    assert_eq!(empty, 0);
}
