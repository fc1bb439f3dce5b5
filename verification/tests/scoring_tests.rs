use aegistry::engine::{
    combined_score, compute_name_similarity, dob_similarity, score_against_stub, MatchingEngine,
};
use aegistry::indexer::SearchIndex;
use aegistry::model::{risk_level_of, RiskLevel};
use aegistry::normalize::normalize_name;
use aegistry::store::SubjectStore;
use aegistry::subject::{ParsedAlias, ParsedSubject, SubjectKind};

fn subject(
    source_ref: &str,
    name: &str,
    country: Option<&str>,
    dob: Option<&str>,
    year: Option<i32>,
) -> ParsedSubject {
    ParsedSubject {
        source_ref: source_ref.to_string(),
        kind: SubjectKind::Person,
        primary_name: name.to_string(),
        aliases: Vec::new(),
        date_of_birth: dob.map(|d| d.to_string()),
        date_of_birth_year: year,
        country: country.map(|c| c.to_string()),
        nationalities: country.map(|c| vec![c.to_string()]).unwrap_or_default(),
    }
}

fn engine_with(subjects: Vec<ParsedSubject>, source: &str) -> MatchingEngine {
    let mut store = SubjectStore::new();
    store.upsert_subjects(&subjects, source, "2024-01-01T00:00:00Z");
    MatchingEngine::open(SearchIndex::build_from_store(&store))
}

#[test]
fn risk_banding_thresholds() {
    assert!(matches!(risk_level_of(10000), RiskLevel::Hit));
    assert!(matches!(risk_level_of(9500), RiskLevel::Hit));
    assert!(matches!(risk_level_of(9499), RiskLevel::Review));
    assert!(matches!(risk_level_of(9000), RiskLevel::Review));
    assert!(matches!(risk_level_of(8999), RiskLevel::Clear));
    assert!(matches!(risk_level_of(0), RiskLevel::Clear));
}

#[test]
fn combined_score_caps() {
    // The perfect-identity floor.
    assert!(combined_score(10000, 10000, 0, true, false) >= 9500);
    // A mismatched country cannot clear review.
    let capped = combined_score(9800, 0, 10000, true, true);
    assert!(capped <= 8900 || capped <= 9000);
    assert!(capped < 9500);
    // A mismatched year cannot clear review without perfect identity.
    let dob_capped = combined_score(10000, 0, 5000, false, true);
    assert!(dob_capped <= 8900);
}

#[test]
fn name_similarity_exact_after_normalization() {
    let a = normalize_name("Álvaro Núñez");
    let b = normalize_name("Alvaro Nunez");
    assert_eq!(compute_name_similarity(&a, &b), 10000);
}

#[test]
fn perfect_person_hit() {
    let e = engine_with(
        vec![subject("13", "Saddam Hussein Al-Tikriti", Some("IQ"), Some("1937-04-28"), Some(1937))],
        "EU",
    );
    let country = "IQ".to_string();
    let hits = e.search_and_score("Saddam Hussein Al-Tikriti", Some(&country), Some(1937), 10);
    assert!(!hits.is_empty());
    assert_eq!(hits[0].subject_id, "eu_13");
    assert!(hits[0].score >= 9500);
    assert!(matches!(risk_level_of(hits[0].score), RiskLevel::Hit));
}

#[test]
fn wrong_country_cap() {
    let e = engine_with(
        vec![subject("13", "Saddam Hussein Al-Tikriti", Some("IQ"), Some("1937-04-28"), Some(1937))],
        "EU",
    );
    let country = "US".to_string();
    let hits = e.search_and_score("Saddam Hussein Al-Tikriti", Some(&country), None, 10);
    assert!(!hits.is_empty());
    assert_eq!(hits[0].components.country_match, 0);
    assert!(hits[0].score <= 8900);
    assert!(!matches!(risk_level_of(hits[0].score), RiskLevel::Hit));
}

#[test]
fn accent_folding_retrieval() {
    let e = engine_with(vec![subject("77", "Álvaro Núñez", None, None, None)], "EU");
    let hits = e.search_and_score("Alvaro Nunez", None, None, 10);
    assert!(!hits.is_empty());
    assert!(hits[0].components.name_similarity >= 9900);
}

#[test]
fn token_swap_commutes() {
    let e = engine_with(vec![subject("5", "Vladimir Putin", None, None, None)], "EU");
    let swapped = e.search_and_score("Putin Vladimir", None, None, 10);
    let straight = e.search_and_score("Vladimir Putin", None, None, 10);
    assert!(!swapped.is_empty() && !straight.is_empty());
    assert!(swapped[0].components.name_similarity >= 9900);
    assert_eq!(swapped[0].score, straight[0].score);
    assert_eq!(swapped[0].components.name_similarity, straight[0].components.name_similarity);
}

#[test]
fn short_token_non_match() {
    let e = engine_with(vec![subject("9", "Li Xi", None, None, None)], "EU");
    let hits = e.search_and_score("li", None, None, 10);
    assert!(hits.is_empty());
}

#[test]
fn results_sorted_and_bounded() {
    let e = engine_with(
        vec![
            subject("1", "John Doe", Some("US"), None, Some(1970)),
            subject("2", "Jon Doe", Some("US"), None, Some(1971)),
            subject("3", "John Dow", Some("GB"), None, None),
        ],
        "OFAC",
    );
    let country = "US".to_string();
    let hits = e.search_and_score("John Doe", Some(&country), Some(1970), 2);
    assert!(hits.len() <= 2);
    for w in hits.windows(2) {
        assert!(w[0].score >= w[1].score);
    }
    for h in &hits {
        assert!(h.score <= 10000);
        assert!(h.components.name_similarity <= 10000);
        assert!(h.components.dob_similarity <= 10000);
        assert!(h.components.country_match <= 10000);
    }
}

#[test]
fn scoring_prefers_country_and_dob() {
    let country = "US".to_string();
    let hits = score_against_stub("John Doe", Some(&country), Some(1970), 3);
    assert!(!hits.is_empty());
    let top = &hits[0];
    assert_eq!(top.subject.subject_id, "ofac_0002");
    assert!(top.components.country_match > 0);
    assert!(top.components.dob_similarity > 0);
}

#[test]
fn combined_score_exact_values() {
    // The plain weighted combination, no caps firing.
    assert_eq!(combined_score(8000, 0, 0, false, false), 5600);
    assert_eq!(combined_score(10000, 10000, 10000, true, true), 10000);
    // The perfect-identity floor lifts a lower combination to the band.
    assert_eq!(combined_score(9900, 10000, 0, true, false), 9500);
    // No cap fires on an agreeing country and year.
    assert_eq!(combined_score(9800, 10000, 10000, true, true), 9860);
    // A near-perfect name with a confirmed country but a merely close
    // year is pinned below review.
    assert_eq!(combined_score(9899, 10000, 5000, true, true), 8900);
}

#[test]
fn dob_similarity_exact_values() {
    assert_eq!(dob_similarity(Some(1970), Some(1970)), 10000);
    assert_eq!(dob_similarity(Some(1970), Some(1972)), 5000);
    assert_eq!(dob_similarity(Some(1970), Some(1980)), 0);
    assert_eq!(dob_similarity(None, Some(1970)), 0);
    assert_eq!(dob_similarity(Some(1970), None), 0);
}

#[test]
fn explanation_mentions_the_match() {
    let e = engine_with(vec![subject("1", "John Doe", Some("US"), None, None)], "OFAC");
    let country = "US".to_string();
    let hits =
        aegistry::screening::perform_screening(Some(&e), "John Doe", Some(&country), None);
    assert!(!hits.is_empty());
    let joined = hits[0].explanation.join(" | ");
    assert!(joined.contains("close match") || joined.contains("similar"));
    assert!(joined.contains("Country 'US' matches"));
}

#[test]
fn unmatched_token_score_is_penalized_directly() {
    let a = normalize_name("John Zzzz");
    let b = normalize_name("John Smith");
    // One token matches in full, one finds no counterpart: the credit per
    // matched token less the quarter-point penalty, with no blending.
    assert_eq!(compute_name_similarity(&a, &b), 7500);
    let c = normalize_name("Qqqq Zzzz");
    assert_eq!(compute_name_similarity(&c, &b), 0);
}
