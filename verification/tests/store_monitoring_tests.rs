use aegistry::analytics::get_source_distribution;
use aegistry::audit::{AuditLog, AuditStore};
use aegistry::engine::MatchingEngine;
use aegistry::indexer::SearchIndex;
use aegistry::monitoring::{compute_result_hash, MonitoringStore};
use aegistry::store::{DatasetVersion, SubjectStore};
use aegistry::subject::{ParsedAlias, ParsedSubject, SubjectKind};

fn sample_subject() -> ParsedSubject {
    ParsedSubject {
        source_ref: "test_001".to_string(),
        kind: SubjectKind::Person,
        primary_name: "Test Person".to_string(),
        aliases: vec![ParsedAlias { name: "TP".to_string(), alias_type: "aka".to_string() }],
        date_of_birth: Some("1980-01-01".to_string()),
        date_of_birth_year: Some(1980),
        country: Some("US".to_string()),
        nationalities: vec!["US".to_string()],
    }
}

#[test]
fn upsert_inserts_and_updates() {
    let mut store = SubjectStore::new();
    let subjects = vec![sample_subject()];

    let count = store.upsert_subjects(&subjects, "EU", "2024-01-01T00:00:00Z");
    assert_eq!(count, 1);

    let count = store.upsert_subjects(&subjects, "EU", "2024-01-01T00:00:00Z");
    assert_eq!(count, 1);
    assert_eq!(store.subjects.len(), 1);
    assert_eq!(store.subjects[0].id, "eu_test_001");
    assert_eq!(store.subjects[0].primary_name, "Test Person");
    assert_eq!(store.subjects[0].aliases.len(), 1);
}

#[test]
fn upsert_same_refresh_twice_is_idempotent() {
    let mut once = SubjectStore::new();
    once.upsert_subjects(&vec![sample_subject()], "EU", "t0");

    let mut twice = SubjectStore::new();
    twice.upsert_subjects(&vec![sample_subject()], "EU", "t0");
    twice.upsert_subjects(&vec![sample_subject()], "EU", "t0");

    assert_eq!(once.subjects.len(), twice.subjects.len());
    for (a, b) in once.subjects.iter().zip(twice.subjects.iter()) {
        assert_eq!(a.id, b.id);
        assert_eq!(a.primary_name, b.primary_name);
        assert_eq!(a.created_at, b.created_at);
        assert_eq!(a.updated_at, b.updated_at);
        assert_eq!(a.aliases.len(), b.aliases.len());
    }
}

#[test]
fn alias_sets_are_deduplicated() {
    let mut s = sample_subject();
    s.aliases.push(ParsedAlias { name: "TP".to_string(), alias_type: "aka".to_string() });
    s.aliases.push(ParsedAlias { name: "TP".to_string(), alias_type: "native_script".to_string() });
    let mut store = SubjectStore::new();
    store.upsert_subjects(&vec![s], "EU", "t0");
    assert_eq!(store.subjects[0].aliases.len(), 2);
}

#[test]
fn dataset_version_log_is_append_only() {
    let mut store = SubjectStore::new();
    let mut counts = Vec::new();
    for i in 0..3i64 {
        store.record_dataset_version(DatasetVersion {
            source: "EU".to_string(),
            fetched_at: "t".to_string(),
            record_count: i,
            file_hash: None,
        });
        counts.push(store.versions.len());
    }
    assert_eq!(counts, vec![1, 2, 3]);
    assert_eq!(store.versions[0].record_count, 0);
}

#[test]
fn result_hash_stability() {
    let hits1 = vec![("id1".to_string(), 9500u32), ("id2".to_string(), 8000u32)];
    let hits2 = vec![("id1".to_string(), 9500u32), ("id2".to_string(), 8000u32)];
    let hits3 = vec![("id1".to_string(), 9500u32), ("id3".to_string(), 8000u32)];

    assert_eq!(compute_result_hash(&hits1), compute_result_hash(&hits2));
    assert_ne!(compute_result_hash(&hits1), compute_result_hash(&hits3));
}

#[test]
fn result_hash_quantizes_scores() {
    // Scores in the same hundredth-bucket fingerprint identically.
    let a = vec![("id1".to_string(), 9501u32)];
    let b = vec![("id1".to_string(), 9599u32)];
    let c = vec![("id1".to_string(), 9600u32)];
    assert_eq!(compute_result_hash(&a), compute_result_hash(&b));
    assert_ne!(compute_result_hash(&a), compute_result_hash(&c));
}

#[test]
fn monitoring_workflow() {
    let mut store = MonitoringStore::new();

    let country = "US".to_string();
    let id = store.add_monitored_subject(
        "tenant1",
        "ref1",
        "John Doe",
        Some(&country),
        Some(1980),
        None,
        "t0",
    );
    assert!(id > 0);

    let subjects = store.get_monitored_subjects("tenant1");
    assert_eq!(subjects.len(), 1);
    assert_eq!(subjects[0].name, "John Doe");

    store.record_monitoring_result(id, "hash123", 2, 8500, false, "t1");
    assert_eq!(store.results.len(), 1);

    let removed = store.remove_monitored_subject("tenant1", "ref1");
    assert!(removed);

    let subjects = store.get_monitored_subjects("tenant1");
    assert_eq!(subjects.len(), 0);
}

#[test]
fn index_search_finds_token_matches() {
    let mut store = SubjectStore::new();
    store.upsert_subjects(
        &vec![ParsedSubject {
            source_ref: "7".to_string(),
            kind: SubjectKind::Person,
            primary_name: "Grace Hopper".to_string(),
            aliases: vec![ParsedAlias {
                name: "Amazing Grace".to_string(),
                alias_type: "aka".to_string(),
            }],
            date_of_birth: None,
            date_of_birth_year: None,
            country: None,
            nationalities: Vec::new(),
        }],
        "UN",
        "t0",
    );
    let index = SearchIndex::build_from_store(&store);
    let hits = index.search("grace", 10);
    assert_eq!(hits.len(), 1);
    assert_eq!(hits[0].subject_id, "un_7");
    assert!(index.search("unrelated", 10).is_empty());
}

#[test]
fn fuzzy_retrieval_tolerates_one_edit() {
    let mut store = SubjectStore::new();
    store.upsert_subjects(
        &vec![ParsedSubject {
            source_ref: "8".to_string(),
            kind: SubjectKind::Person,
            primary_name: "Vladimir Putin".to_string(),
            aliases: Vec::new(),
            date_of_birth: None,
            date_of_birth_year: None,
            country: None,
            nationalities: Vec::new(),
        }],
        "EU",
        "t0",
    );
    let engine = MatchingEngine::open(SearchIndex::build_from_store(&store));
    // One transposition inside a token still retrieves the subject.
    let cands = engine.search_candidates("vladimri putin", 10);
    assert_eq!(cands.len(), 1);
    // Two substitutions do not.
    let far = engine.search_candidates("vlodymyr", 10);
    assert!(far.is_empty());
}

#[test]
fn audit_trail_grows_and_filters() {
    let mut store = AuditStore::new();
    for t in ["a", "a", "b"] {
        store.log(AuditLog {
            id: "1".to_string(),
            tenant_id: t.to_string(),
            user_id: None,
            action: "screen".to_string(),
            resource_type: "person".to_string(),
            resource_id: None,
            timestamp: "t0".to_string(),
            ip_address: None,
            user_agent: None,
            details: None,
        });
    }
    assert_eq!(store.entries.len(), 3);
    assert_eq!(store.query("a", 10).len(), 2);
    assert_eq!(store.query("a", 1).len(), 1);
    assert!(store.query("c", 10).is_empty());
}

#[test]
fn source_distribution_counts() {
    let mut store = SubjectStore::new();
    store.upsert_subjects(&vec![sample_subject()], "EU", "t0");
    let mut other = sample_subject();
    other.source_ref = "x2".to_string();
    store.upsert_subjects(&vec![other], "EU", "t0");
    let mut third = sample_subject();
    third.source_ref = "x3".to_string();
    store.upsert_subjects(&vec![third], "OFAC", "t0");
    let dist = get_source_distribution(&store);
    assert_eq!(dist.len(), 2);
    let eu = dist.iter().find(|d| d.source == "EU").unwrap();
    assert_eq!(eu.count, 2);
}

#[test]
fn upsert_with_repeated_key_keeps_last() {
    // Two entries under one key inside one refresh: the later one wins,
    // and a second pass of the same refresh changes nothing.
    let mut a = sample_subject();
    a.primary_name = "First Spelling".to_string();
    let mut b = sample_subject();
    b.primary_name = "Second Spelling".to_string();
    let batch = vec![a, b];

    let mut once = SubjectStore::new();
    once.upsert_subjects(&batch, "EU", "t0");
    assert_eq!(once.subjects.len(), 1);
    assert_eq!(once.subjects[0].primary_name, "Second Spelling");

    let mut twice = SubjectStore::new();
    twice.upsert_subjects(&batch, "EU", "t0");
    twice.upsert_subjects(&batch, "EU", "t0");
    assert_eq!(twice.subjects.len(), 1);
    assert_eq!(twice.subjects[0].primary_name, "Second Spelling");
    assert_eq!(once.subjects[0].created_at, twice.subjects[0].created_at);
}
