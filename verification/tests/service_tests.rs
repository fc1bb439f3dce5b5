use aegistry::auth::{authorize, AuthDecision};
use aegistry::batch::{process_records, BatchJob, BatchRecord, BatchStatus, RecordType};
use aegistry::engine::MatchingEngine;
use aegistry::indexer::SearchIndex;
use aegistry::model::{
    health_status, new_request_id, risk_level_of, RiskLevel, ScreenPersonRequest,
};
use aegistry::monitoring::{compute_result_hash, MonitoringStore};
use aegistry::risk::RiskStore;
use aegistry::screening::{add_monitoring, perform_screening, re_screen_monitored_subjects};
use aegistry::store::SubjectStore;
use aegistry::subject::{ParsedSubject, SubjectKind};
use aegistry::tenant::{generate_api_key, hash_api_key, TenantStore};
use aegistry::webhooks::{compute_signature, WebhookStore};

fn subject(source_ref: &str, name: &str) -> ParsedSubject {
    ParsedSubject {
        source_ref: source_ref.to_string(),
        kind: SubjectKind::Person,
        primary_name: name.to_string(),
        aliases: Vec::new(),
        date_of_birth: None,
        date_of_birth_year: None,
        country: None,
        nationalities: Vec::new(),
    }
}

#[test]
fn health_is_ok() {
    let h = health_status("screening-api");
    assert_eq!(h.status, "ok");
    assert_eq!(h.service, "screening-api");
}

#[test]
fn request_ids_are_fresh() {
    let a = new_request_id();
    let b = new_request_id();
    assert_eq!(a.len(), 36);
    assert_ne!(a, b);
}

#[test]
fn person_request_helpers() {
    let req = ScreenPersonRequest {
        reference_id: None,
        first_name: "  Maria ".to_string(),
        last_name: " Garcia  ".to_string(),
        date_of_birth: Some("1985-03-04".to_string()),
        country: Some("ES".to_string()),
        nationality: None,
    };
    assert_eq!(req.full_name(), "Maria Garcia");
    assert_eq!(req.dob_year(), Some(1985));
    assert!(req.validate().is_ok());
}

#[test]
fn person_request_validation_errors() {
    let req = ScreenPersonRequest {
        reference_id: None,
        first_name: "".to_string(),
        last_name: "Garcia".to_string(),
        date_of_birth: None,
        country: Some("ESP".to_string()),
        nationality: None,
    };
    let errs = req.validate().unwrap_err();
    assert!(errs.contains(&"first_name".to_string()));
    assert!(errs.contains(&"country".to_string()));
}

#[test]
fn screening_bands_every_hit() {
    let mut store = SubjectStore::new();
    store.upsert_subjects(&vec![subject("1", "John Doe")], "OFAC", "t0");
    let engine = MatchingEngine::open(SearchIndex::build_from_store(&store));
    let hits = perform_screening(Some(&engine), "John Doe", None, None);
    for h in &hits {
        assert!(h.score <= 10000);
        let expected = risk_level_of(h.score);
        assert_eq!(
            matches!(h.risk_level, RiskLevel::Hit),
            matches!(expected, RiskLevel::Hit)
        );
        assert!(!h.explanation.is_empty());
    }
}

#[test]
fn screening_without_corpus_uses_fallback() {
    let hits = perform_screening(None, "Maria Garcia", None, None);
    assert!(!hits.is_empty());
    assert_eq!(hits[0].matched_name, "Maria Garcia");
}

#[test]
fn batch_processing_covers_every_record() {
    let records = vec![
        BatchRecord {
            reference_id: Some("r1".to_string()),
            name: "John Doe".to_string(),
            country: None,
            date_of_birth: Some("1970-01-01".to_string()),
            record_type: RecordType::Person,
        },
        BatchRecord {
            reference_id: None,
            name: "Acme Corp".to_string(),
            country: Some("US".to_string()),
            date_of_birth: None,
            record_type: RecordType::Entity,
        },
    ];
    let results = process_records(None, &records, "t0");
    assert_eq!(results.len(), 2);
    assert_eq!(results[0].name, "John Doe");
    let job = BatchJob::new("job-1".to_string(), 2, "t0".to_string());
    assert!(matches!(job.status, BatchStatus::Processing));
    assert_eq!(job.processed_records, 0);
}

#[test]
fn auth_decisions() {
    let mut store = TenantStore::new();
    store.create_default_tenant();

    assert!(matches!(authorize(&store, None), AuthDecision::MissingKey));
    let wrong = "wrong-key".to_string();
    assert!(matches!(authorize(&store, Some(&wrong)), AuthDecision::InvalidKey));
    let right = "test-api-key".to_string();
    assert!(matches!(authorize(&store, Some(&right)), AuthDecision::Authorized(_)));
}

#[test]
fn api_key_management() {
    let k1 = generate_api_key();
    let k2 = generate_api_key();
    assert!(k1.starts_with("ak_"));
    assert_ne!(k1, k2);
    let h1 = hash_api_key("my-secret-key");
    let h2 = hash_api_key("my-secret-key");
    let h3 = hash_api_key("other-key");
    assert_eq!(h1, h2);
    assert_ne!(h1, h3);
    assert_eq!(h1.len(), 16);
}

#[test]
fn tenant_crud() {
    let mut store = TenantStore::new();
    store.create_default_tenant();
    let t = store.get_tenant_by_key("test-api-key").unwrap();
    assert!(t.is_active);
    assert!(store.get_tenant_by_key("wrong-key").is_none());
    let again = store.get_tenant(&t.id).unwrap();
    assert_eq!(again.name, t.name);
}

#[test]
fn risk_config_roundtrip() {
    let mut store = RiskStore::new();
    let mut cfg = store.get_config("tenant-a");
    assert_eq!(cfg.hit_threshold, 9500);
    assert_eq!(cfg.review_threshold, 9000);
    cfg.hit_threshold = 9700;
    store.set_config(cfg);
    assert_eq!(store.get_config("tenant-a").hit_threshold, 9700);
}

#[test]
fn webhook_store_roundtrip() {
    let mut store = WebhookStore::new();
    let sub = store.create_subscription(
        "tenant-a",
        "https://example.invalid/hook",
        vec!["screening.changed".to_string()],
        "t0",
    );
    assert_eq!(sub.secret.len(), 64);
    let active = store.get_active_subscriptions("tenant-a", "screening.changed");
    assert_eq!(active.len(), 1);
    let starry = store.get_active_subscriptions("tenant-a", "anything");
    assert!(starry.is_empty());
    assert!(store.delete_subscription(&sub.id));
    assert!(store.get_active_subscriptions("tenant-a", "screening.changed").is_empty());

    let sig1 = compute_signature("secret", "payload");
    let sig2 = compute_signature("secret", "payload");
    let sig3 = compute_signature("secret", "other");
    assert_eq!(sig1, sig2);
    assert_ne!(sig1, sig3);
    assert_eq!(sig1.len(), 64);
}

#[test]
fn monitoring_change_detection() {
    // Subscribe, screen against an empty corpus, then refresh the corpus
    // and observe the fingerprint change and the callback queue drain.
    let mut monitoring = MonitoringStore::new();
    let cb = "https://example.invalid/cb".to_string();
    let id = monitoring.add_monitored_subject(
        "default",
        "r1",
        "John Doe",
        None,
        None,
        Some(&cb),
        "t0",
    );

    let mut store = SubjectStore::new();
    let engine = MatchingEngine::open(SearchIndex::build_from_store(&store));
    let hits = perform_screening(Some(&engine), "John Doe", None, None);
    let pairs: Vec<(String, u32)> =
        hits.iter().map(|h| (h.subject_id.clone(), h.score)).collect();
    let h0 = compute_result_hash(&pairs);
    monitoring.record_monitoring_result(id, &h0, pairs.len(), 0, false, "t1");

    // A refresh brings a matching subject in.
    store.upsert_subjects(&vec![subject("x1", "John Doe")], "OFAC", "t2");
    let engine = MatchingEngine::open(SearchIndex::build_from_store(&store));
    let hits = perform_screening(Some(&engine), "John Doe", None, None);
    assert!(!hits.is_empty());
    let pairs: Vec<(String, u32)> =
        hits.iter().map(|h| (h.subject_id.clone(), h.score)).collect();
    let h1 = compute_result_hash(&pairs);
    assert_ne!(h0, h1);

    let changed = h1 != h0;
    monitoring.record_monitoring_result(id, &h1, pairs.len(), hits[0].score, changed, "t3");

    let pending = monitoring.get_pending_notifications();
    assert_eq!(pending.len(), 1);
    assert!(pending[0].1.has_changes);
    monitoring.mark_notified(pending[0].2);
    assert!(monitoring.get_pending_notifications().is_empty());
}

#[test]
fn rescreen_appends_rows_and_flags_changes() {
    let mut monitoring = MonitoringStore::new();
    let id = monitoring.add_monitored_subject("default", "r9", "John Doe", None, None, None, "t0");
    let mut store = SubjectStore::new();
    store.upsert_subjects(&vec![subject("x1", "John Doe")], "OFAC", "t1");
    let engine = MatchingEngine::open(SearchIndex::build_from_store(&store));
    let n = re_screen_monitored_subjects(&engine, &mut monitoring, "t2");
    assert_eq!(n, 1);
    assert_eq!(monitoring.results.len(), 1);
    let row = monitoring.results.last().unwrap();
    assert_eq!(row.subject_id, id);
    assert_eq!(row.screened_at, "t2");
    assert!(!row.notified);
    // No prior fingerprint on the subscription: the first re-screen
    // always reports a change.
    assert!(row.has_changes);
}

#[test]
fn subscription_initial_row_reports_no_change() {
    let mut monitoring = MonitoringStore::new();
    let store = SubjectStore::new();
    let engine = MatchingEngine::open(SearchIndex::build_from_store(&store));
    let id = add_monitoring(
        &mut monitoring,
        Some(&engine),
        "default",
        "r10",
        "Jane Roe",
        None,
        None,
        None,
        "t0",
    );
    assert_eq!(monitoring.results.len(), 1);
    let row = monitoring.results.last().unwrap();
    assert_eq!(row.subject_id, id);
    assert!(!row.has_changes);
    assert!(!row.notified);
    let sub = monitoring.subjects.last().unwrap();
    assert_eq!(sub.reference_id, "r10");
    assert!(sub.active);
}
