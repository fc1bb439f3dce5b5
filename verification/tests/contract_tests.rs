//! Behavioural checks for the boundary contracts: notification order,
//! key rendering, country mappings, explanation phrasing and the
//! suspended-tenant refusal.

use aegistry::auth::{authorize, AuthDecision};
use aegistry::fetcher::extract_xml_url;
use aegistry::model::ScoreComponents;
use aegistry::monitoring::MonitoringStore;
use aegistry::parser_ofac::country_to_iso;
use aegistry::pep_eu_parliament::country_name_to_iso;
use aegistry::tenant::{base64_encode, Tenant, TenantStore};

#[test]
fn pending_notifications_come_newest_first() {
    let mut monitoring = MonitoringStore::new();
    let cb = "https://example.invalid/cb".to_string();
    let id1 = monitoring.add_monitored_subject("t", "r1", "A One", None, None, Some(&cb), "t0");
    let id2 = monitoring.add_monitored_subject("t", "r2", "B Two", None, None, Some(&cb), "t0");
    monitoring.record_monitoring_result(id1, "h1", 0, 0, true, "t1");
    monitoring.record_monitoring_result(id2, "h2", 0, 0, true, "t2");
    let pending = monitoring.get_pending_notifications();
    assert_eq!(pending.len(), 2);
    // The later screening comes first; indices descend.
    assert!(pending[0].2 > pending[1].2);
    assert_eq!(pending[0].1.subject_id, id2);
    assert_eq!(pending[1].1.subject_id, id1);
}

#[test]
fn base64_length_for_every_remainder() {
    assert_eq!(base64_encode(&vec![1u8]).len(), 2);
    assert_eq!(base64_encode(&vec![1u8, 2]).len(), 3);
    assert_eq!(base64_encode(&vec![1u8, 2, 3]).len(), 4);
    assert_eq!(base64_encode(&vec![0u8; 24]).len(), 32);
    let rendered = base64_encode(&vec![251u8, 239, 190]);
    for c in rendered.chars() {
        assert!(c.is_ascii_alphanumeric() || c == '-' || c == '_');
    }
}

#[test]
fn country_mapping_edges() {
    assert_eq!(country_name_to_iso("Germany").as_deref(), Some("DE"));
    assert_eq!(country_name_to_iso("de").as_deref(), Some("DE"));
    assert_eq!(country_name_to_iso("unknown"), None);
    assert_eq!(country_name_to_iso(""), None);
    assert_eq!(country_to_iso("Russian Federation"), "RU");
    assert_eq!(country_to_iso("burma"), "MM");
    // Unknown names fall back to their first two capitals.
    assert_eq!(country_to_iso("New Atlantis"), "NA");
    assert_eq!(country_to_iso("atlantis"), "");
}

#[test]
fn explanation_phrases_by_bucket() {
    let close = ScoreComponents { name_similarity: 9600, dob_similarity: 10000, country_match: 10000 };
    let country = "IQ".to_string();
    let lines = close.explain("Saddam Hussein", Some(&country));
    assert_eq!(lines.len(), 3);
    assert!(lines[0].starts_with("Name 'Saddam Hussein' is a very close match ("));
    assert!(lines[0].ends_with("%)"));
    assert_eq!(lines[1], "Country 'IQ' matches");
    assert_eq!(lines[2], "Date of birth matches exactly");

    let partial = ScoreComponents { name_similarity: 4000, dob_similarity: 6000, country_match: 0 };
    let lines = partial.explain("Someone", None);
    assert_eq!(lines.len(), 2);
    assert!(lines[0].starts_with("Name 'Someone' partially matches ("));
    assert_eq!(lines[1], "Year of birth is close");
}

#[test]
fn suspended_tenant_is_forbidden() {
    let mut store = TenantStore::new();
    store.create_default_tenant();
    store.tenants.push(Tenant {
        id: "frozen".to_string(),
        name: "Frozen Co".to_string(),
        api_key: "frozen-key".to_string(),
        is_active: false,
        hit_threshold: 9000,
        review_threshold: 7500,
        rate_limit_per_minute: 1000,
    });
    let frozen = "frozen-key".to_string();
    assert!(matches!(authorize(&store, Some(&frozen)), AuthDecision::Suspended));
}

#[test]
fn feed_url_stops_at_the_delimiter() {
    let rss = "<rss>\n<link>https://example.invalid/xmlFullSanctionsList_1_1?token=abc&amp;x=1</link>\n</rss>";
    let url = extract_xml_url(rss).expect("a marked line carries the link");
    assert_eq!(url, "https://example.invalid/xmlFullSanctionsList_1_1?token=abc");
    assert!(extract_xml_url("<rss>\n<link>https://example.invalid/other</link>\n</rss>").is_none());
}
