//! The query path as the service runs it: retrieve and score against the
//! engine when a corpus is loaded, else against the built-in fallback,
//! then band each hit and phrase its explanation.

use vstd::prelude::*;
use vstd::string::StringExecFns;
use crate::engine::{
    MatchingEngine, MresV, StubMatchResult, score_against_stub, stub_result_wf, good_resv,
    mres_views, mres_view, spec_score_result, lemma_score_result_range, opt_str_view,
    opt_year_view, long_toks,
};
use crate::indexer::{IndexedDoc, doc_views, hit_of_doc, spec_doc_match};
use crate::normalize::{spec_normalize, spec_tokens, folded};
use crate::model::{Hit, components_in_range, risk_level_of, spec_risk_level};
use crate::monitoring::{
    MonitoringStore, MonitoredSubject, compute_result_hash, spec_result_hash, pair_views,
    is_active_row, opt_string_view,
};

verus! {

/// Every hit of a screening is banded exactly by its score, and carries
/// components inside the scaled unit interval.
pub open spec fn hit_wf(h: Hit) -> bool {
    &&& h.score <= 10000
    &&& components_in_range(h.components)
    &&& h.risk_level == spec_risk_level(h.score as int)
    &&& h.explanation@.len() >= 1
}

/// A hit carries exactly the fields of one scored match.
pub open spec fn hit_carries(h: Hit, v: MresV) -> bool {
    &&& h.subject_id@ == v.subject_id
    &&& h.matched_name@ == v.primary_name
    &&& h.source == v.source
    &&& h.kind == v.kind
    &&& h.score as int == v.score
    &&& h.components.name_similarity as int == v.components.0
    &&& h.components.dob_similarity as int == v.components.1
    &&& h.components.country_match as int == v.components.2
    &&& h.risk_level == spec_risk_level(v.score)
}

/// A screening hit stands for some indexed document, scored exactly by
/// the engine's rules for this query and banded by that score.
pub open spec fn screen_hit_of(
    h: Hit,
    docs: Seq<IndexedDoc>,
    input_norm: Seq<char>,
    qc: Option<Seq<char>>,
    qd: Option<int>,
) -> bool {
    exists|j: int|
        0 <= j < docs.len() && hit_carries(
            h,
            #[trigger] spec_score_result(hit_of_doc(doc_views(docs)[j]), input_norm, qc, qd),
        )
}

/// A fallback hit carries one scored roster entry, banded by its score.
pub open spec fn stub_screen_hit(
    h: Hit,
    input_norm: Seq<char>,
    qc: Option<Seq<char>>,
    qd: Option<int>,
) -> bool {
    exists|x: StubMatchResult|
        #[trigger] stub_result_wf(x, input_norm, qc, qd) && h.subject_id@ == x.subject.subject_id@
            && h.matched_name@ == x.subject.name@ && h.source == x.subject.source && h.kind
            == x.subject.kind && h.score == x.score && h.components == x.components && h.risk_level
            == spec_risk_level(x.score as int)
}

/// The quantized pairs of a hit list: subject id and the score in
/// hundredths, in order.
pub open spec fn hit_pairs(hs: Seq<Hit>) -> Seq<(Seq<char>, int)> {
    hs.map(|i: int, h: Hit| (h.subject_id@, h.score as int / 100))
}

/// What a screening of the given query returns: banded hits sorted by
/// score; against a corpus, each one an indexed document, ids distinct,
/// and every matching document represented below the cap; against the
/// fallback, the three roster rows.
pub open spec fn screening_hits(
    hs: Seq<Hit>,
    docs: Option<Seq<IndexedDoc>>,
    nm: Seq<char>,
    qc: Option<Seq<char>>,
    qd: Option<int>,
) -> bool {
    &&& forall|i: int| 0 <= i < hs.len() ==> hit_wf(#[trigger] hs[i])
    &&& forall|p: int, q: int|
        0 <= p < q < hs.len() ==> (#[trigger] hs[p]).score >= (#[trigger] hs[q]).score
    &&& match docs {
        Option::Some(ds) => {
            &&& hs.len() <= 10
            &&& forall|i: int|
                0 <= i < hs.len() ==> #[trigger] screen_hit_of(hs[i], ds, spec_normalize(nm), qc, qd)
            &&& forall|p: int, q: int|
                0 <= p < q < hs.len() ==> (#[trigger] hs[p]).subject_id@ != (
                #[trigger] hs[q]).subject_id@
            &&& (hs.len() < 10 ==> forall|j: int|
                0 <= j < ds.len() && #[trigger] spec_doc_match(
                    doc_views(ds)[j],
                    long_toks(spec_tokens(folded(nm)), spec_tokens(folded(nm)).len() as int),
                    true,
                ) ==> exists|i: int|
                    0 <= i < hs.len() && (#[trigger] hs[i]).subject_id@ == doc_views(ds)[j].subject_id)
        },
        Option::None => hs.len() == 3 && forall|i: int|
            0 <= i < hs.len() ==> #[trigger] stub_screen_hit(hs[i], spec_normalize(nm), qc, qd),
    }
}

/// The corpus behind an optional engine: its indexed documents.
pub open spec fn engine_docs(engine: Option<&MatchingEngine>) -> Option<Seq<IndexedDoc>> {
    match engine {
        Option::Some(e) => Option::Some(e.index.docs@),
        Option::None => Option::None,
    }
}

/// A result row that records exactly the given hit list: its fingerprint,
/// its count, and the top score (zero when no hit came back).
pub open spec fn row_records(row: crate::monitoring::MonitoringResultRow, hs: Seq<Hit>) -> bool {
    &&& row.result_hash@ == spec_result_hash(hit_pairs(hs))
    &&& row.hit_count == hs.len()
    &&& row.highest_score as int == (if hs.len() > 0 {
        (hs[0].score) as int
    } else {
        0int
    })
}

/// Screens one name: the engine's ranked matches when a corpus is
/// loaded (each hit one indexed document, duplicates collapsed, every
/// matching document represented below the cap), the fallback roster
/// otherwise, each hit banded by its score.
pub fn perform_screening(
    engine: Option<&MatchingEngine>,
    name: &str,
    country: Option<&String>,
    dob_year: Option<i32>,
) -> (r: Vec<Hit>)
    ensures
        forall|i: int| 0 <= i < r@.len() ==> hit_wf(#[trigger] r@[i]),
        forall|p: int, q: int|
            0 <= p < q < r@.len() ==> (#[trigger] r@[p]).score >= (#[trigger] r@[q]).score,
        engine matches Option::Some(e) ==> r@.len() <= 10 && (forall|i: int|
            0 <= i < r@.len() ==> #[trigger] screen_hit_of(
                r@[i],
                e.index.docs@,
                spec_normalize(name@),
                opt_str_view(country),
                opt_year_view(dob_year),
            )) && (forall|p: int, q: int|
            0 <= p < q < r@.len() ==> (#[trigger] r@[p]).subject_id@ != (
            #[trigger] r@[q]).subject_id@) && (r@.len() < 10 ==> forall|j: int|
            0 <= j < e.index.docs@.len() && #[trigger] spec_doc_match(
                doc_views(e.index.docs@)[j],
                long_toks(spec_tokens(folded(name@)), spec_tokens(folded(name@)).len() as int),
                true,
            ) ==> exists|i: int|
                0 <= i < r@.len() && (#[trigger] r@[i]).subject_id@ == doc_views(
                    e.index.docs@,
                )[j].subject_id),
        engine is None ==> r@.len() == 3 && forall|i: int|
            0 <= i < r@.len() ==> #[trigger] stub_screen_hit(
                r@[i],
                spec_normalize(name@),
                opt_str_view(country),
                opt_year_view(dob_year),
            ),
        screening_hits(
            r@,
            match engine {
                Option::Some(e) => Option::Some(e.index.docs@),
                Option::None => Option::None,
            },
            name@,
            opt_str_view(country),
            opt_year_view(dob_year),
        ),
{
    let mut hits: Vec<Hit> = Vec::new();
    match engine {
        Option::Some(e) => {
            let matches = e.search_and_score(name, country, dob_year, 10);
            let mut i: usize = 0;
            while i < matches.len()
                invariant
                    i <= matches@.len(),
                    hits@.len() == i,
                    forall|p: int| 0 <= p < hits@.len() ==> hit_wf(#[trigger] hits@[p]),
                    forall|p: int|
                        0 <= p < hits@.len() ==> (#[trigger] hits@[p]).score == matches@[p].score,
                    forall|p: int|
                        0 <= p < hits@.len() ==> (#[trigger] hits@[p]).subject_id@
                            == matches@[p].subject_id@,
                    forall|p: int|
                        0 <= p < hits@.len() ==> #[trigger] screen_hit_of(
                            hits@[p],
                            e.index.docs@,
                            spec_normalize(name@),
                            opt_str_view(country),
                            opt_year_view(dob_year),
                        ),
                    forall|p: int, q: int|
                        0 <= p < q < matches@.len() ==> (#[trigger] matches@[p]).score >= (
                        #[trigger] matches@[q]).score,
                    forall|p: int|
                        0 <= p < matches@.len() ==> #[trigger] good_resv(
                            mres_views(matches@)[p],
                            e.index.docs@,
                            crate::normalize::spec_normalize(name@),
                            opt_str_view(country),
                            opt_year_view(dob_year),
                        ),
                decreases matches@.len() - i,
            {
                let m = &matches[i];
                proof {
                    assert(good_resv(
                        mres_views(matches@)[i as int],
                        e.index.docs@,
                        crate::normalize::spec_normalize(name@),
                        opt_str_view(country),
                        opt_year_view(dob_year),
                    ));
                    assert(mres_views(matches@)[i as int] == mres_view(matches@[i as int]));
                    let j = choose|j: int|
                        0 <= j < e.index.docs@.len() && mres_view(matches@[i as int])
                            == crate::engine::spec_score_result(
                            crate::indexer::hit_of_doc(
                                #[trigger] crate::indexer::doc_views(e.index.docs@)[j],
                            ),
                            crate::normalize::spec_normalize(name@),
                            opt_str_view(country),
                            opt_year_view(dob_year),
                        );
                    lemma_score_result_range(
                        crate::indexer::hit_of_doc(crate::indexer::doc_views(e.index.docs@)[j]),
                        crate::normalize::spec_normalize(name@),
                        opt_str_view(country),
                        opt_year_view(dob_year),
                    );
                }
                let level = risk_level_of(m.score);
                let explanation = m.components.explain(
                    m.primary_name.as_str(),
                    match &m.country {
                        Option::Some(c) => Option::Some(c),
                        Option::None => Option::None,
                    },
                );
                let h = Hit {
                    subject_id: m.subject_id.clone(),
                    matched_name: m.primary_name.clone(),
                    source: m.source,
                    kind: m.kind,
                    score: m.score,
                    risk_level: level,
                    components: m.components,
                    explanation,
                };
                proof {
                    assert(hit_carries(h, mres_view(matches@[i as int])));
                    assert(screen_hit_of(
                        h,
                        e.index.docs@,
                        spec_normalize(name@),
                        opt_str_view(country),
                        opt_year_view(dob_year),
                    ));
                }
                hits.push(h);
                i = i + 1;
            }
            proof {
                // Completeness and distinctness transfer from the ranked
                // matches: the hits carry the same subject ids, in order.
                assert(hits@.len() == matches@.len());
                assert forall|p: int, q: int|
                    0 <= p < q < hits@.len() implies (#[trigger] hits@[p]).subject_id@ != (
                #[trigger] hits@[q]).subject_id@ by {
                    assert(hits@[p].subject_id@ == matches@[p].subject_id@);
                    assert(hits@[q].subject_id@ == matches@[q].subject_id@);
                }
                if hits@.len() < 10 {
                    assert forall|j: int|
                        0 <= j < e.index.docs@.len() && #[trigger] spec_doc_match(
                            doc_views(e.index.docs@)[j],
                            long_toks(
                                spec_tokens(folded(name@)),
                                spec_tokens(folded(name@)).len() as int,
                            ),
                            true,
                        ) implies exists|i2: int|
                        0 <= i2 < hits@.len() && (#[trigger] hits@[i2]).subject_id@ == doc_views(
                            e.index.docs@,
                        )[j].subject_id by {
                        assert(crate::engine::id_in_results(
                            doc_views(e.index.docs@)[j].subject_id,
                            matches@,
                        ));
                        let w = choose|w: int|
                            0 <= w < matches@.len() && (#[trigger] matches@[w]).subject_id@
                                == doc_views(e.index.docs@)[j].subject_id;
                        assert(hits@[w].subject_id@ == matches@[w].subject_id@);
                    }
                }
            }
        },
        Option::None => {
            let matches = score_against_stub(name, country, dob_year, 5);
            let mut i: usize = 0;
            while i < matches.len()
                invariant
                    matches@.len() == 3,
                    i <= matches@.len(),
                    hits@.len() == i,
                    forall|p: int| 0 <= p < hits@.len() ==> hit_wf(#[trigger] hits@[p]),
                    forall|p: int|
                        0 <= p < hits@.len() ==> (#[trigger] hits@[p]).score == matches@[p].score,
                    forall|p: int|
                        0 <= p < hits@.len() ==> #[trigger] stub_screen_hit(
                            hits@[p],
                            spec_normalize(name@),
                            opt_str_view(country),
                            opt_year_view(dob_year),
                        ),
                    forall|p: int, q: int|
                        0 <= p < q < matches@.len() ==> (#[trigger] matches@[p]).score >= (
                        #[trigger] matches@[q]).score,
                    forall|p: int|
                        0 <= p < matches@.len() ==> #[trigger] stub_result_wf(
                            matches@[p],
                            spec_normalize(name@),
                            opt_str_view(country),
                            opt_year_view(dob_year),
                        ),
                decreases matches@.len() - i,
            {
                let m = matches[i];
                proof {
                    assert(stub_result_wf(
                        matches@[i as int],
                        spec_normalize(name@),
                        opt_str_view(country),
                        opt_year_view(dob_year),
                    ));
                    assert(components_in_range(m.components));
                }
                let level = risk_level_of(m.score);
                let subject_country: Option<String> = match m.subject.country {
                    Option::Some(c) => Option::Some(String::from_str(c)),
                    Option::None => Option::None,
                };
                let explanation = m.components.explain(
                    m.subject.name,
                    match &subject_country {
                        Option::Some(c) => Option::Some(c),
                        Option::None => Option::None,
                    },
                );
                let h = Hit {
                    subject_id: String::from_str(m.subject.subject_id),
                    matched_name: String::from_str(m.subject.name),
                    source: m.subject.source,
                    kind: m.subject.kind,
                    score: m.score,
                    risk_level: level,
                    components: m.components,
                    explanation,
                };
                proof {
                    assert(stub_result_wf(
                        matches@[i as int],
                        spec_normalize(name@),
                        opt_str_view(country),
                        opt_year_view(dob_year),
                    ));
                    assert(m == matches@[i as int]);
                    assert(stub_screen_hit(
                        h,
                        spec_normalize(name@),
                        opt_str_view(country),
                        opt_year_view(dob_year),
                    ));
                }
                hits.push(h);
                i = i + 1;
            }
        },
    }
    hits
}

/// A freshly recorded result row: stamped now, not yet notified, its
/// fingerprint the digest of some quantized hit list of the stated size,
/// its top score in range.
pub open spec fn fresh_result_row(row: crate::monitoring::MonitoringResultRow, now: Seq<char>) -> bool {
    &&& row.screened_at@ == now
    &&& !row.notified
    &&& row.highest_score <= 10000
    &&& (exists|pairs: Seq<(Seq<char>, int)>|
        row.result_hash@ == #[trigger] spec_result_hash(pairs) && row.hit_count == pairs.len())
}

/// Screens one subscription against the refreshed corpus and records the
/// outcome: the appended row carries the fingerprint of the current hit
/// list, and `has_changes` holds exactly when that fingerprint differs
/// from the subscription's last one (a never-screened subscription always
/// counts as changed).
pub fn re_screen_monitored_subject(
    engine: &MatchingEngine,
    monitoring: &mut MonitoringStore,
    subject: &MonitoredSubject,
    now: &str,
)
    ensures
        final (monitoring).subjects@.len() == old(monitoring).subjects@.len(),
        final (monitoring).next_id == old(monitoring).next_id,
        final (monitoring).results@.len() == old(monitoring).results@.len() + 1,
        forall|i: int|
            0 <= i < old(monitoring).results@.len() ==> #[trigger] final (monitoring).results@[i]
                == old(monitoring).results@[i],
        ({
            let row = final (monitoring).results@.last();
            row.subject_id == subject.id && fresh_result_row(row, now@) && row.has_changes == (
            match subject.last_result_hash {
                Option::Some(h) => h@ != row.result_hash@,
                Option::None => true,
            })
        }),
        ({
            let row = final (monitoring).results@.last();
            exists|hs: Seq<Hit>|
                #[trigger] screening_hits(
                    hs,
                    Option::Some(engine.index.docs@),
                    subject.name@,
                    opt_string_view(subject.country),
                    opt_year_view(subject.dob_year),
                ) && row_records(row, hs)
        }),
{
    let country_ref: Option<&String> = match &subject.country {
        Option::Some(c) => Option::Some(c),
        Option::None => Option::None,
    };
    let hits = perform_screening(Some(engine), subject.name.as_str(), country_ref, subject.dob_year);
    let mut pairs: Vec<(String, u32)> = Vec::new();
    let mut i: usize = 0;
    proof {
        assert(pair_views(pairs@) =~= hit_pairs(hits@).take(0));
    }
    while i < hits.len()
        invariant
            i <= hits@.len(),
            pairs@.len() == i,
            forall|p: int| 0 <= p < hits@.len() ==> hit_wf(#[trigger] hits@[p]),
            pair_views(pairs@) == hit_pairs(hits@).take(i as int),
        decreases hits@.len() - i,
    {
        pairs.push((hits[i].subject_id.clone(), hits[i].score));
        i = i + 1;
        proof {
            assert(pair_views(pairs@) =~= hit_pairs(hits@).take(i as int));
        }
    }
    proof {
        assert(hit_pairs(hits@).take(hits@.len() as int) =~= hit_pairs(hits@));
    }
    let new_hash = compute_result_hash(&pairs);
    let has_changes = match &subject.last_result_hash {
        Option::Some(h) => !crate::strutil::str_equals(h.as_str(), new_hash.as_str()),
        Option::None => true,
    };
    let highest: u32 = if hits.len() > 0 {
        hits[0].score
    } else {
        0
    };
    monitoring.record_monitoring_result(
        subject.id,
        new_hash.as_str(),
        pairs.len(),
        highest,
        has_changes,
        now,
    );
    proof {
        let row = monitoring.results@.last();
        assert(row.result_hash@ == spec_result_hash(pair_views(pairs@)));
        assert(row.hit_count == pair_views(pairs@).len());
        assert(fresh_result_row(row, now@));
        assert(opt_str_view(country_ref) == opt_string_view(subject.country));
        assert(screening_hits(
            hits@,
            Option::Some(engine.index.docs@),
            subject.name@,
            opt_string_view(subject.country),
            opt_year_view(subject.dob_year),
        ));
        assert(row_records(row, hits@));
    }
}

/// One re-screen row: it belongs to the given subscription, records
/// exactly a hit list the current corpus returns for its query, and
/// flags a change exactly when the fingerprint moved (a never-screened
/// subscription always counts as changed).
pub open spec fn rescreen_row_ok(
    row: crate::monitoring::MonitoringResultRow,
    sub: MonitoredSubject,
    docs: Seq<IndexedDoc>,
) -> bool {
    &&& row.subject_id == sub.id
    &&& row.has_changes == (match sub.last_result_hash {
        Option::Some(h) => h@ != row.result_hash@,
        Option::None => true,
    })
    &&& exists|hs: Seq<Hit>|
        screening_hits(
            hs,
            Option::Some(docs),
            sub.name@,
            opt_string_view(sub.country),
            opt_year_view(sub.dob_year),
        ) && #[trigger] row_records(row, hs)
}

/// A row some active subscription of `subs` was re-screened into.
pub open spec fn row_rescreened(
    row: crate::monitoring::MonitoringResultRow,
    subs: Seq<MonitoredSubject>,
    docs: Seq<IndexedDoc>,
) -> bool {
    exists|sub: MonitoredSubject|
        #[trigger] is_active_row(sub, subs) && rescreen_row_ok(row, sub, docs)
}

/// Re-screens every active subscription after a refresh: one fresh result
/// row per active subscription is appended — recording exactly the hits
/// the refreshed corpus returns for it, changed exactly when its
/// fingerprint moved — the existing history stays in place, and the
/// subscription set itself only takes new stamps.
pub fn re_screen_monitored_subjects(
    engine: &MatchingEngine,
    monitoring: &mut MonitoringStore,
    now: &str,
) -> (n: usize)
    ensures
        final (monitoring).subjects@.len() == old(monitoring).subjects@.len(),
        final (monitoring).next_id == old(monitoring).next_id,
        final (monitoring).results@.len() == old(monitoring).results@.len() + n,
        forall|i: int|
            0 <= i < old(monitoring).results@.len() ==> #[trigger] final (monitoring).results@[i]
                == old(monitoring).results@[i],
        forall|i: int|
            old(monitoring).results@.len() <= i < final (monitoring).results@.len()
                ==> fresh_result_row(#[trigger] final (monitoring).results@[i], now@),
        forall|k: int|
            old(monitoring).results@.len() <= k < final (monitoring).results@.len()
                ==> #[trigger] row_rescreened(
                final (monitoring).results@[k],
                old(monitoring).subjects@,
                engine.index.docs@,
            ),
        forall|j: int|
            0 <= j < old(monitoring).subjects@.len() && (#[trigger] old(
                monitoring,
            ).subjects@[j]).active ==> exists|k: int|
                old(monitoring).results@.len() <= k < final (monitoring).results@.len() && (
                #[trigger] final (monitoring).results@[k]).subject_id == old(
                    monitoring,
                ).subjects@[j].id,
{
    let subjects = monitoring.get_all_active_subjects();
    let ghost base = monitoring.results@;
    let m: usize = subjects.len();
    let mut k: usize = 0;
    while k < m
        invariant
            m == subjects@.len(),
            k <= m,
            monitoring.subjects@.len() == old(monitoring).subjects@.len(),
            monitoring.next_id == old(monitoring).next_id,
            base == old(monitoring).results@,
            monitoring.results@.len() == base.len() + k,
            forall|i: int| 0 <= i < base.len() ==> #[trigger] monitoring.results@[i] == base[i],
            forall|i: int|
                base.len() <= i < monitoring.results@.len() ==> fresh_result_row(
                    #[trigger] monitoring.results@[i],
                    now@,
                ),
            forall|p: int|
                0 <= p < k ==> #[trigger] rescreen_row_ok(
                    monitoring.results@[base.len() + p],
                    subjects@[p],
                    engine.index.docs@,
                ),
            forall|p: int|
                0 <= p < m ==> #[trigger] is_active_row(subjects@[p], old(monitoring).subjects@),
            forall|j: int|
                0 <= j < old(monitoring).subjects@.len() && (#[trigger] old(
                    monitoring,
                ).subjects@[j]).active ==> exists|p: int|
                    0 <= p < m && #[trigger] subjects@[p] == old(monitoring).subjects@[j],
        decreases m - k,
    {
        re_screen_monitored_subject(engine, monitoring, &subjects[k], now);
        proof {
            let row = monitoring.results@.last();
            assert(monitoring.results@[base.len() + k as int] == row);
            let hs0 = choose|hs: Seq<Hit>|
                #[trigger] screening_hits(
                    hs,
                    Option::Some(engine.index.docs@),
                    subjects@[k as int].name@,
                    opt_string_view(subjects@[k as int].country),
                    opt_year_view(subjects@[k as int].dob_year),
                ) && row_records(row, hs);
            assert(row_records(row, hs0));
            assert(rescreen_row_ok(row, subjects@[k as int], engine.index.docs@));
        }
        k = k + 1;
    }
    proof {
        assert forall|q: int|
            base.len() <= q < monitoring.results@.len() implies #[trigger] row_rescreened(
            monitoring.results@[q],
            old(monitoring).subjects@,
            engine.index.docs@,
        ) by {
            let p = q - base.len();
            assert(rescreen_row_ok(
                monitoring.results@[base.len() + p],
                subjects@[p],
                engine.index.docs@,
            ));
            assert(base.len() + p == q);
            assert(rescreen_row_ok(monitoring.results@[q], subjects@[p], engine.index.docs@));
            assert(is_active_row(subjects@[p], old(monitoring).subjects@));
            assert(row_rescreened(
                monitoring.results@[q],
                old(monitoring).subjects@,
                engine.index.docs@,
            ));
        }
        assert forall|j: int|
            0 <= j < old(monitoring).subjects@.len() && (#[trigger] old(
                monitoring,
            ).subjects@[j]).active implies exists|q: int|
            base.len() <= q < monitoring.results@.len() && (
            #[trigger] monitoring.results@[q]).subject_id == old(monitoring).subjects@[j].id by {
            let p = choose|p: int|
                0 <= p < m && #[trigger] subjects@[p] == old(monitoring).subjects@[j];
            assert(rescreen_row_ok(
                monitoring.results@[base.len() + p],
                subjects@[p],
                engine.index.docs@,
            ));
            assert(monitoring.results@[base.len() + p].subject_id == old(
                monitoring,
            ).subjects@[j].id);
        }
    }
    m
}

/// Subscribes a subject and screens it synchronously: the subscription is
/// stored under its tenant and reference key, and the initial result row
/// is recorded with `has_changes` false.
pub fn add_monitoring(
    monitoring: &mut MonitoringStore,
    engine: Option<&MatchingEngine>,
    tenant_id: &str,
    reference_id: &str,
    name: &str,
    country: Option<&String>,
    dob_year: Option<i32>,
    callback_url: Option<&String>,
    now: &str,
) -> (id: i64)
    requires
        old(monitoring).next_id < i64::MAX,
    ensures
        final (monitoring).next_id == old(monitoring).next_id + 1,
        id == old(monitoring).next_id,
        final (monitoring).subjects@.len() >= 1,
        ({
            let added = final (monitoring).subjects@.last();
            added.id == id && added.tenant_id@ == tenant_id@ && added.reference_id@
                == reference_id@ && added.name@ == name@ && added.active
        }),
        forall|i: int|
            0 <= i < final (monitoring).subjects@.len() - 1 ==> !((#[trigger] final (monitoring).subjects@[i]).tenant_id@ == tenant_id@ && final (monitoring).subjects@[i].reference_id@
                == reference_id@),
        final (monitoring).results@.len() == old(monitoring).results@.len() + 1,
        forall|i: int|
            0 <= i < old(monitoring).results@.len() ==> #[trigger] final (monitoring).results@[i]
                == old(monitoring).results@[i],
        ({
            let row = final (monitoring).results@.last();
            row.subject_id == id && !row.has_changes && fresh_result_row(row, now@)
        }),
        ({
            let row = final (monitoring).results@.last();
            let docs = match engine {
                Option::Some(e) => Option::Some(e.index.docs@),
                Option::None => Option::None,
            };
            exists|hs: Seq<Hit>|
                screening_hits(hs, docs, name@, opt_str_view(country), opt_year_view(dob_year))
                    && #[trigger] row_records(row, hs)
        }),
{
    let id = monitoring.add_monitored_subject(
        tenant_id,
        reference_id,
        name,
        country,
        dob_year,
        callback_url,
        now,
    );
    let hits = perform_screening(engine, name, country, dob_year);
    let mut pairs: Vec<(String, u32)> = Vec::new();
    let mut i: usize = 0;
    proof {
        assert(pair_views(pairs@) =~= hit_pairs(hits@).take(0));
    }
    while i < hits.len()
        invariant
            i <= hits@.len(),
            pairs@.len() == i,
            forall|p: int| 0 <= p < hits@.len() ==> hit_wf(#[trigger] hits@[p]),
            pair_views(pairs@) == hit_pairs(hits@).take(i as int),
        decreases hits@.len() - i,
    {
        pairs.push((hits[i].subject_id.clone(), hits[i].score));
        i = i + 1;
        proof {
            assert(pair_views(pairs@) =~= hit_pairs(hits@).take(i as int));
        }
    }
    proof {
        assert(hit_pairs(hits@).take(hits@.len() as int) =~= hit_pairs(hits@));
    }
    let initial_hash = compute_result_hash(&pairs);
    let highest: u32 = if hits.len() > 0 {
        hits[0].score
    } else {
        0
    };
    monitoring.record_monitoring_result(id, initial_hash.as_str(), pairs.len(), highest, false, now);
    proof {
        let row = monitoring.results@.last();
        assert(row.result_hash@ == spec_result_hash(pair_views(pairs@)));
        assert(row.hit_count == pair_views(pairs@).len());
        assert(fresh_result_row(row, now@));
        assert(screening_hits(
            hits@,
            match engine {
                Option::Some(e) => Option::Some(e.index.docs@),
                Option::None => Option::None,
            },
            name@,
            opt_str_view(country),
            opt_year_view(dob_year),
        ));
        assert(row_records(row, hits@));
    }
    id
}

} // verus!
