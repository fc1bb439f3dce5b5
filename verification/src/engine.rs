//! The matching engine: fuzzy candidate retrieval over the search index,
//! multi-signal scoring, capping rules, and ranked results.
//!
//! All scores are integers in ten-thousandths, so the capping rules are
//! exact and the descending sort is total — there is no lost ordering the
//! way floating-point scores would allow.

use vstd::prelude::*;
use crate::indexer::{
    SearchIndex, SearchHit, IndexedDoc, HitV, hit_view, hit_of_doc, doc_views, spec_doc_match,
    good_hit, tokens_of_normalized, doc_matches, hit_from_doc,
};
use crate::matching::{views, parts_match_state, spec_all_parts_matched, spec_parts_score};
use crate::model::{RiskLevel, spec_risk_level, SubjectKind, HitSource, ScoreComponents};
use crate::normalize::{normalize_name, spec_normalize, spec_tokens, folded};
use crate::similarity::{jaro_winkler, spec_jaro_winkler};
use crate::store::{ascii_lower_seq, ascii_lower_char};
use crate::strutil::{to_chars, contains_chars, contains_seq};

verus! {

/// The view of an optional borrowed string.
pub open spec fn opt_str_view(o: Option<&String>) -> Option<Seq<char>> {
    match o {
        Option::Some(c) => Option::Some(c@),
        Option::None => Option::None,
    }
}

/// The view of an optional year.
pub open spec fn opt_year_view(o: Option<i32>) -> Option<int> {
    match o {
        Option::Some(y) => Option::Some(y as int),
        Option::None => Option::None,
    }
}

/// Case-insensitive ASCII equality.
pub open spec fn ascii_ci_eq(a: Seq<char>, b: Seq<char>) -> bool {
    ascii_lower_seq(a) == ascii_lower_seq(b)
}

/// Compares two strings ASCII-case-insensitively.
pub fn eq_ignore_ascii(a: &str, b: &str) -> (r: bool)
    ensures
        r == ascii_ci_eq(a@, b@),
{
    let ac = to_chars(a);
    let bc = to_chars(b);
    if ac.len() != bc.len() {
        proof {
            assert(ascii_lower_seq(a@).len() != ascii_lower_seq(b@).len());
        }
        return false;
    }
    let n: usize = ac.len();
    let mut i: usize = 0;
    while i < n
        invariant
            ac@ == a@,
            bc@ == b@,
            n == a@.len(),
            n == b@.len(),
            i <= n,
            forall|q: int|
                0 <= q < i ==> crate::store::ascii_lower(a@[q]) == #[trigger] crate::store::ascii_lower(
                    b@[q],
                ),
        decreases n - i,
    {
        if ascii_lower_char(ac[i]) != ascii_lower_char(bc[i]) {
            proof {
                assert(ascii_lower_seq(a@)[i as int] != ascii_lower_seq(b@)[i as int]);
            }
            return false;
        }
        i = i + 1;
    }
    proof {
        assert(ascii_lower_seq(a@) =~= ascii_lower_seq(b@));
    }
    true
}

/// The country component: full when both sides carry a country and they
/// agree case-insensitively, nothing otherwise.
pub open spec fn spec_country_match(q: Option<Seq<char>>, c: Option<Seq<char>>) -> int {
    match (q, c) {
        (Option::Some(qc), Option::Some(cc)) => if ascii_ci_eq(qc, cc) {
            10000int
        } else {
            0int
        },
        _ => 0int,
    }
}

/// The date-of-birth component: full on equal years, half within two
/// years, nothing otherwise or when either side lacks a year.
pub open spec fn spec_dob_similarity(q: Option<int>, c: Option<int>) -> int {
    match (q, c) {
        (Option::Some(qy), Option::Some(cy)) => if qy == cy {
            10000int
        } else if -2 <= qy - cy <= 2 {
            5000int
        } else {
            0int
        },
        _ => 0int,
    }
}

/// Computes the date-of-birth component.
pub fn dob_similarity(q: Option<i32>, c: Option<i32>) -> (r: u32)
    ensures
        r as int == spec_dob_similarity(
            match q {
                Option::Some(y) => Option::Some(y as int),
                Option::None => Option::None,
            },
            match c {
                Option::Some(y) => Option::Some(y as int),
                Option::None => Option::None,
            },
        ),
        r <= 10000,
{
    match (q, c) {
        (Option::Some(qy), Option::Some(cy)) => {
            if qy == cy {
                10000
            } else {
                let d: i64 = qy as i64 - cy as i64;
                if -2 <= d && d <= 2 {
                    5000
                } else {
                    0
                }
            }
        },
        _ => 0,
    }
}

/// The name similarity over normalized names: parts matching first. When
/// any input token goes unmatched, the penalized parts score stands as the
/// result; otherwise the whole-string measure joins as a secondary signal,
/// with a containment bonus on top.
pub open spec fn spec_name_similarity(input: Seq<char>, subject: Seq<char>) -> int {
    let parts = spec_parts_score(spec_tokens(input), spec_tokens(subject));
    let bonus: int = if contains_seq(subject, input) {
        500
    } else {
        0
    };
    let jw = spec_jaro_winkler(input, subject);
    if !spec_all_parts_matched(spec_tokens(input), spec_tokens(subject)) {
        parts
    } else if parts >= 9000 {
        if parts + bonus >= 10000 {
            10000
        } else {
            parts + bonus
        }
    } else if parts >= 7000 {
        let blended = (7 * parts + 3 * jw) / 10 + bonus;
        if blended >= 10000 {
            10000
        } else {
            blended
        }
    } else {
        let capped = 85 * jw / 100;
        if capped >= 7500 {
            7500
        } else {
            capped
        }
    }
}

/// Computes the name similarity of two already-normalized names.
pub fn compute_name_similarity(input: &str, subject: &str) -> (r: u32)
    ensures
        r as int == spec_name_similarity(input@, subject@),
        r <= 10000,
{
    let ichars = to_chars(input);
    let schars = to_chars(subject);
    let itoks = tokens_of_normalized(input);
    let stoks = tokens_of_normalized(subject);
    let st = parts_match_state(&itoks, &stoks);
    let parts = st.0;
    let bonus: u32 = if contains_chars(&schars, &ichars) {
        500
    } else {
        0
    };
    let jw = jaro_winkler(&ichars, &schars);
    if !st.1 {
        parts
    } else if parts >= 9000 {
        if parts + bonus >= 10000 {
            10000
        } else {
            parts + bonus
        }
    } else if parts >= 7000 {
        let blended = (7 * parts + 3 * jw) / 10 + bonus;
        if blended >= 10000 {
            10000
        } else {
            blended
        }
    } else {
        let capped = 85 * jw / 100;
        if capped >= 7500 {
            7500
        } else {
            capped
        }
    }
}

/// The weighted combination with the three capping rules, applied in
/// order: the perfect-identity floor, then the country cap, then the
/// date-of-birth cap.
pub open spec fn spec_combined_score(
    name: int,
    country: int,
    dob: int,
    country_supplied: bool,
    dob_supplied: bool,
) -> int {
    let base = (70 * name + 20 * country + 10 * dob) / 100;
    let s1 = if name >= 9900 && country >= 10000 {
        if base >= 9500 {
            base
        } else {
            9500
        }
    } else {
        base
    };
    let s2 = if country_supplied && country < 10000 && name < 9900 && s1 > 9000 {
        if s1 <= 8900 {
            s1
        } else {
            8900
        }
    } else {
        s1
    };
    if dob_supplied && dob < 10000 && !(name >= 9900 && country >= 10000) && s2 > 9000 {
        if s2 <= 8900 {
            s2
        } else {
            8900
        }
    } else {
        s2
    }
}

/// Computes the combined score.
pub fn combined_score(
    name: u32,
    country: u32,
    dob: u32,
    country_supplied: bool,
    dob_supplied: bool,
) -> (r: u32)
    requires
        name <= 10000,
        country <= 10000,
        dob <= 10000,
    ensures
        r as int == spec_combined_score(
            name as int,
            country as int,
            dob as int,
            country_supplied,
            dob_supplied,
        ),
        r <= 10000,
{
    let base: u32 = (70 * name + 20 * country + 10 * dob) / 100;
    let s1: u32 = if name >= 9900 && country >= 10000 {
        if base >= 9500 {
            base
        } else {
            9500
        }
    } else {
        base
    };
    let s2: u32 = if country_supplied && country < 10000 && name < 9900 && s1 > 9000 {
        if s1 <= 8900 {
            s1
        } else {
            8900
        }
    } else {
        s1
    };
    if dob_supplied && dob < 10000 && !(name >= 9900 && country >= 10000) && s2 > 9000 {
        if s2 <= 8900 {
            s2
        } else {
            8900
        }
    } else {
        s2
    }
}

/// The combined score stays in the scaled unit interval whenever the
/// components do.
pub proof fn lemma_combined_score_range(
    name: int,
    country: int,
    dob: int,
    cs: bool,
    ds: bool,
)
    requires
        0 <= name <= 10000,
        0 <= country <= 10000,
        0 <= dob <= 10000,
    ensures
        0 <= spec_combined_score(name, country, dob, cs, ds) <= 10000,
{
}

/// A perfect name with a confirmed country always reaches the hit band.
pub proof fn lemma_perfect_identity_is_hit(
    name: int,
    country: int,
    dob: int,
    cs: bool,
    ds: bool,
)
    requires
        0 <= name <= 10000,
        0 <= country <= 10000,
        0 <= dob <= 10000,
        name >= 9900,
        country == 10000,
    ensures
        spec_combined_score(name, country, dob, cs, ds) >= 9500,
        spec_risk_level(spec_combined_score(name, country, dob, cs, ds)) == RiskLevel::Hit,
{
}

/// A supplied but unmatched country with an imperfect name never reaches
/// the hit band.
pub proof fn lemma_country_mismatch_never_hit(
    name: int,
    country: int,
    dob: int,
    ds: bool,
)
    requires
        0 <= name <= 10000,
        0 <= dob <= 10000,
        country == 0,
        name < 9900,
    ensures
        spec_combined_score(name, country, dob, true, ds) < 9500,
        spec_risk_level(spec_combined_score(name, country, dob, true, ds)) != RiskLevel::Hit,
{
}

/// Maps a stored source label to its roster.
pub open spec fn spec_parse_source(s: Seq<char>) -> HitSource {
    if ascii_ci_eq(s, "EU"@) || ascii_ci_eq(s, "EU_CONSOLIDATED"@) {
        HitSource::EuConsolidated
    } else if ascii_ci_eq(s, "UN"@) || ascii_ci_eq(s, "UN_SC"@) {
        HitSource::UnSc
    } else if ascii_ci_eq(s, "OFAC"@) {
        HitSource::Ofac
    } else if ascii_ci_eq(s, "UK"@) {
        HitSource::Uk
    } else if ascii_ci_eq(s, "PEP_EU"@) {
        HitSource::PepEu
    } else {
        HitSource::Stub
    }
}

pub fn parse_source(s: &str) -> (r: HitSource)
    ensures
        r == spec_parse_source(s@),
{
    if eq_ignore_ascii(s, "EU") || eq_ignore_ascii(s, "EU_CONSOLIDATED") {
        HitSource::EuConsolidated
    } else if eq_ignore_ascii(s, "UN") || eq_ignore_ascii(s, "UN_SC") {
        HitSource::UnSc
    } else if eq_ignore_ascii(s, "OFAC") {
        HitSource::Ofac
    } else if eq_ignore_ascii(s, "UK") {
        HitSource::Uk
    } else if eq_ignore_ascii(s, "PEP_EU") {
        HitSource::PepEu
    } else {
        HitSource::Stub
    }
}

/// Maps a stored kind label to the subject kind.
pub open spec fn spec_parse_kind(s: Seq<char>) -> SubjectKind {
    if ascii_ci_eq(s, "entity"@) || ascii_ci_eq(s, "enterprise"@) {
        SubjectKind::Entity
    } else {
        SubjectKind::Person
    }
}

pub fn parse_kind(s: &str) -> (r: SubjectKind)
    ensures
        r == spec_parse_kind(s@),
{
    if eq_ignore_ascii(s, "entity") || eq_ignore_ascii(s, "enterprise") {
        SubjectKind::Entity
    } else {
        SubjectKind::Person
    }
}

/// One scored match.
#[derive(Clone, Debug)]
pub struct MatchResult {
    pub subject_id: String,
    pub primary_name: String,
    pub source: HitSource,
    pub kind: SubjectKind,
    pub country: Option<String>,
    pub dob_year: Option<i32>,
    pub score: u32,
    pub components: ScoreComponents,
}

/// The mathematical content of one scored match.
pub ghost struct MresV {
    pub subject_id: Seq<char>,
    pub primary_name: Seq<char>,
    pub source: HitSource,
    pub kind: SubjectKind,
    pub country: Option<Seq<char>>,
    pub dob_year: Option<int>,
    pub score: int,
    pub components: (int, int, int),
}

pub open spec fn mres_view(m: MatchResult) -> MresV {
    MresV {
        subject_id: m.subject_id@,
        primary_name: m.primary_name@,
        source: m.source,
        kind: m.kind,
        country: match m.country {
            Option::Some(c) => Option::Some(c@),
            Option::None => Option::None,
        },
        dob_year: match m.dob_year {
            Option::Some(y) => Option::Some(y as int),
            Option::None => Option::None,
        },
        score: m.score as int,
        components: (
            m.components.name_similarity as int,
            m.components.dob_similarity as int,
            m.components.country_match as int,
        ),
    }
}

pub open spec fn mres_views(ms: Seq<MatchResult>) -> Seq<MresV> {
    Seq::new(ms.len(), |i: int| mres_view(ms[i]))
}

/// The match one candidate scores into against one query: name similarity
/// against the normalized stored name, country and year agreement, the
/// capped weighted combination.
pub open spec fn spec_score_result(
    c: HitV,
    input_norm: Seq<char>,
    qcountry: Option<Seq<char>>,
    qdob: Option<int>,
) -> MresV {
    let name = spec_name_similarity(input_norm, spec_normalize(c.primary_name));
    let cm = spec_country_match(qcountry, c.country);
    let ds = spec_dob_similarity(qdob, c.dob_year);
    MresV {
        subject_id: c.subject_id,
        primary_name: c.primary_name,
        source: spec_parse_source(c.source),
        kind: spec_parse_kind(c.kind),
        country: c.country,
        dob_year: c.dob_year,
        score: spec_combined_score(name, cm, ds, qcountry is Some, qdob is Some),
        components: (name, ds, cm),
    }
}

/// Scores one candidate.
fn score_candidate(
    cand: &SearchHit,
    input_norm: &str,
    qcountry: Option<&String>,
    qdob: Option<i32>,
) -> (r: MatchResult)
    ensures
        mres_view(r) == spec_score_result(
            hit_view(*cand),
            input_norm@,
            match qcountry {
                Option::Some(c) => Option::Some(c@),
                Option::None => Option::None,
            },
            match qdob {
                Option::Some(y) => Option::Some(y as int),
                Option::None => Option::None,
            },
        ),
        r.score <= 10000,
        r.components.name_similarity <= 10000,
        r.components.dob_similarity <= 10000,
        r.components.country_match <= 10000,
{
    let norm_subject = normalize_name(cand.primary_name.as_str());
    let name = compute_name_similarity(input_norm, norm_subject.as_str());
    let cm: u32 = match (qcountry, &cand.country) {
        (Option::Some(qc), Option::Some(cc)) => {
            if eq_ignore_ascii(qc.as_str(), cc.as_str()) {
                10000
            } else {
                0
            }
        },
        _ => 0,
    };
    let ds = dob_similarity(qdob, cand.dob_year);
    let score = combined_score(name, cm, ds, qcountry.is_some(), qdob.is_some());
    MatchResult {
        subject_id: cand.subject_id.clone(),
        primary_name: cand.primary_name.clone(),
        source: parse_source(cand.source.as_str()),
        kind: parse_kind(cand.kind.as_str()),
        country: match &cand.country {
            Option::Some(c) => Option::Some(c.clone()),
            Option::None => Option::None,
        },
        dob_year: cand.dob_year,
        score,
        components: ScoreComponents { name_similarity: name, dob_similarity: ds, country_match: cm },
    }
}

/// Copies one match.
fn clone_result(m: &MatchResult) -> (r: MatchResult)
    ensures
        r == *m,
{
    MatchResult {
        subject_id: m.subject_id.clone(),
        primary_name: m.primary_name.clone(),
        source: m.source,
        kind: m.kind,
        country: match &m.country {
            Option::Some(c) => Option::Some(c.clone()),
            Option::None => Option::None,
        },
        dob_year: m.dob_year,
        score: m.score,
        components: m.components,
    }
}

/// Sorts matches by score, highest first, by insertion.
#[verifier::rlimit(60)]
fn sort_results(input: Vec<MatchResult>) -> (r: Vec<MatchResult>)
    ensures
        r@.len() == input@.len(),
        forall|p: int, q: int| 0 <= p < q < r@.len() ==> (#[trigger] r@[p]).score >= (#[trigger] r@[q]).score,
        mres_views(r@).to_multiset() == mres_views(input@).to_multiset(),
{
    broadcast use vstd::seq_lib::group_to_multiset_ensures;

    let mut rest = input;
    let mut acc: Vec<MatchResult> = Vec::new();
    proof {
        assert(mres_views(acc@) =~= Seq::<MresV>::empty());
        assert(mres_views(acc@).to_multiset() =~= vstd::multiset::Multiset::<MresV>::empty());
    }
    loop
        invariant
            forall|p: int, q: int|
                0 <= p < q < acc@.len() ==> (#[trigger] acc@[p]).score >= (#[trigger] acc@[q]).score,
            mres_views(acc@).to_multiset().add(mres_views(rest@).to_multiset()) == mres_views(
                input@,
            ).to_multiset(),
            acc@.len() + rest@.len() == input@.len(),
        ensures
            rest@.len() == 0,
            forall|p: int, q: int|
                0 <= p < q < acc@.len() ==> (#[trigger] acc@[p]).score >= (#[trigger] acc@[q]).score,
            mres_views(acc@).to_multiset() == mres_views(input@).to_multiset(),
            acc@.len() == input@.len(),
        decreases rest@.len(),
    {
        broadcast use vstd::seq_lib::group_to_multiset_ensures;

        if rest.len() == 0 {
            proof {
                assert(mres_views(rest@) =~= Seq::<MresV>::empty());
                assert(mres_views(rest@).to_multiset() =~= vstd::multiset::Multiset::<MresV>::empty());
                assert(mres_views(acc@).to_multiset() =~= mres_views(input@).to_multiset());
            }
            break;
        }
        let ghost rest0 = rest@;
        let x = rest.pop().unwrap();
        proof {
            assert(rest@ =~= rest0.drop_last());
            assert(mres_views(rest0) =~= mres_views(rest@).push(mres_view(x)));
            assert(mres_views(rest0).to_multiset() =~= mres_views(rest@).to_multiset().insert(
                mres_view(x),
            ));
        }
        // Find the insertion point: past everything with a higher or equal
        // score.
        let mut p: usize = 0;
        loop
            invariant_except_break
                p <= acc@.len(),
                forall|q: int| 0 <= q < p ==> (#[trigger] acc@[q]).score >= x.score,
            ensures
                p <= acc@.len(),
                forall|q: int| 0 <= q < p ==> (#[trigger] acc@[q]).score >= x.score,
                p < acc@.len() ==> acc@[p as int].score < x.score,
            decreases acc@.len() - p,
        {
            if p >= acc.len() {
                break;
            }
            if acc[p].score < x.score {
                break;
            }
            p = p + 1;
        }
        let ghost acc0 = acc@;
        acc.insert(p, x);
        proof {
            assert(acc@.remove(p as int) =~= acc0);
            assert(acc@.remove(p as int).to_multiset() =~= acc@.to_multiset().remove(acc@[
                p as int]));
            assert(acc@.to_multiset().contains(acc@[p as int]));
            assert(acc@.to_multiset() =~= acc0.to_multiset().insert(x));
            assert(mres_views(acc@).remove(p as int) =~= mres_views(acc0));
            assert(mres_views(acc@).to_multiset() =~= mres_views(acc0).to_multiset().insert(
                mres_view(x),
            ));
            assert forall|u: int, w: int|
                0 <= u < w < acc@.len() implies (#[trigger] acc@[u]).score >= (
            #[trigger] acc@[w]).score by {
                if w < p {
                    assert(acc@[u] == acc0[u] && acc@[w] == acc0[w]);
                } else if w == p {
                    assert(acc@[u] == acc0[u]);
                } else {
                    if u < p {
                        assert(acc@[u] == acc0[u] && acc@[w] == acc0[w - 1]);
                    } else if u == p {
                        assert(acc@[w] == acc0[w - 1]);
                        assert(acc0[w - 1].score < x.score || w - 1 >= p);
                        if w - 1 == p {
                            assert(acc0[p as int].score < x.score);
                        } else {
                            assert(acc0[p as int].score < x.score);
                            assert(acc0[p as int].score >= acc0[w - 1].score);
                        }
                    } else {
                        assert(acc@[u] == acc0[u - 1] && acc@[w] == acc0[w - 1]);
                    }
                }
            }
        }
    }
    acc
}

/// The tokens of length at least three: shorter tokens fan out too widely
/// and are dropped from retrieval.
pub open spec fn long_toks(qts: Seq<Seq<char>>, i: int) -> Seq<Seq<char>>
    decreases i,
    when 0 <= i <= qts.len()
{
    if i <= 0 {
        Seq::empty()
    } else if qts[i - 1].len() >= 3 {
        long_toks(qts, i - 1).push(qts[i - 1])
    } else {
        long_toks(qts, i - 1)
    }
}

/// A scored match that stands for some indexed document, scored exactly by
/// the engine's rules for this query.
pub open spec fn good_resv(
    v: MresV,
    docs: Seq<IndexedDoc>,
    input_norm: Seq<char>,
    qc: Option<Seq<char>>,
    qd: Option<int>,
) -> bool {
    exists|j: int|
        0 <= j < docs.len() && v == spec_score_result(
            hit_of_doc(#[trigger] doc_views(docs)[j]),
            input_norm,
            qc,
            qd,
        )
}

/// Some retrieved hit carries this subject id.
pub open spec fn id_represented(id: Seq<char>, hits: Seq<SearchHit>) -> bool {
    exists|p: int| 0 <= p < hits.len() && (#[trigger] hits[p]).subject_id@ == id
}

/// Some scored match carries this subject id.
pub open spec fn id_in_results(id: Seq<char>, ms: Seq<MatchResult>) -> bool {
    exists|p: int| 0 <= p < ms.len() && (#[trigger] ms[p]).subject_id@ == id
}

/// The matching engine: candidate retrieval plus scoring over one built
/// search index.
pub struct MatchingEngine {
    pub index: SearchIndex,
}

impl MatchingEngine {
    /// Wraps a built index.
    pub fn open(index: SearchIndex) -> (r: MatchingEngine)
        ensures
            r.index.docs@ == index.docs@,
    {
        MatchingEngine { index }
    }

    /// Retrieves up to `limit` candidates: every normalized query token of
    /// length at least three is matched fuzzily (one edit, transpositions
    /// allowed) against name and alias tokens; duplicates by subject id
    /// are collapsed, first occurrence kept.  A query with no eligible
    /// token retrieves nothing.
    pub fn search_candidates(&self, query: &str, limit: usize) -> (r: Vec<SearchHit>)
        ensures
            r@.len() <= limit,
            (forall|t: int|
                0 <= t < spec_tokens(folded(query@)).len() ==> (#[trigger] spec_tokens(
                    folded(query@),
                )[t]).len() < 3) ==> r@.len() == 0,
            forall|i: int|
                0 <= i < r@.len() ==> #[trigger] good_hit(
                    r@[i],
                    self.index.docs@,
                    long_toks(
                        spec_tokens(folded(query@)),
                        spec_tokens(folded(query@)).len() as int,
                    ),
                    true,
                ),
            forall|p: int, q: int|
                0 <= p < q < r@.len() ==> (#[trigger] r@[p]).subject_id@ != (
                #[trigger] r@[q]).subject_id@,
            r@.len() < limit ==> forall|j: int|
                0 <= j < self.index.docs@.len() && #[trigger] spec_doc_match(
                    doc_views(self.index.docs@)[j],
                    long_toks(
                        spec_tokens(folded(query@)),
                        spec_tokens(folded(query@)).len() as int,
                    ),
                    true,
                ) ==> id_represented(doc_views(self.index.docs@)[j].subject_id, r@),
    {
        let ghost qts = spec_tokens(folded(query@));
        let nq = normalize_name(query);
        let all_toks = tokens_of_normalized(nq.as_str());
        proof {
            crate::normalize::lemma_tokens_of_normalized(query@);
            assert(views(all_toks@) == qts);
        }
        let tn: usize = all_toks.len();
        let mut eligible: Vec<Vec<char>> = Vec::new();
        let mut t: usize = 0;
        proof {
            assert(views(all_toks@).len() == all_toks@.len());
            assert(views(eligible@) =~= long_toks(qts, 0));
        }
        while t < tn
            invariant
                qts == spec_tokens(folded(query@)),
                views(all_toks@) == qts,
                tn == all_toks@.len(),
                tn == qts.len(),
                t <= tn,
                views(eligible@) == long_toks(qts, t as int),
                eligible@.len() > 0 ==> exists|q: int| 0 <= q < t && (#[trigger] qts[q]).len() >= 3,
            decreases tn - t,
        {
            proof {
                assert(views(all_toks@)[t as int] == all_toks@[t as int]@);
            }
            if all_toks[t].len() >= 3 {
                eligible.push(crate::strutil::clone_chars(&all_toks[t]));
                proof {
                    assert(qts[t as int].len() >= 3);
                    assert(views(eligible@) =~= long_toks(qts, t + 1));
                }
            } else {
                proof {
                    assert(views(eligible@) =~= long_toks(qts, t + 1));
                }
            }
            t = t + 1;
        }
        if eligible.len() == 0 {
            proof {
                assert(long_toks(qts, qts.len() as int).len() == 0);
                assert forall|j: int|
                    0 <= j < self.index.docs@.len() implies !spec_doc_match(
                    doc_views(self.index.docs@)[j],
                    long_toks(qts, qts.len() as int),
                    true,
                ) by {}
            }
            return Vec::new();
        }
        proof {
            let q0 = choose|q: int| 0 <= q < tn && (#[trigger] qts[q]).len() >= 3;
            assert(qts[q0].len() >= 3);
        }
        let mut hits: Vec<SearchHit> = Vec::new();
        let n: usize = self.index.docs.len();
        let mut i: usize = 0;
        loop
            invariant
                qts == spec_tokens(folded(query@)),
                views(eligible@) == long_toks(qts, qts.len() as int),
                n == self.index.docs@.len(),
                i <= n,
                hits@.len() <= limit,
                forall|p: int|
                    0 <= p < hits@.len() ==> #[trigger] good_hit(
                        hits@[p],
                        self.index.docs@,
                        long_toks(qts, qts.len() as int),
                        true,
                    ),
                forall|p: int, q: int|
                    0 <= p < q < hits@.len() ==> (#[trigger] hits@[p]).subject_id@ != (
                    #[trigger] hits@[q]).subject_id@,
                forall|j: int|
                    0 <= j < i && #[trigger] spec_doc_match(
                        doc_views(self.index.docs@)[j],
                        long_toks(qts, qts.len() as int),
                        true,
                    ) ==> id_represented(doc_views(self.index.docs@)[j].subject_id, hits@),
            ensures
                hits@.len() <= limit,
                forall|p: int|
                    0 <= p < hits@.len() ==> #[trigger] good_hit(
                        hits@[p],
                        self.index.docs@,
                        long_toks(qts, qts.len() as int),
                        true,
                    ),
                forall|p: int, q: int|
                    0 <= p < q < hits@.len() ==> (#[trigger] hits@[p]).subject_id@ != (
                    #[trigger] hits@[q]).subject_id@,
                hits@.len() < limit ==> forall|j: int|
                    0 <= j < n && #[trigger] spec_doc_match(
                        doc_views(self.index.docs@)[j],
                        long_toks(qts, qts.len() as int),
                        true,
                    ) ==> id_represented(doc_views(self.index.docs@)[j].subject_id, hits@),
            decreases n - i,
        {
            if i >= n {
                break;
            }
            if hits.len() >= limit {
                break;
            }
            let doc = &self.index.docs[i];
            let ghost hits0 = hits@;
            if doc_matches(doc, &eligible, true) {
                // Collapse duplicates by subject id, keeping the first.
                let mut seen: bool = false;
                let mut si: usize = 0;
                while si < hits.len()
                    invariant
                        si <= hits@.len(),
                        seen ==> id_represented(crate::indexer::doc_view(*doc).subject_id, hits@),
                        !seen ==> forall|t: int|
                            0 <= t < si ==> (#[trigger] hits@[t]).subject_id@
                                != crate::indexer::doc_view(*doc).subject_id,
                    decreases hits@.len() - si,
                {
                    if hits[si].subject_id == doc.subject_id {
                        proof {
                            assert(hits@[si as int].subject_id@ == crate::indexer::doc_view(
                                *doc,
                            ).subject_id);
                        }
                        seen = true;
                    }
                    si = si + 1;
                }
                if !seen {
                    let h = hit_from_doc(doc);
                    proof {
                        assert(doc_views(self.index.docs@)[i as int] == crate::indexer::doc_view(
                            self.index.docs@[i as int],
                        ));
                        assert(good_hit(
                            h,
                            self.index.docs@,
                            long_toks(qts, qts.len() as int),
                            true,
                        ));
                    }
                    hits.push(h);
                    proof {
                        assert(hits@.last() == h);
                        assert(h.subject_id@ == crate::indexer::doc_view(*doc).subject_id);
                        assert(id_represented(
                            doc_views(self.index.docs@)[i as int].subject_id,
                            hits@,
                        ));
                    }
                }
            }
            proof {
                assert(doc_views(self.index.docs@)[i as int] == crate::indexer::doc_view(
                    self.index.docs@[i as int],
                ));
                assert forall|j: int|
                    0 <= j < i + 1 && #[trigger] spec_doc_match(
                        doc_views(self.index.docs@)[j],
                        long_toks(qts, qts.len() as int),
                        true,
                    ) implies id_represented(
                    doc_views(self.index.docs@)[j].subject_id,
                    hits@,
                ) by {
                    if j < i {
                        assert(id_represented(doc_views(self.index.docs@)[j].subject_id, hits0));
                        let p = choose|p: int|
                            0 <= p < hits0.len() && (#[trigger] hits0[p]).subject_id@
                                == doc_views(self.index.docs@)[j].subject_id;
                        assert(hits@[p] == hits0[p]);
                    }
                }
            }
            i = i + 1;
        }
        hits
    }

    /// Runs the whole query path: retrieves fuzzy candidates with tenfold
    /// fanout, scores each against the query, sorts by score descending
    /// and truncates to the caller's limit.  Integer scores keep the sort
    /// total.
    pub fn search_and_score(
        &self,
        name: &str,
        country: Option<&String>,
        dob_year: Option<i32>,
        max_results: usize,
    ) -> (r: Vec<MatchResult>)
        ensures
            r@.len() <= max_results,
            forall|p: int, q: int|
                0 <= p < q < r@.len() ==> (#[trigger] r@[p]).score >= (#[trigger] r@[q]).score,
            forall|p: int, q: int|
                0 <= p < q < r@.len() ==> (#[trigger] r@[p]).subject_id@ != (
                #[trigger] r@[q]).subject_id@,
            (forall|t: int|
                0 <= t < spec_tokens(folded(name@)).len() ==> (#[trigger] spec_tokens(
                    folded(name@),
                )[t]).len() < 3) ==> r@.len() == 0,
            forall|i: int|
                0 <= i < r@.len() ==> #[trigger] good_resv(
                    mres_views(r@)[i],
                    self.index.docs@,
                    spec_normalize(name@),
                    opt_str_view(country),
                    opt_year_view(dob_year),
                ),
            r@.len() < max_results ==> forall|j: int|
                0 <= j < self.index.docs@.len() && #[trigger] spec_doc_match(
                    doc_views(self.index.docs@)[j],
                    long_toks(
                        spec_tokens(folded(name@)),
                        spec_tokens(folded(name@)).len() as int,
                    ),
                    true,
                ) ==> id_in_results(doc_views(self.index.docs@)[j].subject_id, r@),
    {
        broadcast use vstd::seq_lib::group_to_multiset_ensures;

        let ghost qc: Option<Seq<char>> = opt_str_view(country);
        let ghost qd: Option<int> = opt_year_view(dob_year);
        let fanout: usize = if max_results > usize::MAX / 10 {
            usize::MAX
        } else {
            max_results * 10
        };
        let cands = self.search_candidates(name, fanout);
        let nq = normalize_name(name);
        let cn: usize = cands.len();
        let mut scored: Vec<MatchResult> = Vec::new();
        let mut i: usize = 0;
        while i < cn
            invariant
                qc == opt_str_view(country),
                qd == opt_year_view(dob_year),
                nq@ == spec_normalize(name@),
                cn == cands@.len(),
                i <= cn,
                scored@.len() == i,
                forall|p: int|
                    0 <= p < i ==> mres_view(#[trigger] scored@[p]) == spec_score_result(
                        hit_view(cands@[p]),
                        nq@,
                        qc,
                        qd,
                    ),
                forall|p: int|
                    0 <= p < i ==> (#[trigger] scored@[p]).subject_id@ == cands@[p].subject_id@,
            decreases cn - i,
        {
            let m = score_candidate(&cands[i], nq.as_str(), country, dob_year);
            scored.push(m);
            i = i + 1;
        }
        proof {
            assert forall|p: int| 0 <= p < scored@.len() implies #[trigger] good_resv(
                mres_views(scored@)[p],
                self.index.docs@,
                spec_normalize(name@),
                qc,
                qd,
            ) by {
                assert(mres_views(scored@)[p] == mres_view(scored@[p]));
                assert(good_hit(
                    cands@[p],
                    self.index.docs@,
                    long_toks(
                        spec_tokens(folded(name@)),
                        spec_tokens(folded(name@)).len() as int,
                    ),
                    true,
                ));
                let j = choose|j: int|
                    0 <= j < self.index.docs@.len() && hit_view(cands@[p]) == hit_of_doc(
                        #[trigger] doc_views(self.index.docs@)[j],
                    ) && spec_doc_match(
                        doc_views(self.index.docs@)[j],
                        long_toks(
                            spec_tokens(folded(name@)),
                            spec_tokens(folded(name@)).len() as int,
                        ),
                        true,
                    );
                assert(mres_views(scored@)[p] == spec_score_result(
                    hit_of_doc(doc_views(self.index.docs@)[j]),
                    spec_normalize(name@),
                    qc,
                    qd,
                ));
            }
        }
        let sorted = sort_results(scored);
        proof {
            // The candidate ids were pairwise distinct; scoring kept them,
            // and sorting permutes, so the ranked ids stay distinct.
            assert forall|p: int, q: int|
                0 <= p < q < scored@.len() implies (#[trigger] scored@[p]).subject_id@ != (
            #[trigger] scored@[q]).subject_id@ by {
                assert(scored@[p].subject_id@ == cands@[p].subject_id@);
                assert(scored@[q].subject_id@ == cands@[q].subject_id@);
            }
            assert forall|p: int, q: int|
                0 <= p < q < mres_views(scored@).len() implies mres_views(scored@)[p]
                != mres_views(scored@)[q] by {
                assert(mres_views(scored@)[p] == mres_view(scored@[p]));
                assert(mres_views(scored@)[q] == mres_view(scored@[q]));
                assert(scored@[p].subject_id@ != scored@[q].subject_id@);
            }
            assert(mres_views(scored@).no_duplicates());
            mres_views(scored@).lemma_multiset_has_no_duplicates();
            mres_views(sorted@).lemma_multiset_has_no_duplicates_conv();
            assert forall|p: int, q: int|
                0 <= p < q < sorted@.len() implies (#[trigger] sorted@[p]).subject_id@ != (
            #[trigger] sorted@[q]).subject_id@ by {
                assert(mres_views(sorted@)[p] == mres_view(sorted@[p]));
                assert(mres_views(sorted@)[q] == mres_view(sorted@[q]));
                if sorted@[p].subject_id@ == sorted@[q].subject_id@ {
                    assert(mres_views(sorted@)[p] != mres_views(sorted@)[q]);
                    assert(mres_views(sorted@).to_multiset().contains(mres_views(sorted@)[p]));
                    assert(mres_views(scored@).to_multiset().contains(mres_views(sorted@)[p]));
                    assert(mres_views(scored@).contains(mres_views(sorted@)[p]));
                    assert(mres_views(sorted@).to_multiset().contains(mres_views(sorted@)[q]));
                    assert(mres_views(scored@).to_multiset().contains(mres_views(sorted@)[q]));
                    assert(mres_views(scored@).contains(mres_views(sorted@)[q]));
                    let w1 = choose|w: int|
                        0 <= w < mres_views(scored@).len() && mres_views(scored@)[w] == mres_views(
                            sorted@,
                        )[p];
                    let w2 = choose|w: int|
                        0 <= w < mres_views(scored@).len() && mres_views(scored@)[w] == mres_views(
                            sorted@,
                        )[q];
                    assert(scored@[w1].subject_id@ == sorted@[p].subject_id@);
                    assert(scored@[w2].subject_id@ == sorted@[q].subject_id@);
                    assert(w1 == w2);
                }
            }
        }
        proof {
            assert forall|p: int| 0 <= p < sorted@.len() implies #[trigger] good_resv(
                mres_views(sorted@)[p],
                self.index.docs@,
                spec_normalize(name@),
                qc,
                qd,
            ) by {
                assert(mres_views(sorted@)[p] == mres_view(sorted@[p]));
                assert(mres_views(sorted@).to_multiset().contains(mres_views(sorted@)[p]));
                assert(mres_views(scored@).to_multiset().contains(mres_views(sorted@)[p]));
                assert(mres_views(scored@).contains(mres_views(sorted@)[p]));
                let w = choose|w: int|
                    0 <= w < mres_views(scored@).len() && mres_views(scored@)[w] == mres_views(
                        sorted@,
                    )[p];
                assert(good_resv(
                    mres_views(scored@)[w],
                    self.index.docs@,
                    spec_normalize(name@),
                    qc,
                    qd,
                ));
            }
        }
        let mut out: Vec<MatchResult> = Vec::new();
        let mut k: usize = 0;
        while k < sorted.len() && k < max_results
            invariant
                k <= sorted@.len(),
                k <= max_results,
                out@ =~= sorted@.take(k as int),
            decreases sorted@.len() - k,
        {
            out.push(clone_result(&sorted[k]));
            proof {
                assert(out@ =~= sorted@.take(k + 1));
            }
            k = k + 1;
        }
        proof {
            assert forall|p: int| 0 <= p < out@.len() implies #[trigger] good_resv(
                mres_views(out@)[p],
                self.index.docs@,
                spec_normalize(name@),
                qc,
                qd,
            ) by {
                assert(out@[p] == sorted@[p]);
                assert(mres_views(out@)[p] == mres_view(out@[p]));
                assert(mres_views(sorted@)[p] == mres_view(sorted@[p]));
            }
            assert forall|p: int, q: int|
                0 <= p < q < out@.len() implies (#[trigger] out@[p]).score >= (
            #[trigger] out@[q]).score by {
                assert(out@[p] == sorted@[p] && out@[q] == sorted@[q]);
            }
            assert forall|p: int, q: int|
                0 <= p < q < out@.len() implies (#[trigger] out@[p]).subject_id@ != (
            #[trigger] out@[q]).subject_id@ by {
                assert(out@[p] == sorted@[p] && out@[q] == sorted@[q]);
            }
            if out@.len() < max_results {
                // No truncation happened, so the candidate set was already
                // below the fanout cap and every matching document made it
                // through scoring and sorting.
                assert(out@.len() == sorted@.len());
                assert(sorted@.len() == scored@.len());
                assert(scored@.len() == cands@.len());
                assert(cands@.len() < fanout);
                assert forall|j: int|
                    0 <= j < self.index.docs@.len() && #[trigger] spec_doc_match(
                        doc_views(self.index.docs@)[j],
                        long_toks(
                            spec_tokens(folded(name@)),
                            spec_tokens(folded(name@)).len() as int,
                        ),
                        true,
                    ) implies id_in_results(doc_views(self.index.docs@)[j].subject_id, out@) by {
                    let id = doc_views(self.index.docs@)[j].subject_id;
                    assert(id_represented(id, cands@));
                    let p = choose|p: int|
                        0 <= p < cands@.len() && (#[trigger] cands@[p]).subject_id@ == id;
                    assert(scored@[p].subject_id@ == id);
                    assert(mres_views(scored@)[p] == mres_view(scored@[p]));
                    assert(mres_views(scored@).to_multiset().contains(mres_views(scored@)[p]));
                    assert(mres_views(sorted@).to_multiset().contains(mres_views(scored@)[p]));
                    assert(mres_views(sorted@).contains(mres_views(scored@)[p]));
                    let w = choose|w: int|
                        0 <= w < mres_views(sorted@).len() && mres_views(sorted@)[w] == mres_views(
                            scored@,
                        )[p];
                    assert(mres_view(sorted@[w]) == mres_views(sorted@)[w]);
                    assert(sorted@[w].subject_id@ == id);
                    assert(out@[w] == sorted@[w]);
                }
            }
        }
        out
    }
}

/// A built-in fallback subject, used when no corpus has been ingested.
#[derive(Clone, Copy, Debug)]
pub struct StubSubject {
    pub subject_id: &'static str,
    pub name: &'static str,
    pub source: HitSource,
    pub kind: SubjectKind,
    pub country: Option<&'static str>,
    pub year_of_birth: Option<i32>,
}

/// One scored fallback match.
#[derive(Clone, Copy, Debug)]
pub struct StubMatchResult {
    pub subject: StubSubject,
    pub score: u32,
    pub components: ScoreComponents,
}

/// The built-in fallback roster.
pub fn stub_subjects() -> (r: Vec<StubSubject>)
    ensures
        r@.len() == 3,
        forall|i: int| 0 <= i < 3 ==> stub_roster_entry(#[trigger] r@[i]),
{
    let mut v: Vec<StubSubject> = Vec::new();
    v.push(StubSubject {
        subject_id: "eu_0001",
        name: "Maria Garcia",
        source: HitSource::EuConsolidated,
        kind: SubjectKind::Person,
        country: Option::Some("ES"),
        year_of_birth: Option::Some(1985),
    });
    v.push(StubSubject {
        subject_id: "ofac_0002",
        name: "John Doe",
        source: HitSource::Ofac,
        kind: SubjectKind::Person,
        country: Option::Some("US"),
        year_of_birth: Option::Some(1970),
    });
    v.push(StubSubject {
        subject_id: "pep_eu_0003",
        name: "Jean Dupont",
        source: HitSource::PepEu,
        kind: SubjectKind::Person,
        country: Option::Some("FR"),
        year_of_birth: Option::None,
    });
    v
}

/// One of the three built-in roster entries, all fields pinned.
pub open spec fn stub_roster_entry(s: StubSubject) -> bool {
    ||| (s.subject_id@ == "eu_0001"@ && s.name@ == "Maria Garcia"@ && s.source
        == HitSource::EuConsolidated && s.kind == SubjectKind::Person && (s.country matches
    Option::Some(c) && c@ == "ES"@) && s.year_of_birth == Option::Some(1985i32))
    ||| (s.subject_id@ == "ofac_0002"@ && s.name@ == "John Doe"@ && s.source == HitSource::Ofac
        && s.kind == SubjectKind::Person && (s.country matches Option::Some(c) && c@ == "US"@)
        && s.year_of_birth == Option::Some(1970i32))
    ||| (s.subject_id@ == "pep_eu_0003"@ && s.name@ == "Jean Dupont"@ && s.source
        == HitSource::PepEu && s.kind == SubjectKind::Person && (s.country matches Option::Some(c)
        && c@ == "FR"@) && s.year_of_birth is None)
}

/// A fallback result: it carries one of the roster entries, its components
/// are that entry's scores against the query under the fallback rules, and
/// its score is their name-heavy combination.
pub open spec fn stub_result_wf(
    x: StubMatchResult,
    input_norm: Seq<char>,
    qc: Option<Seq<char>>,
    qd: Option<int>,
) -> bool {
    &&& stub_roster_entry(x.subject)
    &&& x.components.name_similarity as int == spec_jaro_winkler(
        input_norm,
        spec_normalize(x.subject.name@),
    )
    &&& x.components.country_match as int == spec_country_match(
        qc,
        match x.subject.country {
            Option::Some(c) => Option::Some(c@),
            Option::None => Option::None,
        },
    )
    &&& x.components.dob_similarity as int == (match (qd, x.subject.year_of_birth) {
        (Option::Some(qy), Option::Some(sy)) => if qy == sy as int {
            10000int
        } else if qy - sy as int == 1 || sy as int - qy == 1 {
            5000int
        } else {
            0int
        },
        _ => 0int,
    })
    &&& x.score as int == (75 * (x.components.name_similarity as int) + 15 * (
    x.components.country_match as int) + 10 * (x.components.dob_similarity as int)) / 100
    &&& x.score <= 10000
    &&& x.components.name_similarity <= 10000
    &&& x.components.dob_similarity <= 10000
    &&& x.components.country_match <= 10000
}

/// The fallback score: whole-string similarity only, a tighter year
/// window, and a name-heavier weighting without caps.
pub open spec fn spec_stub_score(
    subject_name_norm: Seq<char>,
    subject_country: Option<Seq<char>>,
    subject_year: Option<int>,
    input_norm: Seq<char>,
    qc: Option<Seq<char>>,
    qd: Option<int>,
) -> (int, int, int, int) {
    let name = spec_jaro_winkler(input_norm, subject_name_norm);
    let cm = spec_country_match(qc, subject_country);
    let ds: int = match (qd, subject_year) {
        (Option::Some(qy), Option::Some(sy)) => if qy == sy {
            10000int
        } else if qy - sy == 1 || sy - qy == 1 {
            5000int
        } else {
            0int
        },
        _ => 0int,
    };
    ((75 * name + 15 * cm + 10 * ds) / 100, name, ds, cm)
}

/// Scores the query against the built-in fallback roster, highest first:
/// one result per roster entry, truncated to the caller's limit.
pub fn score_against_stub(
    name: &str,
    country: Option<&String>,
    dob_year: Option<i32>,
    max_results: usize,
) -> (r: Vec<StubMatchResult>)
    ensures
        r@.len() == if max_results < 3 {
            max_results as int
        } else {
            3
        },
        forall|p: int, q: int|
            0 <= p < q < r@.len() ==> (#[trigger] r@[p]).score >= (#[trigger] r@[q]).score,
        forall|i: int|
            0 <= i < r@.len() ==> #[trigger] stub_result_wf(
                r@[i],
                spec_normalize(name@),
                opt_str_view(country),
                opt_year_view(dob_year),
            ),
{
    let ghost qc = opt_str_view(country);
    let ghost qd = opt_year_view(dob_year);
    let subjects = stub_subjects();
    let nq = normalize_name(name);
    let nqc = to_chars(nq.as_str());
    let mut scored: Vec<StubMatchResult> = Vec::new();
    let mut i: usize = 0;
    while i < subjects.len()
        invariant
            qc == opt_str_view(country),
            qd == opt_year_view(dob_year),
            nqc@ == spec_normalize(name@),
            subjects@.len() == 3,
            forall|k: int| 0 <= k < 3 ==> stub_roster_entry(#[trigger] subjects@[k]),
            i <= subjects@.len(),
            scored@.len() == i,
            forall|p: int|
                0 <= p < scored@.len() ==> #[trigger] stub_result_wf(scored@[p], nqc@, qc, qd),
        decreases subjects@.len() - i,
    {
        let subject = subjects[i];
        let ns = normalize_name(subject.name);
        let nsc = to_chars(ns.as_str());
        let name_sim = jaro_winkler(&nqc, &nsc);
        let cm: u32 = match (country, subject.country) {
            (Option::Some(qcs), Option::Some(sc)) => {
                if eq_ignore_ascii(qcs.as_str(), sc) {
                    10000
                } else {
                    0
                }
            },
            _ => 0,
        };
        let ds: u32 = match (dob_year, subject.year_of_birth) {
            (Option::Some(qy), Option::Some(sy)) => {
                if qy == sy {
                    10000
                } else {
                    let d: i64 = qy as i64 - sy as i64;
                    if d == 1 || d == -1 {
                        5000
                    } else {
                        0
                    }
                }
            },
            _ => 0,
        };
        let score: u32 = (75 * name_sim + 15 * cm + 10 * ds) / 100;
        let entry = StubMatchResult {
            subject,
            score,
            components: ScoreComponents {
                name_similarity: name_sim,
                dob_similarity: ds,
                country_match: cm,
            },
        };
        proof {
            assert(stub_result_wf(entry, nqc@, qc, qd));
        }
        scored.push(entry);
        i = i + 1;
    }
    // Sort by score, highest first.
    let mut acc: Vec<StubMatchResult> = Vec::new();
    let mut rest = scored;
    loop
        invariant
            qc == opt_str_view(country),
            qd == opt_year_view(dob_year),
            nqc@ == spec_normalize(name@),
            acc@.len() + rest@.len() == 3,
            forall|p: int, q: int|
                0 <= p < q < acc@.len() ==> (#[trigger] acc@[p]).score >= (#[trigger] acc@[q]).score,
            forall|p: int|
                0 <= p < acc@.len() ==> #[trigger] stub_result_wf(acc@[p], nqc@, qc, qd),
            forall|p: int|
                0 <= p < rest@.len() ==> #[trigger] stub_result_wf(rest@[p], nqc@, qc, qd),
        ensures
            rest@.len() == 0,
            acc@.len() == 3,
            forall|p: int, q: int|
                0 <= p < q < acc@.len() ==> (#[trigger] acc@[p]).score >= (#[trigger] acc@[q]).score,
            forall|p: int|
                0 <= p < acc@.len() ==> #[trigger] stub_result_wf(acc@[p], nqc@, qc, qd),
        decreases rest@.len(),
    {
        if rest.len() == 0 {
            break;
        }
        let ghost rest0 = rest@;
        let x = rest.pop().unwrap();
        proof {
            assert(rest@ =~= rest0.drop_last());
            assert(x == rest0[rest0.len() - 1]);
        }
        let mut p: usize = 0;
        loop
            invariant_except_break
                p <= acc@.len(),
                forall|q: int| 0 <= q < p ==> (#[trigger] acc@[q]).score >= x.score,
            ensures
                p <= acc@.len(),
                forall|q: int| 0 <= q < p ==> (#[trigger] acc@[q]).score >= x.score,
                p < acc@.len() ==> acc@[p as int].score < x.score,
            decreases acc@.len() - p,
        {
            if p >= acc.len() {
                break;
            }
            if acc[p].score < x.score {
                break;
            }
            p = p + 1;
        }
        let ghost acc0 = acc@;
        acc.insert(p, x);
        proof {
            assert forall|u: int, w: int|
                0 <= u < w < acc@.len() implies (#[trigger] acc@[u]).score >= (
            #[trigger] acc@[w]).score by {
                if w < p {
                    assert(acc@[u] == acc0[u] && acc@[w] == acc0[w]);
                } else if w == p {
                    assert(acc@[u] == acc0[u]);
                } else {
                    if u < p {
                        assert(acc@[u] == acc0[u] && acc@[w] == acc0[w - 1]);
                    } else if u == p {
                        assert(acc@[w] == acc0[w - 1]);
                        assert(acc0[p as int].score < x.score);
                        if w - 1 > p {
                            assert(acc0[p as int].score >= acc0[w - 1].score);
                        }
                    } else {
                        assert(acc@[u] == acc0[u - 1] && acc@[w] == acc0[w - 1]);
                    }
                }
            }
            assert forall|q: int| 0 <= q < acc@.len() implies #[trigger] stub_result_wf(
                acc@[q],
                nqc@,
                qc,
                qd,
            ) by {
                if q < p {
                    assert(acc@[q] == acc0[q]);
                } else if q > p {
                    assert(acc@[q] == acc0[q - 1]);
                } else {
                    assert(acc@[q] == x);
                }
            }
        }
    }
    let mut out: Vec<StubMatchResult> = Vec::new();
    let mut k: usize = 0;
    while k < acc.len() && k < max_results
        invariant
            qc == opt_str_view(country),
            qd == opt_year_view(dob_year),
            nqc@ == spec_normalize(name@),
            acc@.len() == 3,
            k <= acc@.len(),
            k <= max_results,
            out@ =~= acc@.take(k as int),
            forall|p: int, q: int|
                0 <= p < q < acc@.len() ==> (#[trigger] acc@[p]).score >= (#[trigger] acc@[q]).score,
            forall|p: int|
                0 <= p < acc@.len() ==> #[trigger] stub_result_wf(acc@[p], nqc@, qc, qd),
        decreases acc@.len() - k,
    {
        out.push(acc[k]);
        proof {
            assert(out@ =~= acc@.take(k + 1));
        }
        k = k + 1;
    }
    proof {
        assert forall|p: int| 0 <= p < out@.len() implies #[trigger] stub_result_wf(
            out@[p],
            nqc@,
            qc,
            qd,
        ) by {
            assert(out@[p] == acc@[p]);
        }
        assert forall|p: int, q: int|
            0 <= p < q < out@.len() implies (#[trigger] out@[p]).score >= (
        #[trigger] out@[q]).score by {
            assert(out@[p] == acc@[p] && out@[q] == acc@[q]);
        }
    }
    out
}

/// The name similarity always lies in the scaled unit interval.
pub proof fn lemma_name_similarity_range(input: Seq<char>, subject: Seq<char>)
    ensures
        0 <= spec_name_similarity(input, subject) <= 10000,
{
    crate::matching::lemma_parts_score_range(spec_tokens(input), spec_tokens(subject));
    crate::similarity::lemma_jaro_winkler_range(input, subject);
}

/// Every scored match carries components and a score inside the scaled
/// unit interval.
pub proof fn lemma_score_result_range(
    c: HitV,
    input_norm: Seq<char>,
    qc: Option<Seq<char>>,
    qd: Option<int>,
)
    ensures
        ({
            let v = spec_score_result(c, input_norm, qc, qd);
            0 <= v.score <= 10000 && 0 <= v.components.0 <= 10000 && 0 <= v.components.1 <= 10000
                && 0 <= v.components.2 <= 10000
        }),
{
    lemma_name_similarity_range(input_norm, spec_normalize(c.primary_name));
    let name = spec_name_similarity(input_norm, spec_normalize(c.primary_name));
    let cm = spec_country_match(qc, c.country);
    let ds = spec_dob_similarity(qd, c.dob_year);
    lemma_combined_score_range(name, cm, ds, qc is Some, qd is Some);
}

} // verus!
