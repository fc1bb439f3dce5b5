//! Core data model shared by the screening pipeline: risk levels, score
//! components, request and response shapes.
//!
//! All scores are fixed-point values in ten-thousandths: `10000` stands for a
//! similarity of one, `9500` for the hit threshold of ninety-five percent.

use vstd::prelude::*;
use vstd::string::StringExecFns;
use crate::strutil::{to_chars, chars_to_string, parse_u32_chars, spec_parse_u32, u32_to_string};
use crate::normalize::{spec_tokens, join_spaces};

verus! {

/// Scores and score components range over `0 ..= SCORE_SCALE`.
pub const SCORE_SCALE: u32 = 10000;

/// A score at or above this value is classified as a hit.
pub const HIT_THRESHOLD: u32 = 9500;

/// A score at or above this value (and below `HIT_THRESHOLD`) asks for review.
pub const REVIEW_THRESHOLD: u32 = 9000;

#[derive(Clone, Copy, Debug, PartialEq, Eq, Structural)]
pub enum RiskLevel {
    Hit,
    Review,
    Clear,
}

#[derive(Clone, Copy, Debug, PartialEq, Eq, Structural)]
pub enum SubjectKind {
    Person,
    Entity,
}

#[derive(Clone, Copy, Debug, PartialEq, Eq, Structural)]
pub enum HitSource {
    EuConsolidated,
    UnSc,
    Ofac,
    Uk,
    PepEu,
    Stub,
}

/// The risk band a score falls in: a total function of the score.
pub open spec fn spec_risk_level(score: int) -> RiskLevel {
    if score >= HIT_THRESHOLD {
        RiskLevel::Hit
    } else if score >= REVIEW_THRESHOLD {
        RiskLevel::Review
    } else {
        RiskLevel::Clear
    }
}

/// Bands a score: at least ninety-five percent is a hit, at least ninety
/// percent asks for review, anything below clears.
pub fn risk_level_of(score: u32) -> (r: RiskLevel)
    ensures
        r == spec_risk_level(score as int),
        r == RiskLevel::Hit <==> score >= HIT_THRESHOLD,
        r == RiskLevel::Review <==> REVIEW_THRESHOLD <= score < HIT_THRESHOLD,
        r == RiskLevel::Clear <==> score < REVIEW_THRESHOLD,
{
    if score >= HIT_THRESHOLD {
        RiskLevel::Hit
    } else if score >= REVIEW_THRESHOLD {
        RiskLevel::Review
    } else {
        RiskLevel::Clear
    }
}

/// The banding thresholds are strictly ordered, so the three bands are
/// disjoint and cover every score.
pub proof fn lemma_risk_bands_total()
    ensures
        HIT_THRESHOLD > REVIEW_THRESHOLD > 0,
        forall|s: int|
            #[trigger] spec_risk_level(s) == RiskLevel::Hit || spec_risk_level(s)
                == RiskLevel::Review || spec_risk_level(s) == RiskLevel::Clear,
{
}

#[derive(Clone, Copy, Debug, PartialEq, Eq, Structural)]
pub struct ScoreComponents {
    pub name_similarity: u32,
    pub dob_similarity: u32,
    pub country_match: u32,
}

/// All components lie in the unit interval (scaled).
pub open spec fn components_in_range(c: ScoreComponents) -> bool {
    c.name_similarity <= SCORE_SCALE && c.dob_similarity <= SCORE_SCALE && c.country_match
        <= SCORE_SCALE
}

#[derive(Debug)]
pub struct HealthStatus<'a> {
    pub status: &'a str,
    pub service: &'a str,
    pub version: &'a str,
}

pub const PROJECT_NAME: &'static str = "aegistry";

pub const PROJECT_VERSION: &'static str = "0.1.0";

pub fn health_status(service: &'static str) -> (r: HealthStatus<'static>)
    ensures
        r.status@ == "ok"@,
        r.service@ == service@,
        r.version@ == PROJECT_VERSION@,
{
    HealthStatus { status: "ok", service, version: PROJECT_VERSION }
}

#[derive(Debug)]
pub struct VersionResponse<'a> {
    pub service: &'a str,
    pub project: &'a str,
    pub version: &'a str,
}

/// Relies on `uuid::Uuid::new_v4` and its hyphenated `to_string` form: a
/// fresh random identifier, rendered as 36 characters.
#[verifier::external_body]
pub fn new_request_id() -> (r: String)
    ensures
        r@.len() == 36,
{
    uuid::Uuid::new_v4().to_string()
}

/// A person screening request.
#[derive(Debug)]
pub struct ScreenPersonRequest {
    pub reference_id: Option<String>,
    pub first_name: String,
    pub last_name: String,
    pub date_of_birth: Option<String>,
    pub country: Option<String>,
    pub nationality: Option<String>,
}

impl ScreenPersonRequest {
    /// The full name: first and last name joined, whitespace collapsed.
    pub fn full_name(&self) -> (r: String)
        ensures
            r@ == join_spaces(spec_tokens(self.first_name@ + seq![' '] + self.last_name@)),
    {
        let fc = to_chars(self.first_name.as_str());
        let mut joined: Vec<char> = Vec::new();
        let mut i: usize = 0;
        while i < fc.len()
            invariant
                fc@ == self.first_name@,
                i <= fc@.len(),
                joined@ == fc@.take(i as int),
            decreases fc@.len() - i,
        {
            joined.push(fc[i]);
            proof {
                assert(joined@ =~= fc@.take(i + 1));
            }
            i = i + 1;
        }
        joined.push(' ');
        let lc = to_chars(self.last_name.as_str());
        let mut j: usize = 0;
        proof {
            assert(fc@.take(fc@.len() as int) =~= fc@);
            assert(joined@ =~= self.first_name@ + seq![' '] + self.last_name@.take(0));
        }
        while j < lc.len()
            invariant
                lc@ == self.last_name@,
                j <= lc@.len(),
                joined@ == self.first_name@ + seq![' '] + self.last_name@.take(j as int),
            decreases lc@.len() - j,
        {
            joined.push(lc[j]);
            proof {
                assert(joined@ =~= self.first_name@ + seq![' '] + self.last_name@.take(j + 1));
            }
            j = j + 1;
        }
        proof {
            assert(self.last_name@.take(self.last_name@.len() as int) =~= self.last_name@);
        }
        let toks = crate::normalize::split_normalized(chars_to_string(&joined).as_str());
        // Join the tokens back with single spaces.
        let mut out: Vec<char> = Vec::new();
        let ghost ts = toks@.map_values(|t: String| t@);
        let mut k: usize = 0;
        while k < toks.len()
            invariant
                ts == toks@.map_values(|t: String| t@),
                k <= toks@.len(),
                out@ == join_spaces(ts.take(k as int)),
            decreases toks@.len() - k,
        {
            if k > 0 {
                out.push(' ');
            }
            let tc = to_chars(toks[k].as_str());
            let ghost base = out@;
            let mut q: usize = 0;
            while q < tc.len()
                invariant
                    tc@ == toks@[k as int]@,
                    q <= tc@.len(),
                    out@ == base + tc@.take(q as int),
                decreases tc@.len() - q,
            {
                out.push(tc[q]);
                proof {
                    assert(out@ =~= base + tc@.take(q + 1));
                }
                q = q + 1;
            }
            proof {
                assert(tc@.take(tc@.len() as int) =~= tc@);
                assert(ts[k as int] == toks@[k as int]@);
                crate::normalize::lemma_join_take_step(ts, k as int);
                assert(out@ =~= join_spaces(ts.take(k + 1)));
            }
            k = k + 1;
        }
        proof {
            assert(ts.take(toks@.len() as int) =~= ts);
        }
        chars_to_string(&out)
    }

    /// The year of birth: the digits before the first dash of the given
    /// date, when they parse to a number.
    pub fn dob_year(&self) -> (r: Option<i32>)
        ensures
            match self.date_of_birth {
                Option::Some(d) => r == spec_dob_year_of(d@),
                Option::None => r is None,
            },
    {
        match &self.date_of_birth {
            Option::Some(d) => parse_dob_year(d.as_str()),
            Option::None => Option::None,
        }
    }

    /// Validates the request: nonempty names, two-letter country and
    /// nationality codes when given.  Returns the offending field names.
    pub fn validate(&self) -> (r: Result<(), Vec<String>>)
        ensures
            r is Ok <==> self.first_name@.len() >= 1 && self.last_name@.len() >= 1 && (match self.country {
                Option::Some(c) => c@.len() == 2,
                Option::None => true,
            }) && (match self.nationality {
                Option::Some(c) => c@.len() == 2,
                Option::None => true,
            }),
    {
        let mut bad: Vec<String> = Vec::new();
        if self.first_name.as_str().unicode_len() < 1 {
            bad.push(String::from_str("first_name"));
        }
        if self.last_name.as_str().unicode_len() < 1 {
            bad.push(String::from_str("last_name"));
        }
        match &self.country {
            Option::Some(c) => {
                if c.as_str().unicode_len() != 2 {
                    bad.push(String::from_str("country"));
                }
            },
            Option::None => {},
        }
        match &self.nationality {
            Option::Some(c) => {
                if c.as_str().unicode_len() != 2 {
                    bad.push(String::from_str("nationality"));
                }
            },
            Option::None => {},
        }
        if bad.len() == 0 {
            Result::Ok(())
        } else {
            Result::Err(bad)
        }
    }
}

/// Length of the prefix before the first dash.
pub open spec fn dash_len(s: Seq<char>) -> nat
    decreases s.len(),
{
    if s.len() == 0 || s[0] == '-' {
        0
    } else {
        1 + dash_len(s.drop_first())
    }
}

proof fn lemma_dash_len_exact(s: Seq<char>, k: nat)
    requires
        k <= s.len(),
        forall|m: int| 0 <= m < k ==> s[m] != '-',
        k < s.len() ==> s[k as int] == '-',
    ensures
        dash_len(s) == k,
    decreases k,
{
    if k == 0 {
    } else {
        assert(s[0] != '-');
        lemma_dash_len_exact(s.drop_first(), (k - 1) as nat);
    }
}

/// The year a date's leading dash-separated field reads as, when it
/// parses and fits.
pub open spec fn spec_dob_year_of(d: Seq<char>) -> Option<i32> {
    match spec_parse_u32(d, 0, dash_len(d) as int) {
        Option::Some(y) => if y <= 0x7FFF_FFFF {
            Option::Some(y as i32)
        } else {
            Option::None
        },
        Option::None => Option::None,
    }
}

/// Reads the year out of a date's leading dash-separated field.
pub fn parse_dob_year(d: &str) -> (r: Option<i32>)
    ensures
        r == spec_dob_year_of(d@),
{
    let v = to_chars(d);
    let n: usize = v.len();
    let mut end: usize = 0;
    while end < n && v[end] != '-'
        invariant
            v@ == d@,
            n == v@.len(),
            end <= n,
            forall|m: int| 0 <= m < end ==> v@[m] != '-',
        decreases n - end,
    {
        end = end + 1;
    }
    proof {
        lemma_dash_len_exact(v@, end as nat);
    }
    match parse_u32_chars(&v, 0, end) {
        Option::Some(y) => {
            if y <= 0x7FFF_FFFF {
                Option::Some(y as i32)
            } else {
                Option::None
            }
        },
        Option::None => Option::None,
    }
}

/// An entity screening request.
#[derive(Debug)]
pub struct ScreenEntityRequest {
    pub reference_id: Option<String>,
    pub name: String,
    pub country: Option<String>,
}

impl ScreenEntityRequest {
    /// Validates the request: a nonempty name and a two-letter country
    /// code when given.
    pub fn validate(&self) -> (r: Result<(), Vec<String>>)
        ensures
            r is Ok <==> self.name@.len() >= 1 && (match self.country {
                Option::Some(c) => c@.len() == 2,
                Option::None => true,
            }),
    {
        let mut bad: Vec<String> = Vec::new();
        if self.name.as_str().unicode_len() < 1 {
            bad.push(String::from_str("name"));
        }
        match &self.country {
            Option::Some(c) => {
                if c.as_str().unicode_len() != 2 {
                    bad.push(String::from_str("country"));
                }
            },
            Option::None => {},
        }
        if bad.len() == 0 {
            Result::Ok(())
        } else {
            Result::Err(bad)
        }
    }
}

/// One hit returned to the caller.
#[derive(Clone, Debug)]
pub struct Hit {
    pub subject_id: String,
    pub matched_name: String,
    pub source: HitSource,
    pub kind: SubjectKind,
    pub score: u32,
    pub risk_level: RiskLevel,
    pub components: ScoreComponents,
    pub explanation: Vec<String>,
}

/// A screening response.
#[derive(Debug)]
pub struct ScreenPersonResponse {
    pub request_id: String,
    pub reference_id: Option<String>,
    pub hits: Vec<Hit>,
    pub checked_at: String,
}

/// An entity screening response.
#[derive(Debug)]
pub struct ScreenEntityResponse {
    pub request_id: String,
    pub reference_id: Option<String>,
    pub hits: Vec<Hit>,
    pub checked_at: String,
}

/// A caller-visible error with its offending fields.
#[derive(Debug)]
pub struct ApiError {
    pub message: String,
    pub details: Vec<String>,
}

impl ApiError {
    /// Wraps the field names a validation pass rejected.
    pub fn from_validation(fields: Vec<String>) -> (r: ApiError)
        ensures
            r.details@ == fields@,
    {
        ApiError { message: String::from_str("invalid_request"), details: fields }
    }
}

/// Service configuration.
#[derive(Clone, Debug)]
pub struct AppConfig {
    pub bind_addr: String,
    pub run_env: String,
    pub data_dir: String,
}

/// A monitoring subscription request.
#[derive(Debug)]
pub struct AddMonitoringRequest {
    pub reference_id: String,
    pub name: String,
    pub country: Option<String>,
    pub dob_year: Option<i32>,
    pub callback_url: Option<String>,
}

/// One listed subscription.
#[derive(Debug)]
pub struct MonitoringEntry {
    pub reference_id: String,
    pub name: String,
    pub country: Option<String>,
    pub dob_year: Option<i32>,
    pub last_screened_at: String,
    pub callback_url: Option<String>,
}

impl ScoreComponents {
    /// A human-readable account of the component scores: a name phrase
    /// by bucket (very close at 95%, similar at 80%, partial below, the
    /// rounded percentage in parentheses), then a country phrase when the
    /// countries matched, then a year phrase when the years contributed.
    pub fn explain(&self, matched_name: &str, country: Option<&String>) -> (r: Vec<String>)
        requires
            components_in_range(*self),
        ensures
            r@.len() == 1 + (if self.country_match > 0 && country is Some {
                1int
            } else {
                0int
            }) + (if self.dob_similarity >= 5000 {
                1int
            } else {
                0int
            }),
            ({
                let head = "Name '"@ + matched_name@ + (if self.name_similarity >= 9500 {
                    "' is a very close match ("@
                } else if self.name_similarity >= 8000 {
                    "' is similar ("@
                } else {
                    "' partially matches ("@
                });
                r@[0]@.len() > head.len() + 2 && r@[0]@.subrange(0, head.len() as int) == head
                    && r@[0]@.subrange(r@[0]@.len() - 2, r@[0]@.len() as int) == "%)"@
            }),
            (match country {
                Option::Some(c) => self.country_match > 0 ==> r@[1]@ == "Country '"@ + c@
                    + "' matches"@,
                Option::None => true,
            }),
            self.dob_similarity >= 10000 ==> r@[r@.len() - 1]@
                == "Date of birth matches exactly"@,
            (5000 <= self.dob_similarity < 10000) ==> r@[r@.len() - 1]@
                == "Year of birth is close"@,
    {
        let mut out: Vec<String> = Vec::new();
        let pct = u32_to_string((self.name_similarity + 50) / 100);
        let mut line = String::new();
        if self.name_similarity >= 9500 {
            line.append("Name '");
            line.append(matched_name);
            line.append("' is a very close match (");
            line.append(pct.as_str());
            line.append("%)");
        } else if self.name_similarity >= 8000 {
            line.append("Name '");
            line.append(matched_name);
            line.append("' is similar (");
            line.append(pct.as_str());
            line.append("%)");
        } else {
            line.append("Name '");
            line.append(matched_name);
            line.append("' partially matches (");
            line.append(pct.as_str());
            line.append("%)");
        }
        proof {
            reveal_strlit("%)");
            let head = "Name '"@ + matched_name@ + (if self.name_similarity >= 9500 {
                "' is a very close match ("@
            } else if self.name_similarity >= 8000 {
                "' is similar ("@
            } else {
                "' partially matches ("@
            });
            assert(line@ =~= head + pct@ + "%)"@);
            assert(line@.subrange(0, head.len() as int) =~= head);
            assert(line@.subrange(line@.len() - 2, line@.len() as int) =~= "%)"@);
        }
        out.push(line);
        if self.country_match > 0 {
            match country {
                Option::Some(c) => {
                    let mut cl = String::new();
                    cl.append("Country '");
                    cl.append(c.as_str());
                    cl.append("' matches");
                    out.push(cl);
                },
                Option::None => {},
            }
        }
        if self.dob_similarity >= 10000 {
            out.push(String::from_str("Date of birth matches exactly"));
        } else if self.dob_similarity >= 5000 {
            out.push(String::from_str("Year of birth is close"));
        }
        out
    }
}

} // verus!
