//! Batch screening: a job envelope over many records, processed through
//! the same query path one record at a time.

use vstd::prelude::*;
use vstd::string::StringExecFns;
use crate::engine::MatchingEngine;
use crate::model::Hit;
use crate::screening::{perform_screening, hit_wf};
use crate::model::parse_dob_year;

verus! {

#[derive(Clone, Copy, Debug, PartialEq, Eq, Structural)]
pub enum BatchStatus {
    Processing,
    Completed,
    Failed,
}

#[derive(Clone, Copy, Debug, PartialEq, Eq, Structural)]
pub enum RecordType {
    Person,
    Entity,
}

/// One record to screen.
#[derive(Clone, Debug)]
pub struct BatchRecord {
    pub reference_id: Option<String>,
    pub name: String,
    pub country: Option<String>,
    pub date_of_birth: Option<String>,
    pub record_type: RecordType,
}

/// A batch request.
#[derive(Debug)]
pub struct BatchRequest {
    pub records: Vec<BatchRecord>,
}

/// The job envelope.
#[derive(Debug)]
pub struct BatchJob {
    pub id: String,
    pub status: BatchStatus,
    pub total_records: usize,
    pub processed_records: usize,
    pub created_at: String,
    pub results: Vec<BatchResult>,
}

/// The job envelope as returned to the caller.
#[derive(Debug)]
pub struct BatchResponse {
    pub job_id: String,
    pub status: BatchStatus,
    pub total_records: usize,
    pub processed_records: usize,
    pub created_at: String,
}

/// One record's hits.
#[derive(Debug)]
pub struct BatchResult {
    pub reference_id: Option<String>,
    pub name: String,
    pub hits: Vec<Hit>,
    pub checked_at: String,
}

impl BatchJob {
    /// A fresh job: processing, nothing done yet.
    pub fn new(id: String, total_records: usize, created_at: String) -> (r: BatchJob)
        ensures
            r.id@ == id@,
            r.status == BatchStatus::Processing,
            r.total_records == total_records,
            r.processed_records == 0,
            r.results@.len() == 0,
    {
        BatchJob {
            id,
            status: BatchStatus::Processing,
            total_records,
            processed_records: 0,
            created_at,
            results: Vec::new(),
        }
    }
}

/// The year a record's date reads as: its leading dash-separated field.
pub open spec fn record_year(rec: BatchRecord) -> Option<int> {
    match rec.date_of_birth {
        Option::Some(d) => match crate::model::spec_dob_year_of(d@) {
            Option::Some(y) => Option::Some(y as int),
            Option::None => Option::None,
        },
        Option::None => Option::None,
    }
}

/// Screens every record of a batch: one result per record, in order,
/// each carrying its record's reference and the stamp, its hits exactly
/// a screening of that record's name, country and year.
pub fn process_records(
    engine: Option<&MatchingEngine>,
    records: &Vec<BatchRecord>,
    checked_at: &str,
) -> (r: Vec<BatchResult>)
    ensures
        r@.len() == records@.len(),
        forall|i: int|
            0 <= i < r@.len() ==> (#[trigger] r@[i]).name@ == records@[i].name@,
        forall|i: int, j: int|
            0 <= i < r@.len() && 0 <= j < r@[i].hits@.len() ==> hit_wf(
                #[trigger] r@[i].hits@[j],
            ),
        forall|i: int|
            0 <= i < r@.len() ==> (#[trigger] r@[i]).checked_at@ == checked_at@
                && crate::monitoring::opt_string_view(r@[i].reference_id)
                == crate::monitoring::opt_string_view(records@[i].reference_id),
        forall|i: int|
            0 <= i < r@.len() ==> #[trigger] crate::screening::screening_hits(
                r@[i].hits@,
                crate::screening::engine_docs(engine),
                records@[i].name@,
                crate::monitoring::opt_string_view(records@[i].country),
                record_year(records@[i]),
            ),
    {
    let n: usize = records.len();
    let mut out: Vec<BatchResult> = Vec::new();
    let mut i: usize = 0;
    while i < n
        invariant
            n == records@.len(),
            i <= n,
            out@.len() == i,
            forall|p: int|
                0 <= p < out@.len() ==> (#[trigger] out@[p]).name@ == records@[p].name@,
            forall|p: int, j: int|
                0 <= p < out@.len() && 0 <= j < out@[p].hits@.len() ==> hit_wf(
                    #[trigger] out@[p].hits@[j],
                ),
            forall|p: int|
                0 <= p < out@.len() ==> (#[trigger] out@[p]).checked_at@ == checked_at@
                    && crate::monitoring::opt_string_view(out@[p].reference_id)
                    == crate::monitoring::opt_string_view(records@[p].reference_id),
            forall|p: int|
                0 <= p < out@.len() ==> #[trigger] crate::screening::screening_hits(
                    out@[p].hits@,
                    crate::screening::engine_docs(engine),
                    records@[p].name@,
                    crate::monitoring::opt_string_view(records@[p].country),
                    record_year(records@[p]),
                ),
        decreases n - i,
    {
        let rec = &records[i];
        // The leading dash-separated field of the date as a year.
        let dob_year: Option<i32> = match &rec.date_of_birth {
            Option::Some(d) => parse_dob_year(d.as_str()),
            Option::None => Option::None,
        };
        let country_ref: Option<&String> = match &rec.country {
            Option::Some(c) => Option::Some(c),
            Option::None => Option::None,
        };
        let hits = perform_screening(engine, rec.name.as_str(), country_ref, dob_year);
        proof {
            assert(crate::engine::opt_str_view(country_ref) == crate::monitoring::opt_string_view(
                records@[i as int].country,
            ));
            assert(crate::engine::opt_year_view(dob_year) == record_year(records@[i as int]));
        }
        out.push(
            BatchResult {
                reference_id: match &rec.reference_id {
                    Option::Some(s) => Option::Some(s.clone()),
                    Option::None => Option::None,
                },
                name: rec.name.clone(),
                hits,
                checked_at: String::from_str(checked_at),
            },
        );
        i = i + 1;
    }
    out
}

} // verus!
