//! Screening analytics over the stored corpus: how the subjects
//! distribute across their sources.

use vstd::prelude::*;
use crate::store::SubjectStore;
use crate::strutil::str_equals;

verus! {

/// How many stored subjects one source contributed.
#[derive(Clone, Debug)]
pub struct SourceDistribution {
    pub source: String,
    pub count: i64,
}

/// Counts the stored subjects per source: one row per distinct source,
/// and the counts sum to the subject count.
pub fn get_source_distribution(store: &SubjectStore) -> (r: Vec<SourceDistribution>)
    ensures
        r@.len() <= store.subjects@.len(),
{
    let n: usize = store.subjects.len();
    let mut out: Vec<SourceDistribution> = Vec::new();
    let mut i: usize = 0;
    while i < n
        invariant
            n == store.subjects@.len(),
            i <= n,
            out@.len() <= i,
        decreases n - i,
    {
        let src = &store.subjects[i].source;
        let mut found: bool = false;
        let mut k: usize = 0;
        let m: usize = out.len();
        while k < m && !found
            invariant
                m == out@.len(),
                k <= m,
            decreases m - k,
        {
            if str_equals(out[k].source.as_str(), src.as_str()) {
                if out[k].count < i64::MAX {
                    let bumped = SourceDistribution {
                        source: out[k].source.clone(),
                        count: out[k].count + 1,
                    };
                    out.set(k, bumped);
                }
                found = true;
            }
            k = k + 1;
        }
        if !found {
            out.push(SourceDistribution { source: src.clone(), count: 1 });
        }
        i = i + 1;
    }
    out
}

} // verus!
