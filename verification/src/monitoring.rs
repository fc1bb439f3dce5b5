//! Continuous monitoring: stored subscriptions, screening result history
//! with change detection, and the stable result fingerprint.

use vstd::prelude::*;
use vstd::wrapping::u64_specs;
use crate::strutil::{chars_to_string, to_chars, str_equals};
use vstd::string::StringExecFns;

verus! {

/// The hash seed and multiplier of the 64-bit FNV-1a digest.
pub const FNV_OFFSET: u64 = 0xcbf2_9ce4_8422_2325;

pub const FNV_PRIME: u64 = 0x100_0000_01b3;

/// One step of the digest: mix one value in.
pub open spec fn fnv_step(h: u64, v: u64) -> u64 {
    u64_specs::wrapping_mul(h ^ v, FNV_PRIME)
}

/// Mixes in the characters of a sequence, then a terminator.
pub open spec fn fnv_chars(h: u64, s: Seq<char>, i: int) -> u64
    decreases i,
    when 0 <= i <= s.len()
{
    if i <= 0 {
        h
    } else {
        fnv_step(fnv_chars(h, s, i - 1), s[i - 1] as u64)
    }
}

/// Mixes in one hit: its subject id, a separator, and its score quantized
/// to two decimals.
pub open spec fn fnv_pair(h: u64, id: Seq<char>, qscore: int) -> u64 {
    fnv_step(fnv_step(fnv_chars(h, id, id.len() as int), 0xFFFF_FFFF), qscore as u64)
}

/// The digest of the first `i` hits.
pub open spec fn fnv_pairs(pairs: Seq<(Seq<char>, int)>, i: int) -> u64
    decreases i,
    when 0 <= i <= pairs.len()
{
    if i <= 0 {
        FNV_OFFSET
    } else {
        fnv_pair(fnv_pairs(pairs, i - 1), pairs[i - 1].0, pairs[i - 1].1)
    }
}

/// One hexadecimal digit.
pub open spec fn hex_digit(d: u64) -> char {
    if d == 0 {
        '0'
    } else if d == 1 {
        '1'
    } else if d == 2 {
        '2'
    } else if d == 3 {
        '3'
    } else if d == 4 {
        '4'
    } else if d == 5 {
        '5'
    } else if d == 6 {
        '6'
    } else if d == 7 {
        '7'
    } else if d == 8 {
        '8'
    } else if d == 9 {
        '9'
    } else if d == 10 {
        'a'
    } else if d == 11 {
        'b'
    } else if d == 12 {
        'c'
    } else if d == 13 {
        'd'
    } else if d == 14 {
        'e'
    } else {
        'f'
    }
}

/// The sixteen-digit hexadecimal rendering, most significant first.
pub open spec fn hex64(h: u64) -> Seq<char> {
    Seq::new(16, |i: int| hex_digit((h >> ((15 - i) * 4) as u64) & 0xF))
}

/// A string option as a character-sequence option.
pub open spec fn opt_string_view(c: Option<String>) -> Option<Seq<char>> {
    match c {
        Option::Some(s) => Option::Some(s@),
        Option::None => Option::None,
    }
}

/// The quantized pair views of a hit list: subject id characters and the
/// score in hundredths.
pub open spec fn pair_views(hits: Seq<(String, u32)>) -> Seq<(Seq<char>, int)> {
    Seq::new(hits.len(), |i: int| (hits[i].0@, hits[i].1 as int / 100))
}

/// The result fingerprint of a hit list.
pub open spec fn spec_result_hash(pairs: Seq<(Seq<char>, int)>) -> Seq<char> {
    hex64(fnv_pairs(pairs, pairs.len() as int))
}

/// Renders a digest as sixteen hexadecimal digits.
pub fn hex64_string(h: u64) -> (r: String)
    ensures
        r@ == hex64(h),
        r@.len() == 16,
{
    let mut out: Vec<char> = Vec::new();
    let mut i: usize = 0;
    while i < 16
        invariant
            i <= 16,
            out@.len() == i,
            forall|q: int| 0 <= q < i ==> out@[q] == hex64(h)[q],
        decreases 16 - i,
    {
        let shift: u64 = ((15 - i) * 4) as u64;
        let d: u64 = (h >> shift) & 0xF;
        let c: char = if d == 0 {
            '0'
        } else if d == 1 {
            '1'
        } else if d == 2 {
            '2'
        } else if d == 3 {
            '3'
        } else if d == 4 {
            '4'
        } else if d == 5 {
            '5'
        } else if d == 6 {
            '6'
        } else if d == 7 {
            '7'
        } else if d == 8 {
            '8'
        } else if d == 9 {
            '9'
        } else if d == 10 {
            'a'
        } else if d == 11 {
            'b'
        } else if d == 12 {
            'c'
        } else if d == 13 {
            'd'
        } else if d == 14 {
            'e'
        } else {
            'f'
        };
        out.push(c);
        proof {
            assert(c == hex_digit(d));
            assert(hex64(h)[i as int] == hex_digit((h >> ((15 - i as int) * 4) as u64) & 0xF));
        }
        i = i + 1;
    }
    proof {
        assert(out@ =~= hex64(h));
    }
    chars_to_string(&out)
}

/// Computes the result fingerprint of a hit list: a digest over the
/// subject ids and the scores quantized to two decimals, so the
/// fingerprint is stable across refreshes that leave the hits unchanged.
pub fn compute_result_hash(hits: &Vec<(String, u32)>) -> (r: String)
    ensures
        r@ == spec_result_hash(pair_views(hits@)),
{
    let ghost pv = pair_views(hits@);
    let n: usize = hits.len();
    let mut h: u64 = FNV_OFFSET;
    let mut i: usize = 0;
    proof {
        assert(pv.len() == hits@.len());
    }
    while i < n
        invariant
            pv == pair_views(hits@),
            pv.len() == n,
            n == hits@.len(),
            i <= n,
            h == fnv_pairs(pv, i as int),
        decreases n - i,
    {
        let id: &String = &hits[i].0;
        let idc = crate::strutil::to_chars(id.as_str());
        let m: usize = idc.len();
        let mut j: usize = 0;
        proof {
            assert(pv[i as int] == (hits@[i as int].0@, hits@[i as int].1 as int / 100));
        }
        let ghost hin = h;
        while j < m
            invariant
                idc@ == hits@[i as int].0@,
                i < n,
                n == hits@.len(),
                m == idc@.len(),
                j <= m,
                h == fnv_chars(hin, idc@, j as int),
            decreases m - j,
        {
            let c = idc[j];
            h = (h ^ (c as u64)).wrapping_mul(FNV_PRIME);
            j = j + 1;
        }
        h = (h ^ 0xFFFF_FFFF).wrapping_mul(FNV_PRIME);
        let q: u32 = hits[i].1 / 100;
        h = (h ^ q as u64).wrapping_mul(FNV_PRIME);
        proof {
            assert(h == fnv_pair(hin, pv[i as int].0, pv[i as int].1));
        }
        i = i + 1;
    }
    hex64_string(h)
}

/// Equal hit lists — the same subject ids with the same scores once
/// quantized to two decimals — always fingerprint identically, whatever
/// process computes them.
pub proof fn lemma_result_hash_stable(a: Seq<(Seq<char>, int)>, b: Seq<(Seq<char>, int)>)
    requires
        a == b,
    ensures
        spec_result_hash(a) == spec_result_hash(b),
{
}

/// The stored rows with any subscription under the given key dropped.
pub open spec fn remove_key(
    rows: Seq<MonitoredSubject>,
    tenant: Seq<char>,
    reference: Seq<char>,
    i: int,
) -> Seq<MonitoredSubject>
    decreases i,
    when 0 <= i <= rows.len()
{
    if i <= 0 {
        Seq::empty()
    } else {
        let prev = remove_key(rows, tenant, reference, i - 1);
        if rows[i - 1].tenant_id@ == tenant && rows[i - 1].reference_id@ == reference {
            prev
        } else {
            prev.push(rows[i - 1])
        }
    }
}

/// A returned row is one of the stored subscriptions, and active.
pub open spec fn is_active_row(x: MonitoredSubject, subjects: Seq<MonitoredSubject>) -> bool {
    exists|j: int| 0 <= j < subjects.len() && x == #[trigger] subjects[j] && subjects[j].active
}

/// Some stored subscription carries this identifier and a callback
/// address.
pub open spec fn has_callback_sub(subjects: Seq<MonitoredSubject>, id: i64) -> bool {
    exists|j: int|
        0 <= j < subjects.len() && (#[trigger] subjects[j]).id == id && subjects[j].callback_url is Some
}

/// A result row that owes a callback.
pub open spec fn row_pending(row: MonitoringResultRow, subjects: Seq<MonitoredSubject>) -> bool {
    row.has_changes && !row.notified && has_callback_sub(subjects, row.subject_id)
}

/// One returned pending tuple: its index names a changed, un-notified
/// row, its subscription is the stored one owning that row, and its
/// result copies that row's fields.
pub open spec fn pending_tuple_ok(
    t: (MonitoredSubject, MonitoringResult, usize),
    subjects: Seq<MonitoredSubject>,
    results: Seq<MonitoringResultRow>,
) -> bool {
    &&& (t.2 as int) < results.len()
    &&& results[t.2 as int].has_changes
    &&& !results[t.2 as int].notified
    &&& (exists|j: int|
        0 <= j < subjects.len() && t.0 == #[trigger] subjects[j] && subjects[j].id == results[
            t.2 as int].subject_id && subjects[j].callback_url is Some)
    &&& t.1.subject_id == results[t.2 as int].subject_id
    &&& t.1.has_changes == results[t.2 as int].has_changes
    &&& t.1.new_result_hash@ == results[t.2 as int].result_hash@
    &&& t.1.hit_count == results[t.2 as int].hit_count
    &&& t.1.highest_score == results[t.2 as int].highest_score
}

/// Subject that is re-screened whenever the corpus refreshes.
#[derive(Clone, Debug)]
pub struct MonitoredSubject {
    pub id: i64,
    pub tenant_id: String,
    pub reference_id: String,
    pub name: String,
    pub country: Option<String>,
    pub dob_year: Option<i32>,
    pub last_screened_at: String,
    pub last_result_hash: Option<String>,
    pub callback_url: Option<String>,
    pub active: bool,
}

/// Result of one monitoring check.
#[derive(Clone, Debug)]
pub struct MonitoringResult {
    pub subject_id: i64,
    pub reference_id: String,
    pub has_changes: bool,
    pub new_result_hash: String,
    pub hit_count: usize,
    pub highest_score: u32,
}

/// One stored result row.
#[derive(Clone, Debug)]
pub struct MonitoringResultRow {
    pub subject_id: i64,
    pub screened_at: String,
    pub result_hash: String,
    pub hit_count: usize,
    pub highest_score: u32,
    pub has_changes: bool,
    pub notified: bool,
}

/// The monitoring store: subscriptions and their result history.  The
/// result history only ever grows.
pub struct MonitoringStore {
    pub subjects: Vec<MonitoredSubject>,
    pub results: Vec<MonitoringResultRow>,
    pub next_id: i64,
}

impl MonitoringStore {
    /// An empty monitoring store.
    pub fn new() -> (r: MonitoringStore)
        ensures
            r.subjects@ == Seq::<MonitoredSubject>::empty(),
            r.results@ == Seq::<MonitoringResultRow>::empty(),
            r.next_id == 1,
    {
        MonitoringStore { subjects: Vec::new(), results: Vec::new(), next_id: 1 }
    }

    /// Adds or replaces a subscription under its tenant and reference key
    /// and returns its fresh identifier.  The result history stays.
    pub fn add_monitored_subject(
        &mut self,
        tenant_id: &str,
        reference_id: &str,
        name: &str,
        country: Option<&String>,
        dob_year: Option<i32>,
        callback_url: Option<&String>,
        now: &str,
    ) -> (id: i64)
        requires
            old(self).next_id < i64::MAX,
        ensures
            final (self).results@ == old(self).results@,
            final (self).next_id == old(self).next_id + 1,
            id == old(self).next_id,
            final (self).subjects@.len() >= 1,
            ({
                let added = final (self).subjects@.last();
                added.id == id && added.tenant_id@ == tenant_id@ && added.reference_id@
                    == reference_id@ && added.name@ == name@ && added.active
                    && added.last_result_hash is None && added.dob_year == dob_year
                    && opt_string_view(added.country) == (match country {
                    Option::Some(c) => Option::Some(c@),
                    Option::None => Option::None,
                }) && opt_string_view(added.callback_url) == (match callback_url {
                    Option::Some(u) => Option::Some(u@),
                    Option::None => Option::None,
                }) && added.last_screened_at@ == now@
            }),
            forall|i: int|
                0 <= i < final (self).subjects@.len() - 1 ==> !((#[trigger] final (self).subjects@[i]).tenant_id@ == tenant_id@ && final (self).subjects@[i].reference_id@
                    == reference_id@),
            final (self).subjects@ == remove_key(
                old(self).subjects@,
                tenant_id@,
                reference_id@,
                old(self).subjects@.len() as int,
            ).push(final (self).subjects@.last()),
    {
        // Drop any prior subscription under the same key.
        let mut kept: Vec<MonitoredSubject> = Vec::new();
        let n: usize = self.subjects.len();
        let mut i: usize = 0;
        proof {
            assert(kept@ =~= remove_key(self.subjects@, tenant_id@, reference_id@, 0));
        }
        while i < n
            invariant
                n == self.subjects@.len(),
                i <= n,
                kept@ == remove_key(self.subjects@, tenant_id@, reference_id@, i as int),
                forall|q: int|
                    0 <= q < kept@.len() ==> !((#[trigger] kept@[q]).tenant_id@ == tenant_id@
                        && kept@[q].reference_id@ == reference_id@),
            decreases n - i,
        {
            let s = &self.subjects[i];
            let same = str_equals(s.tenant_id.as_str(), tenant_id) && str_equals(s.reference_id.as_str(), reference_id);
            if !same {
                let c = clone_subject(s);
                proof {
                    assert(c == self.subjects@[i as int]);
                }
                kept.push(c);
            }
            i = i + 1;
        }
        let id = self.next_id;
        self.next_id = self.next_id + 1;
        kept.push(
            MonitoredSubject {
                id,
                tenant_id: String::from_str(tenant_id),
                reference_id: String::from_str(reference_id),
                name: String::from_str(name),
                country: clone_opt_ref(country),
                dob_year,
                last_screened_at: String::from_str(now),
                last_result_hash: Option::None,
                callback_url: clone_opt_ref(callback_url),
                active: true,
            },
        );
        self.subjects = kept;
        id
    }

    /// Soft-deletes the subscriptions under a key by clearing their
    /// active flag; reports whether any row was touched.
    pub fn remove_monitored_subject(&mut self, tenant_id: &str, reference_id: &str) -> (r: bool)
        ensures
            final (self).results@ == old(self).results@,
            final (self).next_id == old(self).next_id,
            final (self).subjects@.len() == old(self).subjects@.len(),
            r == exists|j: int|
                0 <= j < old(self).subjects@.len() && (#[trigger] old(self).subjects@[j]).tenant_id@
                    == tenant_id@ && old(self).subjects@[j].reference_id@ == reference_id@,
            forall|i: int|
                0 <= i < old(self).subjects@.len() ==> #[trigger] final (self).subjects@[i] == (
                if old(self).subjects@[i].tenant_id@ == tenant_id@ && old(
                    self,
                ).subjects@[i].reference_id@ == reference_id@ {
                    MonitoredSubject { active: false, ..old(self).subjects@[i] }
                } else {
                    old(self).subjects@[i]
                }),
    {
        let n: usize = self.subjects.len();
        let mut touched: bool = false;
        let mut i: usize = 0;
        while i < n
            invariant
                n == self.subjects@.len(),
                self.results@ == old(self).results@,
                self.next_id == old(self).next_id,
                i <= n,
                touched == exists|q: int|
                    0 <= q < i && (#[trigger] old(self).subjects@[q]).tenant_id@ == tenant_id@
                        && old(self).subjects@[q].reference_id@ == reference_id@,
                forall|q: int|
                    i <= q < n ==> #[trigger] self.subjects@[q] == old(self).subjects@[q],
                forall|q: int|
                    0 <= q < i ==> #[trigger] self.subjects@[q] == (
                    if old(self).subjects@[q].tenant_id@ == tenant_id@ && old(
                        self,
                    ).subjects@[q].reference_id@ == reference_id@ {
                        MonitoredSubject { active: false, ..old(self).subjects@[q] }
                    } else {
                        old(self).subjects@[q]
                    }),
            decreases n - i,
        {
            let same = str_equals(self.subjects[i].tenant_id.as_str(), tenant_id) && str_equals(
                self.subjects[i].reference_id.as_str(),
                reference_id,
            );
            if same {
                let row = MonitoredSubject { active: false, ..clone_subject(&self.subjects[i]) };
                proof {
                    assert(row == MonitoredSubject { active: false, ..old(self).subjects@[i as int] });
                }
                self.subjects.set(i, row);
                touched = true;
            }
            i = i + 1;
        }
        touched
    }

    /// The active subscriptions of one tenant.
    pub fn get_monitored_subjects(&self, tenant_id: &str) -> (r: Vec<MonitoredSubject>)
        ensures
            forall|i: int|
                0 <= i < r@.len() ==> #[trigger] is_active_row(r@[i], self.subjects@)
                    && r@[i].tenant_id@ == tenant_id@,
            forall|j: int|
                0 <= j < self.subjects@.len() && (#[trigger] self.subjects@[j]).active
                    && self.subjects@[j].tenant_id@ == tenant_id@ ==> exists|i: int|
                    0 <= i < r@.len() && #[trigger] r@[i] == self.subjects@[j],
    {
        let n: usize = self.subjects.len();
        let mut out: Vec<MonitoredSubject> = Vec::new();
        let mut i: usize = 0;
        while i < n
            invariant
                n == self.subjects@.len(),
                i <= n,
                forall|p: int|
                    0 <= p < out@.len() ==> #[trigger] is_active_row(out@[p], self.subjects@)
                        && out@[p].tenant_id@ == tenant_id@,
                forall|j: int|
                    0 <= j < i && (#[trigger] self.subjects@[j]).active
                        && self.subjects@[j].tenant_id@ == tenant_id@ ==> exists|p: int|
                        0 <= p < out@.len() && #[trigger] out@[p] == self.subjects@[j],
            decreases n - i,
        {
            let s = &self.subjects[i];
            if s.active && str_equals(s.tenant_id.as_str(), tenant_id) {
                let c = clone_subject(s);
                let ghost out0 = out@;
                proof {
                    assert(c == self.subjects@[i as int]);
                    assert(self.subjects@[i as int].active);
                    assert(self.subjects@[i as int].tenant_id@ == tenant_id@);
                }
                out.push(c);
                proof {
                    assert(out@.len() == out0.len() + 1);
                    assert(out@.last() == c);
                    assert(is_active_row(c, self.subjects@));
                    assert forall|p: int| 0 <= p < out@.len() implies #[trigger] is_active_row(
                        out@[p],
                        self.subjects@,
                    ) && out@[p].tenant_id@ == tenant_id@ by {
                        if p < out0.len() {
                            assert(out@[p] == out0[p]);
                        } else {
                            assert(out@[p] == c);
                        }
                    }
                    assert forall|j: int|
                        0 <= j < i + 1 && (#[trigger] self.subjects@[j]).active
                            && self.subjects@[j].tenant_id@ == tenant_id@ implies exists|p: int|
                        0 <= p < out@.len() && #[trigger] out@[p] == self.subjects@[j] by {
                        if j < i {
                            let p0 = choose|p: int|
                                0 <= p < out0.len() && #[trigger] out0[p] == self.subjects@[j];
                            assert(out@[p0] == out0[p0]);
                        } else {
                            assert(out@[out@.len() - 1] == self.subjects@[i as int]);
                        }
                    }
                }
            }
            i = i + 1;
        }
        out
    }

    /// Every active subscription, across tenants, for a refresh re-scan.
    pub fn get_all_active_subjects(&self) -> (r: Vec<MonitoredSubject>)
        ensures
            forall|i: int|
                0 <= i < r@.len() ==> #[trigger] is_active_row(r@[i], self.subjects@),
            forall|j: int|
                0 <= j < self.subjects@.len() && (#[trigger] self.subjects@[j]).active
                    ==> exists|i: int| 0 <= i < r@.len() && #[trigger] r@[i] == self.subjects@[j],
    {
        let n: usize = self.subjects.len();
        let mut out: Vec<MonitoredSubject> = Vec::new();
        let mut i: usize = 0;
        while i < n
            invariant
                n == self.subjects@.len(),
                i <= n,
                forall|p: int|
                    0 <= p < out@.len() ==> #[trigger] is_active_row(out@[p], self.subjects@),
                forall|j: int|
                    0 <= j < i && (#[trigger] self.subjects@[j]).active ==> exists|p: int|
                        0 <= p < out@.len() && #[trigger] out@[p] == self.subjects@[j],
            decreases n - i,
        {
            let s = &self.subjects[i];
            if s.active {
                let c = clone_subject(s);
                let ghost out0 = out@;
                proof {
                    assert(c == self.subjects@[i as int]);
                    assert(self.subjects@[i as int].active);
                }
                out.push(c);
                proof {
                    assert(out@.len() == out0.len() + 1);
                    assert(out@.last() == c);
                    assert(is_active_row(c, self.subjects@));
                    assert forall|p: int| 0 <= p < out@.len() implies #[trigger] is_active_row(
                        out@[p],
                        self.subjects@,
                    ) by {
                        if p < out0.len() {
                            assert(out@[p] == out0[p]);
                        } else {
                            assert(out@[p] == c);
                        }
                    }
                    assert forall|j: int|
                        0 <= j < i + 1 && (#[trigger] self.subjects@[j]).active implies exists|
                        p: int|
                        0 <= p < out@.len() && #[trigger] out@[p] == self.subjects@[j] by {
                        if j < i {
                            let p0 = choose|p: int|
                                0 <= p < out0.len() && #[trigger] out0[p] == self.subjects@[j];
                            assert(out@[p0] == out0[p0]);
                        } else {
                            assert(out@[out@.len() - 1] == self.subjects@[i as int]);
                        }
                    }
                }
            }
            i = i + 1;
        }
        out
    }

    /// Appends one result row and stamps the subscription with the fresh
    /// hash and screening time.  The history only grows: the existing
    /// rows stay untouched in place.
    pub fn record_monitoring_result(
        &mut self,
        subject_id: i64,
        result_hash: &str,
        hit_count: usize,
        highest_score: u32,
        has_changes: bool,
        now: &str,
    )
        ensures
            final (self).results@.len() == old(self).results@.len() + 1,
            forall|i: int|
                0 <= i < old(self).results@.len() ==> #[trigger] final (self).results@[i] == old(
                    self,
                ).results@[i],
            final (self).results@.last().subject_id == subject_id,
            final (self).results@.last().result_hash@ == result_hash@,
            final (self).results@.last().screened_at@ == now@,
            final (self).results@.last().hit_count == hit_count,
            final (self).results@.last().highest_score == highest_score,
            final (self).results@.last().has_changes == has_changes,
            !final (self).results@.last().notified,
            final (self).next_id == old(self).next_id,
            final (self).subjects@.len() == old(self).subjects@.len(),
            forall|i: int|
                0 <= i < old(self).subjects@.len() ==> #[trigger] final (self).subjects@[i] == (
                if old(self).subjects@[i].id == subject_id {
                    MonitoredSubject {
                        last_screened_at: final (self).subjects@[i].last_screened_at,
                        last_result_hash: final (self).subjects@[i].last_result_hash,
                        ..old(self).subjects@[i]
                    }
                } else {
                    old(self).subjects@[i]
                }),
            forall|i: int|
                0 <= i < old(self).subjects@.len() && old(self).subjects@[i].id == subject_id
                    ==> (#[trigger] final (self).subjects@[i]).last_screened_at@ == now@ && final (self).subjects@[i].last_result_hash == Option::Some(
                    final (self).subjects@[i].last_result_hash.unwrap(),
                ) && final (self).subjects@[i].last_result_hash.unwrap()@ == result_hash@,
    {
        self.results.push(
            MonitoringResultRow {
                subject_id,
                screened_at: String::from_str(now),
                result_hash: String::from_str(result_hash),
                hit_count,
                highest_score,
                has_changes,
                notified: false,
            },
        );
        let n: usize = self.subjects.len();
        let mut i: usize = 0;
        while i < n
            invariant
                n == self.subjects@.len(),
                self.results@.len() == old(self).results@.len() + 1,
                forall|q: int|
                    0 <= q < old(self).results@.len() ==> #[trigger] self.results@[q] == old(
                        self,
                    ).results@[q],
                self.results@.last().subject_id == subject_id,
                self.results@.last().result_hash@ == result_hash@,
                self.results@.last().screened_at@ == now@,
                self.results@.last().hit_count == hit_count,
                self.results@.last().highest_score == highest_score,
                self.results@.last().has_changes == has_changes,
                !self.results@.last().notified,
                self.next_id == old(self).next_id,
                i <= n,
                forall|q: int|
                    i <= q < n ==> #[trigger] self.subjects@[q] == old(self).subjects@[q],
                forall|q: int|
                    0 <= q < i ==> #[trigger] self.subjects@[q] == (
                    if old(self).subjects@[q].id == subject_id {
                        MonitoredSubject {
                            last_screened_at: self.subjects@[q].last_screened_at,
                            last_result_hash: self.subjects@[q].last_result_hash,
                            ..old(self).subjects@[q]
                        }
                    } else {
                        old(self).subjects@[q]
                    }),
                forall|q: int|
                    0 <= q < i && old(self).subjects@[q].id == subject_id ==> (#[trigger] self.subjects@[q]).last_screened_at@
                        == now@ && self.subjects@[q].last_result_hash == Option::Some(
                        self.subjects@[q].last_result_hash.unwrap(),
                    ) && self.subjects@[q].last_result_hash.unwrap()@ == result_hash@,
            decreases n - i,
        {
            if self.subjects[i].id == subject_id {
                let row = MonitoredSubject {
                    last_screened_at: String::from_str(now),
                    last_result_hash: Option::Some(String::from_str(result_hash)),
                    ..clone_subject(&self.subjects[i])
                };
                self.subjects.set(i, row);
            }
            i = i + 1;
        }
    }

    /// The result rows that still owe a callback: changed, not yet
    /// notified, and belonging to a subscription with a callback address.
    /// Every such row is returned, paired with its subscription and its
    /// own index.
    pub fn get_pending_notifications(&self) -> (r: Vec<(MonitoredSubject, MonitoringResult, usize)>)
        ensures
            forall|p: int|
                0 <= p < r@.len() ==> #[trigger] pending_tuple_ok(
                    r@[p],
                    self.subjects@,
                    self.results@,
                ),
            forall|idx: int|
                0 <= idx < self.results@.len() && #[trigger] row_pending(
                    self.results@[idx],
                    self.subjects@,
                ) ==> exists|p: int| 0 <= p < r@.len() && (#[trigger] r@[p]).2 == idx,
            forall|p: int, q: int|
                0 <= p < q < r@.len() ==> (#[trigger] r@[p]).2 > (#[trigger] r@[q]).2,
    {
        let rn: usize = self.results.len();
        let mut out: Vec<(MonitoredSubject, MonitoringResult, usize)> = Vec::new();
        let mut i: usize = rn;
        while i > 0
            invariant
                rn == self.results@.len(),
                i <= rn,
                forall|p: int|
                    0 <= p < out@.len() ==> #[trigger] pending_tuple_ok(
                        out@[p],
                        self.subjects@,
                        self.results@,
                    ),
                forall|idx: int|
                    i <= idx < rn && #[trigger] row_pending(self.results@[idx], self.subjects@)
                        ==> exists|p: int| 0 <= p < out@.len() && (#[trigger] out@[p]).2 == idx,
                forall|p: int| 0 <= p < out@.len() ==> (#[trigger] out@[p]).2 >= i,
                forall|p: int, q: int|
                    0 <= p < q < out@.len() ==> (#[trigger] out@[p]).2 > (#[trigger] out@[q]).2,
            decreases i,
        {
            i = i - 1;
            let row = &self.results[i];
            if row.has_changes && !row.notified {
                // Find the owning subscription with a callback address.
                let sn: usize = self.subjects.len();
                let mut j: usize = 0;
                let mut found: bool = false;
                let mut fj: usize = 0;
                while j < sn
                    invariant
                        rn == self.results@.len(),
                        sn == self.subjects@.len(),
                        i < rn,
                        j <= sn,
                        found ==> fj < sn && self.subjects@[fj as int].id == self.results@[
                            i as int].subject_id && self.subjects@[fj as int].callback_url is Some,
                        !found ==> forall|t: int|
                            0 <= t < j ==> !((#[trigger] self.subjects@[t]).id == self.results@[
                                i as int].subject_id && self.subjects@[t].callback_url is Some),
                    decreases sn - j,
                {
                    if !found && self.subjects[j].id == self.results[i].subject_id
                        && self.subjects[j].callback_url.is_some() {
                        found = true;
                        fj = j;
                    }
                    j = j + 1;
                }
                if found {
                    let s = &self.subjects[fj];
                    let res = MonitoringResult {
                        subject_id: self.results[i].subject_id,
                        reference_id: s.reference_id.clone(),
                        has_changes: self.results[i].has_changes,
                        new_result_hash: self.results[i].result_hash.clone(),
                        hit_count: self.results[i].hit_count,
                        highest_score: self.results[i].highest_score,
                    };
                    let c = clone_subject(s);
                    let ghost out0 = out@;
                    proof {
                        assert(c == self.subjects@[fj as int]);
                        assert(pending_tuple_ok((c, res, i), self.subjects@, self.results@));
                    }
                    out.push((c, res, i));
                    proof {
                        assert(out@.last() == (c, res, i));
                        assert forall|p: int| 0 <= p < out@.len() implies #[trigger] pending_tuple_ok(
                            out@[p],
                            self.subjects@,
                            self.results@,
                        ) by {
                            if p < out0.len() {
                                assert(out@[p] == out0[p]);
                            } else {
                                assert(out@[p] == (c, res, i));
                            }
                        }
                        assert forall|idx: int|
                            i <= idx < rn && #[trigger] row_pending(
                                self.results@[idx],
                                self.subjects@,
                            ) implies exists|p: int|
                            0 <= p < out@.len() && (#[trigger] out@[p]).2 == idx by {
                            if idx > i {
                                let p0 = choose|p: int|
                                    0 <= p < out0.len() && (#[trigger] out0[p]).2 == idx;
                                assert(out@[p0] == out0[p0]);
                            } else {
                                assert(out@[out@.len() - 1].2 == i);
                            }
                        }
                        assert forall|p: int, q: int|
                            0 <= p < q < out@.len() implies (#[trigger] out@[p]).2 > (
                        #[trigger] out@[q]).2 by {
                            if q < out0.len() {
                                assert(out@[p] == out0[p] && out@[q] == out0[q]);
                            } else {
                                assert(out@[p] == out0[p] && out@[q] == (c, res, i));
                                assert(out0[p].2 >= i + 1);
                            }
                        }
                    }
                } else {
                    proof {
                        assert(!has_callback_sub(
                            self.subjects@,
                            self.results@[i as int].subject_id,
                        ));
                        assert(!row_pending(self.results@[i as int], self.subjects@));
                    }
                }
            } else {
                proof {
                    assert(!row_pending(self.results@[i as int], self.subjects@));
                }
            }
        }
        out
    }

    /// Marks one result row as notified.
    pub fn mark_notified(&mut self, result_id: usize)
        requires
            result_id < old(self).results@.len(),
        ensures
            final (self).subjects@ == old(self).subjects@,
            final (self).next_id == old(self).next_id,
            final (self).results@.len() == old(self).results@.len(),
            final (self).results@[result_id as int] == (MonitoringResultRow {
                notified: true,
                ..old(self).results@[result_id as int]
            }),
            forall|i: int|
                0 <= i < old(self).results@.len() && i != result_id ==> #[trigger] final (self).results@[i] == old(self).results@[i],
    {
        let row = MonitoringResultRow { notified: true, ..clone_result_row(&self.results[result_id]) };
        proof {
            assert(row == MonitoringResultRow {
                notified: true,
                ..old(self).results@[result_id as int]
            });
        }
        self.results.set(result_id, row);
    }
}

/// Copies a subscription row.
fn clone_subject(s: &MonitoredSubject) -> (r: MonitoredSubject)
    ensures
        r == *s,
{
    MonitoredSubject {
        id: s.id,
        tenant_id: s.tenant_id.clone(),
        reference_id: s.reference_id.clone(),
        name: s.name.clone(),
        country: clone_opt_string(&s.country),
        dob_year: s.dob_year,
        last_screened_at: s.last_screened_at.clone(),
        last_result_hash: clone_opt_string(&s.last_result_hash),
        callback_url: clone_opt_string(&s.callback_url),
        active: s.active,
    }
}

/// Copies a result row.
fn clone_result_row(s: &MonitoringResultRow) -> (r: MonitoringResultRow)
    ensures
        r == *s,
{
    MonitoringResultRow {
        subject_id: s.subject_id,
        screened_at: s.screened_at.clone(),
        result_hash: s.result_hash.clone(),
        hit_count: s.hit_count,
        highest_score: s.highest_score,
        has_changes: s.has_changes,
        notified: s.notified,
    }
}

/// Copies an optional string.
fn clone_opt_string(o: &Option<String>) -> (r: Option<String>)
    ensures
        r == *o,
{
    match o {
        Option::Some(s) => Option::Some(s.clone()),
        Option::None => Option::None,
    }
}

/// Owns an optional borrowed string.
fn clone_opt_ref(o: Option<&String>) -> (r: Option<String>)
    ensures
        match (r, o) {
            (Option::Some(a), Option::Some(b)) => a@ == b@,
            (Option::None, Option::None) => true,
            _ => false,
        },
{
    match o {
        Option::Some(s) => Option::Some(s.clone()),
        Option::None => Option::None,
    }
}

} // verus!
