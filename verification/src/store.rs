//! The subject store: the durable set of subjects and aliases keyed by
//! source and source reference, with upsert semantics and the append-only
//! dataset version log.

use vstd::prelude::*;
use crate::subject::{ParsedAlias, ParsedSubject, SubjectKind, kind_str};
use crate::strutil::{to_chars, chars_to_string};
use vstd::string::StringExecFns;

verus! {

/// Lowercases one ASCII letter, leaving everything else unchanged.
pub open spec fn ascii_lower(c: char) -> char {
    match c {
        'A' => 'a', 'B' => 'b', 'C' => 'c', 'D' => 'd', 'E' => 'e', 'F' => 'f',
        'G' => 'g', 'H' => 'h', 'I' => 'i', 'J' => 'j', 'K' => 'k', 'L' => 'l',
        'M' => 'm', 'N' => 'n', 'O' => 'o', 'P' => 'p', 'Q' => 'q', 'R' => 'r',
        'S' => 's', 'T' => 't', 'U' => 'u', 'V' => 'v', 'W' => 'w', 'X' => 'x',
        'Y' => 'y', 'Z' => 'z',
        _ => c,
    }
}

/// Executable twin of [`ascii_lower`].
pub fn ascii_lower_char(c: char) -> (r: char)
    ensures
        r == ascii_lower(c),
{
    match c {
        'A' => 'a', 'B' => 'b', 'C' => 'c', 'D' => 'd', 'E' => 'e', 'F' => 'f',
        'G' => 'g', 'H' => 'h', 'I' => 'i', 'J' => 'j', 'K' => 'k', 'L' => 'l',
        'M' => 'm', 'N' => 'n', 'O' => 'o', 'P' => 'p', 'Q' => 'q', 'R' => 'r',
        'S' => 's', 'T' => 't', 'U' => 'u', 'V' => 'v', 'W' => 'w', 'X' => 'x',
        'Y' => 'y', 'Z' => 'z',
        _ => c,
    }
}

/// ASCII-lowercases a whole sequence.
pub open spec fn ascii_lower_seq(s: Seq<char>) -> Seq<char> {
    Seq::new(s.len(), |i: int| ascii_lower(s[i]))
}

/// The synthetic primary key of a stored subject.
pub open spec fn spec_subject_id(source: Seq<char>, source_ref: Seq<char>) -> Seq<char> {
    ascii_lower_seq(source) + seq!['_'] + source_ref
}

/// Builds the synthetic primary key of a subject row.
pub fn make_subject_id(source: &str, source_ref: &str) -> (r: String)
    ensures
        r@ == spec_subject_id(source@, source_ref@),
{
    let sc = to_chars(source);
    let n: usize = sc.len();
    let mut out: Vec<char> = Vec::new();
    let mut i: usize = 0;
    while i < n
        invariant
            sc@ == source@,
            n == sc@.len(),
            i <= n,
            out@ =~= ascii_lower_seq(source@).take(i as int),
        decreases n - i,
    {
        out.push(ascii_lower_char(sc[i]));
        proof {
            assert(out@ =~= ascii_lower_seq(source@).take(i + 1));
        }
        i = i + 1;
    }
    out.push('_');
    let rc = to_chars(source_ref);
    let m: usize = rc.len();
    let mut j: usize = 0;
    proof {
        assert(ascii_lower_seq(source@).take(source@.len() as int) =~= ascii_lower_seq(source@));
        assert(out@ =~= ascii_lower_seq(source@) + seq!['_'] + source_ref@.take(0));
    }
    while j < m
        invariant
            rc@ == source_ref@,
            m == rc@.len(),
            j <= m,
            out@ =~= ascii_lower_seq(source@) + seq!['_'] + source_ref@.take(j as int),
        decreases m - j,
    {
        out.push(rc[j]);
        proof {
            assert(out@ =~= ascii_lower_seq(source@) + seq!['_'] + source_ref@.take(j + 1));
        }
        j = j + 1;
    }
    proof {
        assert(source_ref@.take(source_ref@.len() as int) =~= source_ref@);
        assert(out@ =~= spec_subject_id(source@, source_ref@));
    }
    chars_to_string(&out)
}

/// One materialized subject row, aliases included.
#[derive(Clone, Debug)]
pub struct StoredSubject {
    pub id: String,
    pub kind: String,
    pub primary_name: String,
    pub date_of_birth: Option<String>,
    pub date_of_birth_year: Option<i32>,
    pub country: Option<String>,
    pub source: String,
    pub source_ref: String,
    pub created_at: String,
    pub updated_at: String,
    pub aliases: Vec<ParsedAlias>,
}

/// One refresh of one source.
#[derive(Clone, Debug)]
pub struct DatasetVersion {
    pub source: String,
    pub fetched_at: String,
    pub record_count: i64,
    pub file_hash: Option<String>,
}

/// The mathematical content of one subject row.
pub ghost struct RowV {
    pub id: Seq<char>,
    pub kind: Seq<char>,
    pub primary_name: Seq<char>,
    pub date_of_birth: Option<Seq<char>>,
    pub date_of_birth_year: Option<int>,
    pub country: Option<Seq<char>>,
    pub source: Seq<char>,
    pub source_ref: Seq<char>,
    pub created_at: Seq<char>,
    pub updated_at: Seq<char>,
    pub aliases: Seq<(Seq<char>, Seq<char>)>,
}

/// The mathematical content of one canonical subject.
pub ghost struct SubjV {
    pub source_ref: Seq<char>,
    pub kind: Seq<char>,
    pub primary_name: Seq<char>,
    pub aliases: Seq<(Seq<char>, Seq<char>)>,
    pub date_of_birth: Option<Seq<char>>,
    pub date_of_birth_year: Option<int>,
    pub country: Option<Seq<char>>,
}

pub open spec fn opt_view(o: Option<String>) -> Option<Seq<char>> {
    match o {
        Option::Some(s) => Option::Some(s@),
        Option::None => Option::None,
    }
}

pub open spec fn opt_int(o: Option<i32>) -> Option<int> {
    match o {
        Option::Some(y) => Option::Some(y as int),
        Option::None => Option::None,
    }
}

pub open spec fn alias_views(a: Seq<ParsedAlias>) -> Seq<(Seq<char>, Seq<char>)> {
    Seq::new(a.len(), |i: int| (a[i].name@, a[i].alias_type@))
}

pub open spec fn kind_view(k: SubjectKind) -> Seq<char> {
    if k == SubjectKind::Person {
        "person"@
    } else {
        "entity"@
    }
}

pub open spec fn row_view(r: StoredSubject) -> RowV {
    RowV {
        id: r.id@,
        kind: r.kind@,
        primary_name: r.primary_name@,
        date_of_birth: opt_view(r.date_of_birth),
        date_of_birth_year: opt_int(r.date_of_birth_year),
        country: opt_view(r.country),
        source: r.source@,
        source_ref: r.source_ref@,
        created_at: r.created_at@,
        updated_at: r.updated_at@,
        aliases: alias_views(r.aliases@),
    }
}

pub open spec fn row_views(rows: Seq<StoredSubject>) -> Seq<RowV> {
    Seq::new(rows.len(), |i: int| row_view(rows[i]))
}

pub open spec fn subj_view(s: ParsedSubject) -> SubjV {
    SubjV {
        source_ref: s.source_ref@,
        kind: kind_view(s.kind),
        primary_name: s.primary_name@,
        aliases: alias_views(s.aliases@),
        date_of_birth: opt_view(s.date_of_birth),
        date_of_birth_year: opt_int(s.date_of_birth_year),
        country: opt_view(s.country),
    }
}

pub open spec fn subj_views(l: Seq<ParsedSubject>) -> Seq<SubjV> {
    Seq::new(l.len(), |i: int| subj_view(l[i]))
}

/// First row index at or after `j` whose id matches, `-1` when none does.
pub open spec fn find_rowv(rows: Seq<RowV>, id: Seq<char>, j: int) -> int
    decreases rows.len() - j,
    when 0 <= j <= rows.len()
{
    if j >= rows.len() {
        -1
    } else if rows[j].id == id {
        j
    } else {
        find_rowv(rows, id, j + 1)
    }
}

/// A duplicate alias: same name and same type as one already kept.
pub open spec fn av_has(acc: Seq<(Seq<char>, Seq<char>)>, name: Seq<char>, ty: Seq<char>) -> bool {
    exists|j: int| 0 <= j < acc.len() && #[trigger] acc[j] == (name, ty)
}

/// The alias set of a row: the source's aliases with duplicate
/// name-and-type pairs dropped, first occurrence kept.
pub open spec fn dedup_av(al: Seq<(Seq<char>, Seq<char>)>, i: int) -> Seq<(Seq<char>, Seq<char>)>
    decreases i,
    when 0 <= i <= al.len()
{
    if i <= 0 {
        Seq::empty()
    } else {
        let prev = dedup_av(al, i - 1);
        if av_has(prev, al[i - 1].0, al[i - 1].1) {
            prev
        } else {
            prev.push(al[i - 1])
        }
    }
}

/// Upserting one subject: an existing row keeps its identity and creation
/// stamp and takes the fresh mutable fields; a missing row is appended.
/// Either way the alias set is replaced outright.
pub open spec fn upsert_one(rows: Seq<RowV>, s: SubjV, source: Seq<char>, now: Seq<char>) -> Seq<
    RowV,
> {
    let id = spec_subject_id(source, s.source_ref);
    let k = find_rowv(rows, id, 0);
    if k >= 0 {
        rows.update(
            k,
            RowV {
                primary_name: s.primary_name,
                date_of_birth: s.date_of_birth,
                date_of_birth_year: s.date_of_birth_year,
                country: s.country,
                updated_at: now,
                aliases: dedup_av(s.aliases, s.aliases.len() as int),
                ..rows[k]
            },
        )
    } else {
        rows.push(
            RowV {
                id: id,
                kind: s.kind,
                primary_name: s.primary_name,
                date_of_birth: s.date_of_birth,
                date_of_birth_year: s.date_of_birth_year,
                country: s.country,
                source: source,
                source_ref: s.source_ref,
                created_at: now,
                updated_at: now,
                aliases: dedup_av(s.aliases, s.aliases.len() as int),
            },
        )
    }
}

/// Upserting a batch, subject by subject, in order.
pub open spec fn upsert_batch(rows: Seq<RowV>, l: Seq<SubjV>, source: Seq<char>, now: Seq<char>, i: int) -> Seq<
    RowV,
>
    decreases i,
    when 0 <= i <= l.len()
{
    if i <= 0 {
        rows
    } else {
        upsert_one(upsert_batch(rows, l, source, now, i - 1), l[i - 1], source, now)
    }
}

/// The key one subject upserts under.
pub open spec fn sid(source: Seq<char>, s: SubjV) -> Seq<char> {
    spec_subject_id(source, s.source_ref)
}

/// The row as it stands right after one subject was upserted.
pub open spec fn target_row(s: SubjV, source: Seq<char>, now: Seq<char>, kept: RowV, fresh: bool) -> RowV {
    if fresh {
        RowV {
            id: sid(source, s),
            kind: s.kind,
            primary_name: s.primary_name,
            date_of_birth: s.date_of_birth,
            date_of_birth_year: s.date_of_birth_year,
            country: s.country,
            source: source,
            source_ref: s.source_ref,
            created_at: now,
            updated_at: now,
            aliases: dedup_av(s.aliases, s.aliases.len() as int),
        }
    } else {
        RowV {
            primary_name: s.primary_name,
            date_of_birth: s.date_of_birth,
            date_of_birth_year: s.date_of_birth_year,
            country: s.country,
            updated_at: now,
            aliases: dedup_av(s.aliases, s.aliases.len() as int),
            ..kept
        }
    }
}

/// Where the first matching row sits, with everything before it missing
/// the key.
proof fn lemma_find_first(rows: Seq<RowV>, id: Seq<char>, j: int)
    requires
        0 <= j <= rows.len(),
    ensures
        find_rowv(rows, id, j) == -1 ==> forall|q: int|
            j <= q < rows.len() ==> (#[trigger] rows[q]).id != id,
        find_rowv(rows, id, j) != -1 ==> j <= find_rowv(rows, id, j) < rows.len() && rows[
            find_rowv(rows, id, j)
        ].id == id && forall|q: int|
            j <= q < find_rowv(rows, id, j) ==> (#[trigger] rows[q]).id != id,
    decreases rows.len() - j,
{
    if j >= rows.len() {
    } else if rows[j].id == id {
    } else {
        lemma_find_first(rows, id, j + 1);
    }
}

/// What one upsert does, row by row: the touched row takes the subject's
/// data, every other row stays, row order and identities stay.
proof fn lemma_upsert_one_props(rows: Seq<RowV>, s: SubjV, source: Seq<char>, now: Seq<char>)
    ensures
        ({
            let r1 = upsert_one(rows, s, source, now);
            let k = find_rowv(rows, sid(source, s), 0);
            let kk = if k >= 0 {
                k
            } else {
                rows.len() as int
            };
            &&& r1.len() as int == if k >= 0 {
                rows.len() as int
            } else {
                rows.len() as int + 1
            }
            &&& 0 <= kk < r1.len()
            &&& r1[kk] == target_row(s, source, now, if k >= 0 {
                rows[k]
            } else {
                r1[kk]
            }, k < 0)
            &&& r1[kk].id == sid(source, s)
            &&& forall|j: int| 0 <= j < kk ==> (#[trigger] rows[j]).id != sid(source, s)
            &&& forall|j: int| 0 <= j < rows.len() && j != kk ==> #[trigger] r1[j] == rows[j]
            &&& forall|j: int| 0 <= j < rows.len() ==> (#[trigger] r1[j]).id == rows[j].id
        }),
{
    lemma_find_first(rows, sid(source, s), 0);
    let r1 = upsert_one(rows, s, source, now);
    let k = find_rowv(rows, sid(source, s), 0);
    if k >= 0 {
        assert(r1[k].id == rows[k].id);
    }
}

/// A batch never moves or re-identifies rows that were already there.
proof fn lemma_batch_ids_stable(
    rows: Seq<RowV>,
    l: Seq<SubjV>,
    source: Seq<char>,
    now: Seq<char>,
    i: int,
)
    requires
        0 <= i <= l.len(),
    ensures
        upsert_batch(rows, l, source, now, i).len() >= rows.len(),
        forall|j: int|
            0 <= j < rows.len() ==> (#[trigger] upsert_batch(rows, l, source, now, i)[j]).id
                == rows[j].id,
    decreases i,
{
    if i > 0 {
        lemma_batch_ids_stable(rows, l, source, now, i - 1);
        let prev = upsert_batch(rows, l, source, now, i - 1);
        lemma_upsert_one_props(prev, l[i - 1], source, now);
    }
}

/// A row whose key no later batch entry carries survives the batch as it
/// stands.
proof fn lemma_batch_frame(
    rows: Seq<RowV>,
    l: Seq<SubjV>,
    source: Seq<char>,
    now: Seq<char>,
    p: int,
    i: int,
    k: int,
)
    requires
        0 <= p <= i <= l.len(),
        0 <= k < upsert_batch(rows, l, source, now, p).len(),
        forall|q: int|
            p <= q < i ==> sid(source, #[trigger] l[q]) != upsert_batch(
                rows,
                l,
                source,
                now,
                p,
            )[k].id,
    ensures
        upsert_batch(rows, l, source, now, i)[k] == upsert_batch(rows, l, source, now, p)[k],
        upsert_batch(rows, l, source, now, i).len() >= upsert_batch(
            rows,
            l,
            source,
            now,
            p,
        ).len(),
    decreases i - p,
{
    if i > p {
        lemma_batch_frame(rows, l, source, now, p, i - 1, k);
        let prev = upsert_batch(rows, l, source, now, i - 1);
        lemma_upsert_one_props(prev, l[i - 1], source, now);
        let kf = find_rowv(prev, sid(source, l[i - 1]), 0);
        let kk = if kf >= 0 {
            kf
        } else {
            prev.len() as int
        };
        assert(prev[k].id == upsert_batch(rows, l, source, now, p)[k].id);
        if kk == k {
            assert(upsert_batch(rows, l, source, now, i)[kk].id == sid(source, l[i - 1]));
            assert(prev[k].id == sid(source, l[i - 1]) || kf < 0);
        }
    }
}

/// Upserting the same refresh twice leaves the row set exactly as the
/// first pass left it, provided the refresh carries each subject key once.
pub proof fn lemma_upsert_batch_idempotent(
    rows: Seq<RowV>,
    l: Seq<SubjV>,
    source: Seq<char>,
    now: Seq<char>,
)
    requires
        forall|p: int, q: int|
            0 <= p < q < l.len() ==> sid(source, #[trigger] l[p]) != sid(source, #[trigger] l[q]),
    ensures
        upsert_batch(
            upsert_batch(rows, l, source, now, l.len() as int),
            l,
            source,
            now,
            l.len() as int,
        ) == upsert_batch(rows, l, source, now, l.len() as int),
{
    let g = upsert_batch(rows, l, source, now, l.len() as int);
    lemma_batch_second_pass(rows, l, source, now, l.len() as int);
}

/// The second pass over a prefix of the batch changes nothing.
proof fn lemma_batch_second_pass(
    rows: Seq<RowV>,
    l: Seq<SubjV>,
    source: Seq<char>,
    now: Seq<char>,
    i: int,
)
    requires
        0 <= i <= l.len(),
        forall|p: int, q: int|
            0 <= p < q < l.len() ==> sid(source, #[trigger] l[p]) != sid(source, #[trigger] l[q]),
    ensures
        upsert_batch(
            upsert_batch(rows, l, source, now, l.len() as int),
            l,
            source,
            now,
            i,
        ) == upsert_batch(rows, l, source, now, l.len() as int),
    decreases i,
{
    let g = upsert_batch(rows, l, source, now, l.len() as int);
    if i > 0 {
        lemma_batch_second_pass(rows, l, source, now, i - 1);
        // The second pass so far left g unchanged; one more upsert of
        // l[i-1] hits the row pass one already brought up to date.
        lemma_upsert_preserved_row(rows, l, source, now, i - 1);
    }
}

/// After pass one, upserting batch entry `p` once more changes nothing:
/// its row already carries exactly that entry's data.
proof fn lemma_upsert_preserved_row(
    rows: Seq<RowV>,
    l: Seq<SubjV>,
    source: Seq<char>,
    now: Seq<char>,
    p: int,
)
    requires
        0 <= p < l.len(),
        forall|pp: int, q: int|
            0 <= pp < q < l.len() ==> sid(source, #[trigger] l[pp]) != sid(source, #[trigger] l[q]),
    ensures
        upsert_one(upsert_batch(rows, l, source, now, l.len() as int), l[p], source, now)
            == upsert_batch(rows, l, source, now, l.len() as int),
{
    let x = l[p];
    let idx = sid(source, x);
    let sp = upsert_batch(rows, l, source, now, p);
    let sp1 = upsert_batch(rows, l, source, now, p + 1);
    let g = upsert_batch(rows, l, source, now, l.len() as int);
    assert(sp1 == upsert_one(sp, x, source, now));
    lemma_upsert_one_props(sp, x, source, now);
    let kf = find_rowv(sp, idx, 0);
    let kk = if kf >= 0 {
        kf
    } else {
        sp.len() as int
    };
    // The row pass one wrote for this entry survives the rest of pass one.
    assert forall|q: int| p + 1 <= q < l.len() implies sid(source, #[trigger] l[q]) != sp1[kk].id by {}
    lemma_batch_frame(rows, l, source, now, p + 1, l.len() as int, kk);
    assert(g[kk] == sp1[kk]);
    // Everything before it still lacks the key.
    lemma_batch_ids_stable(sp1, l, source, now, 0);
    assert forall|j: int| 0 <= j < kk implies (#[trigger] g[j]).id != idx by {
        lemma_batch_frame_ids(rows, l, source, now, p + 1, l.len() as int, j);
        assert(sp1[j].id == sp[j].id);
    }
    // So the second upsert finds the very same row.
    lemma_find_first(g, idx, 0);
    let k2 = find_rowv(g, idx, 0);
    assert(g[kk].id == idx);
    assert(k2 != -1);
    assert(!(k2 < kk) && !(k2 > kk));
    // And rewrites it with identical contents.
    let r2 = upsert_one(g, x, source, now);
    lemma_upsert_one_props(g, x, source, now);
    assert(r2[kk] == target_row(x, source, now, g[kk], false));
    assert(r2[kk] == g[kk]);
    assert(r2 =~= g);
}

/// Identities at fixed indices survive any stretch of a batch.
proof fn lemma_batch_frame_ids(
    rows: Seq<RowV>,
    l: Seq<SubjV>,
    source: Seq<char>,
    now: Seq<char>,
    p: int,
    i: int,
    j: int,
)
    requires
        0 <= p <= i <= l.len(),
        0 <= j < upsert_batch(rows, l, source, now, p).len(),
    ensures
        upsert_batch(rows, l, source, now, i).len() >= upsert_batch(rows, l, source, now, p).len(),
        upsert_batch(rows, l, source, now, i)[j].id == upsert_batch(rows, l, source, now, p)[j].id,
    decreases i - p,
{
    if i > p {
        lemma_batch_frame_ids(rows, l, source, now, p, i - 1, j);
        let prev = upsert_batch(rows, l, source, now, i - 1);
        lemma_upsert_one_props(prev, l[i - 1], source, now);
    }
}

/// The store: subject rows and the dataset version log.
pub struct SubjectStore {
    pub subjects: Vec<StoredSubject>,
    pub versions: Vec<DatasetVersion>,
}

impl SubjectStore {
    /// An empty store.
    pub fn new() -> (r: SubjectStore)
        ensures
            r.subjects@ == Seq::<StoredSubject>::empty(),
            r.versions@ == Seq::<DatasetVersion>::empty(),
    {
        SubjectStore { subjects: Vec::new(), versions: Vec::new() }
    }

    /// Appends one refresh record to the dataset version log.  The log only
    /// ever grows: the previous entries stay untouched in place.
    pub fn record_dataset_version(&mut self, v: DatasetVersion)
        ensures
            final (self).versions@ == old(self).versions@.push(v),
            final (self).versions@.len() == old(self).versions@.len() + 1,
            final (self).subjects@ == old(self).subjects@,
    {
        self.versions.push(v);
    }

    /// Upserts every subject of one refresh: rows are inserted or updated
    /// under the key built from the source and the source reference, alias
    /// sets are replaced, and the version log stays untouched.  Returns how
    /// many subjects were written.
    pub fn upsert_subjects(&mut self, subjects: &Vec<ParsedSubject>, source: &str, now: &str) -> (n:
        usize)
        ensures
            final (self).versions@ == old(self).versions@,
            row_views(final (self).subjects@) == upsert_batch(
                row_views(old(self).subjects@),
                subj_views(subjects@),
                source@,
                now@,
                subjects@.len() as int,
            ),
            n == subjects@.len(),
    {
        let ghost orig = row_views(self.subjects@);
        let ghost vers0 = self.versions@;
        let ghost vs = subj_views(subjects@);
        let m: usize = subjects.len();
        let mut i: usize = 0;
        while i < m
            invariant
                m == subjects@.len(),
                vs == subj_views(subjects@),
                i <= m,
                self.versions@ == vers0,
                row_views(self.subjects@) == upsert_batch(orig, vs, source@, now@, i as int),
            decreases m - i,
        {
            self.upsert_single(&subjects[i], source, now);
            proof {
                assert(subj_views(subjects@)[i as int] == subj_view(subjects@[i as int]));
            }
            i = i + 1;
        }
        m
    }

    /// Upserts one subject.
    fn upsert_single(&mut self, s: &ParsedSubject, source: &str, now: &str)
        ensures
            final (self).versions@ == old(self).versions@,
            row_views(final (self).subjects@) == upsert_one(
                row_views(old(self).subjects@),
                subj_view(*s),
                source@,
                now@,
            ),
    {
        let ghost rows0 = row_views(self.subjects@);
        let id = make_subject_id(source, s.source_ref.as_str());
        // Find the row with this id, if any.
        let rn: usize = self.subjects.len();
        let mut k: usize = 0;
        let mut found: bool = false;
        proof {
            assert(rows0.len() == self.subjects@.len());
        }
        loop
            invariant_except_break
                rows0 == row_views(self.subjects@),
                rn == self.subjects@.len(),
                id@ == spec_subject_id(source@, s.source_ref@),
                k <= rn,
                !found,
                find_rowv(rows0, id@, 0) == find_rowv(rows0, id@, k as int),
            ensures
                rows0 == row_views(self.subjects@),
                rn == self.subjects@.len(),
                id@ == spec_subject_id(source@, s.source_ref@),
                if found {
                    k < rn && find_rowv(rows0, id@, 0) == k as int
                } else {
                    find_rowv(rows0, id@, 0) == -1
                },
            decreases rn - k,
        {
            if k >= rn {
                break;
            }
            proof {
                assert(rows0[k as int] == row_view(self.subjects@[k as int]));
            }
            if self.subjects[k].id == id {
                found = true;
                break;
            }
            k = k + 1;
        }
        let aliases = dedup_alias_list(&s.aliases);
        if found {
            let old_row = &self.subjects[k];
            let row = StoredSubject {
                id: old_row.id.clone(),
                kind: old_row.kind.clone(),
                primary_name: s.primary_name.clone(),
                date_of_birth: clone_opt(&s.date_of_birth),
                date_of_birth_year: s.date_of_birth_year,
                country: clone_opt(&s.country),
                source: old_row.source.clone(),
                source_ref: old_row.source_ref.clone(),
                created_at: old_row.created_at.clone(),
                updated_at: String::from_str(now),
                aliases,
            };
            self.subjects.set(k, row);
            proof {
                assert(row_views(self.subjects@) =~= upsert_one(rows0, subj_view(*s), source@, now@));
            }
        } else {
            let row = StoredSubject {
                id,
                kind: String::from_str(kind_str(s.kind)),
                primary_name: s.primary_name.clone(),
                date_of_birth: clone_opt(&s.date_of_birth),
                date_of_birth_year: s.date_of_birth_year,
                country: clone_opt(&s.country),
                source: String::from_str(source),
                source_ref: s.source_ref.clone(),
                created_at: String::from_str(now),
                updated_at: String::from_str(now),
                aliases,
            };
            self.subjects.push(row);
            proof {
                assert(row_views(self.subjects@) =~= upsert_one(rows0, subj_view(*s), source@, now@));
            }
        }
    }
}

/// Clones an optional string.
fn clone_opt(o: &Option<String>) -> (r: Option<String>)
    ensures
        opt_view(r) == opt_view(*o),
{
    match o {
        Option::Some(s) => Option::Some(s.clone()),
        Option::None => Option::None,
    }
}

/// Drops duplicate name-and-type pairs, keeping first occurrences.
fn dedup_alias_list(al: &Vec<ParsedAlias>) -> (r: Vec<ParsedAlias>)
    ensures
        alias_views(r@) == dedup_av(alias_views(al@), al@.len() as int),
{
    let ghost avs = alias_views(al@);
    let n: usize = al.len();
    let mut acc: Vec<ParsedAlias> = Vec::new();
    let mut i: usize = 0;
    proof {
        assert(alias_views(acc@) =~= dedup_av(avs, 0));
    }
    while i < n
        invariant
            avs == alias_views(al@),
            n == al@.len(),
            i <= n,
            alias_views(acc@) == dedup_av(avs, i as int),
        decreases n - i,
    {
        let a = &al[i];
        proof {
            assert(avs[i as int] == (al@[i as int].name@, al@[i as int].alias_type@));
        }
        // Is this name-and-type pair already kept?
        let mut dup: bool = false;
        let mut j: usize = 0;
        let an: usize = acc.len();
        loop
            invariant_except_break
                avs == alias_views(al@),
                n == al@.len(),
                i < n,
                a.name@ == al@[i as int].name@,
                a.alias_type@ == al@[i as int].alias_type@,
                an == acc@.len(),
                j <= an,
                !dup,
                forall|q: int|
                    0 <= q < j ==> #[trigger] alias_views(acc@)[q] != (
                        al@[i as int].name@,
                        al@[i as int].alias_type@,
                    ),
            ensures
                an == acc@.len(),
                dup == av_has(alias_views(acc@), al@[i as int].name@, al@[i as int].alias_type@),
            decreases an - j,
        {
            if j >= an {
                proof {
                    assert(!av_has(
                        alias_views(acc@),
                        al@[i as int].name@,
                        al@[i as int].alias_type@,
                    ));
                }
                break;
            }
            proof {
                assert(alias_views(acc@)[j as int] == (acc@[j as int].name@, acc@[
                    j as int].alias_type@));
            }
            if acc[j].name == a.name && acc[j].alias_type == a.alias_type {
                dup = true;
                proof {
                    assert(alias_views(acc@)[j as int] == (al@[i as int].name@, al@[
                        i as int].alias_type@));
                }
                break;
            }
            j = j + 1;
        }
        if !dup {
            acc.push(ParsedAlias { name: a.name.clone(), alias_type: a.alias_type.clone() });
            proof {
                assert(alias_views(acc@) =~= dedup_av(avs, i + 1));
            }
        } else {
            proof {
                assert(alias_views(acc@) =~= dedup_av(avs, i + 1));
            }
        }
        i = i + 1;
    }
    proof {
        assert(alias_views(acc@) =~= dedup_av(avs, n as int));
    }
    acc
}

} // verus!
