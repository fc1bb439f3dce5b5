//! The search index: one document per stored subject, with normalized
//! name and alias text, rebuilt from the subject store after each refresh.

use vstd::prelude::*;
use crate::normalize::{normalize_name, spec_normalize, spec_tokens, folded, join_spaces};
use crate::store::{SubjectStore, row_views, row_view, RowV};
use crate::strutil::{to_chars, chars_to_string};

verus! {

/// One indexed document.
#[derive(Clone, Debug)]
pub struct IndexedDoc {
    pub subject_id: String,
    pub primary_name: String,
    pub aliases: String,
    pub country: String,
    pub dob_year: Option<i32>,
    pub source: String,
    pub kind: String,
}

/// The mathematical content of one indexed document.
pub ghost struct DocV {
    pub subject_id: Seq<char>,
    pub primary_name: Seq<char>,
    pub aliases: Seq<char>,
    pub country: Seq<char>,
    pub dob_year: Option<int>,
    pub source: Seq<char>,
    pub kind: Seq<char>,
}

pub open spec fn doc_view(d: IndexedDoc) -> DocV {
    DocV {
        subject_id: d.subject_id@,
        primary_name: d.primary_name@,
        aliases: d.aliases@,
        country: d.country@,
        dob_year: match d.dob_year {
            Option::Some(y) => Option::Some(y as int),
            Option::None => Option::None,
        },
        source: d.source@,
        kind: d.kind@,
    }
}

pub open spec fn doc_views(docs: Seq<IndexedDoc>) -> Seq<DocV> {
    Seq::new(docs.len(), |i: int| doc_view(docs[i]))
}

/// The alias names of a row, as one space-joined sequence.
pub open spec fn alias_concat(r: RowV) -> Seq<char> {
    join_spaces(Seq::new(r.aliases.len(), |i: int| r.aliases[i].0))
}

/// The document a subject row indexes into: its name and aliases
/// normalized, the remaining fields carried as stored.
pub open spec fn doc_of_row(r: RowV) -> DocV {
    DocV {
        subject_id: r.id,
        primary_name: spec_normalize(r.primary_name),
        aliases: spec_normalize(alias_concat(r)),
        country: match r.country {
            Option::Some(c) => c,
            Option::None => Seq::empty(),
        },
        dob_year: r.date_of_birth_year,
        source: r.source,
        kind: r.kind,
    }
}

/// Normalizes text the way the index stores it.
pub fn normalize_for_index(s: &str) -> (r: String)
    ensures
        r@ == spec_normalize(s@),
{
    normalize_name(s)
}

/// The inverted index over normalized names and aliases.
pub struct SearchIndex {
    pub docs: Vec<IndexedDoc>,
}

impl SearchIndex {
    /// Builds the index afresh from every subject of the store: one
    /// document per row, names and aliases normalized.
    pub fn build_from_store(store: &SubjectStore) -> (r: SearchIndex)
        ensures
            doc_views(r.docs@) == row_views(store.subjects@).map_values(|rv: RowV| doc_of_row(rv)),
    {
        let n: usize = store.subjects.len();
        let mut docs: Vec<IndexedDoc> = Vec::new();
        let mut i: usize = 0;
        while i < n
            invariant
                n == store.subjects@.len(),
                i <= n,
                doc_views(docs@) =~= row_views(store.subjects@).map_values(
                    |rv: RowV| doc_of_row(rv),
                ).take(i as int),
            decreases n - i,
        {
            let row = &store.subjects[i];
            let ghost rv = row_views(store.subjects@)[i as int];
            proof {
                assert(row_views(store.subjects@).len() == store.subjects@.len());
                assert(rv == row_view(store.subjects@[i as int]));
                assert(rv.aliases == crate::store::alias_views(row.aliases@));
                assert(rv.aliases.len() == row.aliases@.len());
            }
            // Join the alias names with single spaces.
            let mut joined: Vec<char> = Vec::new();
            let an: usize = row.aliases.len();
            let mut j: usize = 0;
            proof {
                let names = Seq::new(rv.aliases.len(), |q: int| rv.aliases[q].0);
                assert(joined@ =~= join_spaces(names.take(0)));
            }
            while j < an
                invariant
                    rv == row_view(*row),
                    an == row.aliases@.len(),
                    an == rv.aliases.len(),
                    j <= an,
                    joined@ == join_spaces(
                        Seq::new(rv.aliases.len(), |q: int| rv.aliases[q].0).take(j as int),
                    ),
                decreases an - j,
            {
                if j > 0 {
                    joined.push(' ');
                }
                let name_chars = to_chars(row.aliases[j].name.as_str());
                let mut q: usize = 0;
                let ghost base = joined@;
                while q < name_chars.len()
                    invariant
                        an == row.aliases@.len(),
                        j < an,
                        name_chars@ == row.aliases@[j as int].name@,
                        q <= name_chars@.len(),
                        joined@ == base + name_chars@.take(q as int),
                    decreases name_chars@.len() - q,
                {
                    joined.push(name_chars[q]);
                    proof {
                        assert(joined@ =~= base + name_chars@.take(q + 1));
                    }
                    q = q + 1;
                }
                proof {
                    let names = Seq::new(rv.aliases.len(), |t: int| rv.aliases[t].0);
                    assert(name_chars@.take(name_chars@.len() as int) =~= name_chars@);
                    assert(names[j as int] == rv.aliases[j as int].0);
                    assert(rv.aliases[j as int].0 == row.aliases@[j as int].name@);
                    crate::normalize::lemma_join_take_step(names, j as int);
                    assert(joined@ =~= join_spaces(names.take(j + 1)));
                }
                j = j + 1;
            }
            proof {
                let names = Seq::new(rv.aliases.len(), |q: int| rv.aliases[q].0);
                assert(names.take(names.len() as int) =~= names);
            }
            let joined_str = chars_to_string(&joined);
            let doc = IndexedDoc {
                subject_id: row.id.clone(),
                primary_name: normalize_for_index(row.primary_name.as_str()),
                aliases: normalize_for_index(joined_str.as_str()),
                country: match &row.country {
                    Option::Some(c) => c.clone(),
                    Option::None => String::new(),
                },
                dob_year: row.date_of_birth_year,
                source: row.source.clone(),
                kind: row.kind.clone(),
            };
            proof {
                assert(doc_views(docs@).len() == docs@.len());
                assert(docs@.len() == i as int);
            }
            docs.push(doc);
            proof {
                let names = Seq::new(rv.aliases.len(), |q: int| rv.aliases[q].0);
                assert(joined_str@ == alias_concat(rv));
                assert(docs@.len() == i + 1);
                assert(doc_view(docs@[i as int]) == doc_of_row(rv));
                let mapped = row_views(store.subjects@).map_values(|rv2: RowV| doc_of_row(rv2));
                assert(row_views(store.subjects@).len() == store.subjects@.len());
                assert(mapped[i as int] == doc_of_row(row_views(store.subjects@)[i as int]));
                assert(doc_views(docs@) =~= mapped.take(i + 1));
            }
            i = i + 1;
        }
        proof {
            let full = row_views(store.subjects@).map_values(|rv2: RowV| doc_of_row(rv2));
            assert(full.take(full.len() as int) =~= full);
        }
        SearchIndex { docs }
    }

    /// How many documents the index holds.
    pub fn doc_count(&self) -> (r: usize)
        ensures
            r == self.docs@.len(),
    {
        self.docs.len()
    }
}

/// The longer sequence equals the shorter with one character dropped,
/// checked at the first disagreement.
pub open spec fn drop_one_eq(long: Seq<char>, short: Seq<char>) -> bool
    decreases long.len(),
    when long.len() == short.len() + 1
{
    if short.len() == 0 {
        true
    } else if long[0] == short[0] {
        drop_one_eq(long.drop_first(), short.drop_first())
    } else {
        long.drop_first() == short
    }
}

/// Equal-length sequences that differ by one substitution or one adjacent
/// transposition.
pub open spec fn sub_or_trans(a: Seq<char>, b: Seq<char>) -> bool
    decreases a.len(),
    when a.len() == b.len()
{
    if a.len() == 0 {
        false
    } else if a[0] == b[0] {
        sub_or_trans(a.drop_first(), b.drop_first())
    } else {
        (a.drop_first() == b.drop_first()) || (a.len() >= 2 && a[0] == b[1] && a[1] == b[0]
            && a.skip(2) == b.skip(2))
    }
}

/// Damerau-Levenshtein distance at most one: equality, one substitution,
/// one adjacent transposition, or one insertion or deletion.
pub open spec fn within_edit1(a: Seq<char>, b: Seq<char>) -> bool {
    if a == b {
        true
    } else if a.len() == b.len() {
        sub_or_trans(a, b)
    } else if a.len() == b.len() + 1 {
        drop_one_eq(a, b)
    } else if b.len() == a.len() + 1 {
        drop_one_eq(b, a)
    } else {
        false
    }
}

/// Whether the two sequences agree from position `i` on.
fn tails_equal(a: &Vec<char>, b: &Vec<char>, ai: usize, bi: usize) -> (r: bool)
    requires
        ai <= a@.len(),
        bi <= b@.len(),
    ensures
        r == (a@.skip(ai as int) == b@.skip(bi as int)),
{
    let la: usize = a.len();
    let lb: usize = b.len();
    if la - ai != lb - bi {
        proof {
            assert(a@.skip(ai as int).len() != b@.skip(bi as int).len());
        }
        return false;
    }
    let m: usize = la - ai;
    let mut q: usize = 0;
    while q < m
        invariant
            la == a@.len(),
            lb == b@.len(),
            ai + m == la,
            bi + m == lb,
            q <= m,
            forall|t: int| 0 <= t < q ==> a@[ai + t] == #[trigger] b@[bi + t],
        decreases m - q,
    {
        if a[ai + q] != b[bi + q] {
            proof {
                assert(a@.skip(ai as int)[q as int] != b@.skip(bi as int)[q as int]);
            }
            return false;
        }
        q = q + 1;
    }
    proof {
        assert forall|t: int| 0 <= t < m implies a@.skip(ai as int)[t] == b@.skip(bi as int)[t] by {
            assert(a@[ai + t] == b@[bi + t]);
        }
        assert(a@.skip(ai as int) =~= b@.skip(bi as int));
    }
    true
}

/// Decides Damerau-Levenshtein distance at most one.
pub fn edit1_chars(a: &Vec<char>, b: &Vec<char>) -> (r: bool)
    ensures
        r == within_edit1(a@, b@),
{
    let la: usize = a.len();
    let lb: usize = b.len();
    if la == lb {
        // Scan to the first disagreement.
        let mut i: usize = 0;
        proof {
            assert(a@.skip(0) =~= a@);
            assert(b@.skip(0) =~= b@);
            assert(a@.take(0) =~= b@.take(0));
        }
        loop
            invariant_except_break
                la == a@.len(),
                lb == b@.len(),
                la == lb,
                i <= la,
                a@.take(i as int) == b@.take(i as int),
                sub_or_trans(a@, b@) == sub_or_trans(a@.skip(i as int), b@.skip(i as int)),
                (a@ == b@) == (a@.skip(i as int) == b@.skip(i as int)),
            ensures
                true,
            decreases la - i,
        {
            if i >= la {
                proof {
                    assert(a@.skip(i as int) =~= b@.skip(i as int));
                }
                return true;
            }
            proof {
                assert(a@.skip(i as int)[0] == a@[i as int]);
                assert(b@.skip(i as int)[0] == b@[i as int]);
                assert(a@.skip(i as int).drop_first() =~= a@.skip(i + 1));
                assert(b@.skip(i as int).drop_first() =~= b@.skip(i + 1));
            }
            if a[i] != b[i] {
                // One substitution?
                proof {
                    assert(a@.skip(i as int) != b@.skip(i as int));
                    assert(a@ != b@);
                }
                if tails_equal(a, b, i + 1, i + 1) {
                    return true;
                }
                // One adjacent transposition?
                if i + 1 < la && a[i] == b[i + 1] && a[i + 1] == b[i] {
                    proof {
                        assert(a@.skip(i as int)[1] == a@[i + 1]);
                        assert(b@.skip(i as int)[1] == b@[i + 1]);
                        assert(a@.skip(i as int).skip(2) =~= a@.skip(i + 2));
                        assert(b@.skip(i as int).skip(2) =~= b@.skip(i + 2));
                    }
                    let tr = tails_equal(a, b, i + 2, i + 2);
                    proof {
                        assert(tr == (a@.skip(i as int).skip(2) == b@.skip(i as int).skip(2)));
                    }
                    return tr;
                }
                proof {
                    if a@.skip(i as int).len() >= 2 && a@.skip(i as int)[0] == b@.skip(i as int)[1]
                        && a@.skip(i as int)[1] == b@.skip(i as int)[0] {
                        assert(a@[i as int] == b@[i + 1] && a@[i + 1] == b@[i as int]);
                        assert(i + 1 < la);
                    }
                }
                return false;
            }
            proof {
                assert(a@.take(i + 1) =~= b@.take(i + 1));
                if a@.skip(i + 1) == b@.skip(i + 1) {
                    assert forall|t: int| 0 <= t < a@.skip(i as int).len() implies a@.skip(
                        i as int,
                    )[t] == b@.skip(i as int)[t] by {
                        if t == 0 {
                        } else {
                            assert(a@.skip(i as int)[t] == a@.skip(i + 1)[t - 1]);
                            assert(b@.skip(i as int)[t] == b@.skip(i + 1)[t - 1]);
                        }
                    }
                    assert(a@.skip(i as int) =~= b@.skip(i as int));
                }
            }
            i = i + 1;
        }
    } else if lb < la && la - lb == 1 {
        edit1_drop(a, b)
    } else if la < lb && lb - la == 1 {
        edit1_drop(b, a)
    } else {
        false
    }
}

/// Decides whether dropping one character of `long` yields `short`.
fn edit1_drop(long: &Vec<char>, short: &Vec<char>) -> (r: bool)
    requires
        long@.len() == short@.len() + 1,
    ensures
        r == drop_one_eq(long@, short@),
{
    let mut i: usize = 0;
    proof {
        assert(long@.skip(0) =~= long@);
        assert(short@.skip(0) =~= short@);
    }
    loop
        invariant_except_break
            long@.len() == short@.len() + 1,
            i <= short@.len(),
            drop_one_eq(long@, short@) == drop_one_eq(long@.skip(i as int), short@.skip(i as int)),
        ensures
            true,
        decreases short@.len() - i,
    {
        if i >= short.len() {
            proof {
                assert(short@.skip(i as int).len() == 0);
            }
            return true;
        }
        proof {
            assert(long@.skip(i as int)[0] == long@[i as int]);
            assert(short@.skip(i as int)[0] == short@[i as int]);
            assert(long@.skip(i as int).drop_first() =~= long@.skip(i + 1));
            assert(short@.skip(i as int).drop_first() =~= short@.skip(i + 1));
        }
        if long[i] != short[i] {
            let tr = tails_equal(long, short, i + 1, i);
            proof {
                assert(tr == (long@.skip(i as int).drop_first() == short@.skip(i as int)));
            }
            return tr;
        }
        i = i + 1;
    }
}

/// One retrieval hit, carrying the stored document fields.
#[derive(Clone, Debug)]
pub struct SearchHit {
    pub subject_id: String,
    pub primary_name: String,
    pub country: Option<String>,
    pub dob_year: Option<i32>,
    pub source: String,
    pub kind: String,
}

/// The mathematical content of one hit.
pub ghost struct HitV {
    pub subject_id: Seq<char>,
    pub primary_name: Seq<char>,
    pub country: Option<Seq<char>>,
    pub dob_year: Option<int>,
    pub source: Seq<char>,
    pub kind: Seq<char>,
}

pub open spec fn hit_view(h: SearchHit) -> HitV {
    HitV {
        subject_id: h.subject_id@,
        primary_name: h.primary_name@,
        country: match h.country {
            Option::Some(c) => Option::Some(c@),
            Option::None => Option::None,
        },
        dob_year: match h.dob_year {
            Option::Some(y) => Option::Some(y as int),
            Option::None => Option::None,
        },
        source: h.source@,
        kind: h.kind@,
    }
}

/// The hit a document materializes into: an empty country field reads as
/// no country.
pub open spec fn hit_of_doc(d: DocV) -> HitV {
    HitV {
        subject_id: d.subject_id,
        primary_name: d.primary_name,
        country: if d.country.len() == 0 {
            Option::None
        } else {
            Option::Some(d.country)
        },
        dob_year: d.dob_year,
        source: d.source,
        kind: d.kind,
    }
}

/// Whether a query token reaches a document: some token of its name or
/// alias text matches, exactly or within one edit when `fuzzy` holds.
pub open spec fn tok_matches(q: Seq<char>, t: Seq<char>, fuzzy: bool) -> bool {
    if fuzzy {
        within_edit1(q, t)
    } else {
        q == t
    }
}

pub open spec fn spec_doc_match(d: DocV, qts: Seq<Seq<char>>, fuzzy: bool) -> bool {
    (exists|qi: int, ti: int|
        0 <= qi < qts.len() && 0 <= ti < spec_tokens(d.primary_name).len() && tok_matches(
            #[trigger] qts[qi],
            #[trigger] spec_tokens(d.primary_name)[ti],
            fuzzy,
        )) || (exists|qi: int, ti: int|
        0 <= qi < qts.len() && 0 <= ti < spec_tokens(d.aliases).len() && tok_matches(
            #[trigger] qts[qi],
            #[trigger] spec_tokens(d.aliases)[ti],
            fuzzy,
        ))
}

/// Whether one query token matches one of the tokens.
fn any_tok_match(q: &Vec<char>, toks: &Vec<Vec<char>>, fuzzy: bool) -> (r: bool)
    ensures
        r == exists|ti: int|
            0 <= ti < toks@.len() && tok_matches(q@, (#[trigger] toks@[ti])@, fuzzy),
{
    let n: usize = toks.len();
    let mut ti: usize = 0;
    while ti < n
        invariant
            n == toks@.len(),
            ti <= n,
            forall|t: int| 0 <= t < ti ==> !tok_matches(q@, (#[trigger] toks@[t])@, fuzzy),
        decreases n - ti,
    {
        let hit = if fuzzy {
            edit1_chars(q, &toks[ti])
        } else {
            crate::strutil::chars_eq(q, &toks[ti])
        };
        if hit {
            proof {
                assert(tok_matches(q@, toks@[ti as int]@, fuzzy));
            }
            return true;
        }
        ti = ti + 1;
    }
    false
}

/// Splits an already-normalized text into character-vector tokens.
pub fn tokens_of_normalized(s: &str) -> (r: Vec<Vec<char>>)
    ensures
        crate::matching::views(r@) == spec_tokens(s@),
{
    let strs = crate::normalize::split_normalized(s);
    let n: usize = strs.len();
    let mut out: Vec<Vec<char>> = Vec::new();
    let mut i: usize = 0;
    while i < n
        invariant
            n == strs@.len(),
            strs@.map_values(|t: String| t@) == spec_tokens(s@),
            i <= n,
            out@.len() == i,
            forall|q: int| 0 <= q < i ==> (#[trigger] out@[q])@ == strs@.map_values(|t: String| t@)[q],
        decreases n - i,
    {
        out.push(to_chars(strs[i].as_str()));
        i = i + 1;
    }
    proof {
        assert(spec_tokens(s@).len() == strs@.map_values(|t: String| t@).len());
        assert(crate::matching::views(out@) =~= spec_tokens(s@));
    }
    out
}

/// Whether the document matches any of the query tokens.
pub fn doc_matches(doc: &IndexedDoc, qtoks: &Vec<Vec<char>>, fuzzy: bool) -> (r: bool)
    ensures
        r == spec_doc_match(doc_view(*doc), crate::matching::views(qtoks@), fuzzy),
{
    let ghost qv = crate::matching::views(qtoks@);
    let ntoks = tokens_of_normalized(doc.primary_name.as_str());
    let atoks = tokens_of_normalized(doc.aliases.as_str());
    let qn: usize = qtoks.len();
    let mut qi: usize = 0;
    while qi < qn
        invariant
            qv == crate::matching::views(qtoks@),
            qn == qtoks@.len(),
            qi <= qn,
            crate::matching::views(ntoks@) == spec_tokens(doc_view(*doc).primary_name),
            crate::matching::views(atoks@) == spec_tokens(doc_view(*doc).aliases),
            forall|q: int, t: int|
                0 <= q < qi && 0 <= t < spec_tokens(doc_view(*doc).primary_name).len()
                    ==> !tok_matches(
                    #[trigger] qv[q],
                    #[trigger] spec_tokens(doc_view(*doc).primary_name)[t],
                    fuzzy,
                ),
            forall|q: int, t: int|
                0 <= q < qi && 0 <= t < spec_tokens(doc_view(*doc).aliases).len() ==> !tok_matches(
                    #[trigger] qv[q],
                    #[trigger] spec_tokens(doc_view(*doc).aliases)[t],
                    fuzzy,
                ),
        decreases qn - qi,
    {
        let q = &qtoks[qi];
        proof {
            assert(qv[qi as int] == qtoks@[qi as int]@);
        }
        if any_tok_match(q, &ntoks, fuzzy) {
            proof {
                let ti = choose|ti: int|
                    0 <= ti < ntoks@.len() && tok_matches(q@, (#[trigger] ntoks@[ti])@, fuzzy);
                assert(crate::matching::views(ntoks@)[ti] == ntoks@[ti]@);
                assert(tok_matches(qv[qi as int], spec_tokens(doc_view(*doc).primary_name)[ti], fuzzy));
            }
            return true;
        }
        if any_tok_match(q, &atoks, fuzzy) {
            proof {
                let ti = choose|ti: int|
                    0 <= ti < atoks@.len() && tok_matches(q@, (#[trigger] atoks@[ti])@, fuzzy);
                assert(crate::matching::views(atoks@)[ti] == atoks@[ti]@);
                assert(tok_matches(qv[qi as int], spec_tokens(doc_view(*doc).aliases)[ti], fuzzy));
            }
            return true;
        }
        proof {
            assert forall|t: int|
                0 <= t < spec_tokens(doc_view(*doc).primary_name).len() implies !tok_matches(
                qv[qi as int],
                spec_tokens(doc_view(*doc).primary_name)[t],
                fuzzy,
            ) by {
                assert(crate::matching::views(ntoks@)[t] == ntoks@[t]@);
            }
            assert forall|t: int|
                0 <= t < spec_tokens(doc_view(*doc).aliases).len() implies !tok_matches(
                qv[qi as int],
                spec_tokens(doc_view(*doc).aliases)[t],
                fuzzy,
            ) by {
                assert(crate::matching::views(atoks@)[t] == atoks@[t]@);
            }
        }
        qi = qi + 1;
    }
    false
}

/// The hit stands for some document that the query reached.
pub open spec fn good_hit(h: SearchHit, docs: Seq<IndexedDoc>, qts: Seq<Seq<char>>, fuzzy: bool) -> bool {
    exists|j: int|
        0 <= j < docs.len() && hit_view(h) == hit_of_doc(#[trigger] doc_views(docs)[j])
            && spec_doc_match(doc_views(docs)[j], qts, fuzzy)
}

/// Materializes the hit of one document.
pub fn hit_from_doc(doc: &IndexedDoc) -> (r: SearchHit)
    ensures
        hit_view(r) == hit_of_doc(doc_view(*doc)),
{
    SearchHit {
        subject_id: doc.subject_id.clone(),
        primary_name: doc.primary_name.clone(),
        country: if doc.country.as_str().unicode_len() == 0 {
            Option::None
        } else {
            Option::Some(doc.country.clone())
        },
        dob_year: doc.dob_year,
        source: doc.source.clone(),
        kind: doc.kind.clone(),
    }
}

impl SearchIndex {
    /// Retrieves up to `limit` documents whose normalized name or alias
    /// text shares a token with the normalized query.
    pub fn search(&self, query: &str, limit: usize) -> (r: Vec<SearchHit>)
        ensures
            r@.len() <= limit,
            forall|i: int|
                0 <= i < r@.len() ==> #[trigger] good_hit(
                    r@[i],
                    self.docs@,
                    spec_tokens(folded(query@)),
                    false,
                ),
            r@.len() < limit ==> forall|j: int|
                0 <= j < self.docs@.len() && #[trigger] spec_doc_match(
                    doc_views(self.docs@)[j],
                    spec_tokens(folded(query@)),
                    false,
                ) ==> exists|i: int|
                    0 <= i < r@.len() && (#[trigger] r@[i]).subject_id@ == doc_views(
                        self.docs@,
                    )[j].subject_id,
    {
        let nq = normalize_name(query);
        let qtoks = tokens_of_normalized(nq.as_str());
        proof {
            crate::normalize::lemma_tokens_of_normalized(query@);
        }
        let mut hits: Vec<SearchHit> = Vec::new();
        let n: usize = self.docs.len();
        let mut i: usize = 0;
        loop
            invariant
                n == self.docs@.len(),
                i <= n,
                crate::matching::views(qtoks@) == spec_tokens(folded(query@)),
                hits@.len() <= limit,
                forall|p: int|
                    0 <= p < hits@.len() ==> #[trigger] good_hit(
                        hits@[p],
                        self.docs@,
                        spec_tokens(folded(query@)),
                        false,
                    ),
                forall|j: int|
                    0 <= j < i && #[trigger] spec_doc_match(
                        doc_views(self.docs@)[j],
                        spec_tokens(folded(query@)),
                        false,
                    ) ==> exists|p: int|
                        0 <= p < hits@.len() && (#[trigger] hits@[p]).subject_id@ == doc_views(
                            self.docs@,
                        )[j].subject_id,
            ensures
                hits@.len() <= limit,
                forall|p: int|
                    0 <= p < hits@.len() ==> #[trigger] good_hit(
                        hits@[p],
                        self.docs@,
                        spec_tokens(folded(query@)),
                        false,
                    ),
                hits@.len() < limit ==> forall|j: int|
                    0 <= j < n && #[trigger] spec_doc_match(
                        doc_views(self.docs@)[j],
                        spec_tokens(folded(query@)),
                        false,
                    ) ==> exists|p: int|
                        0 <= p < hits@.len() && (#[trigger] hits@[p]).subject_id@ == doc_views(
                            self.docs@,
                        )[j].subject_id,
            decreases n - i,
        {
            if i >= n {
                break;
            }
            if hits.len() >= limit {
                break;
            }
            let doc = &self.docs[i];
            let ghost hits0 = hits@;
            if doc_matches(doc, &qtoks, false) {
                let h = hit_from_doc(doc);
                proof {
                    assert(doc_views(self.docs@)[i as int] == doc_view(self.docs@[i as int]));
                    assert(good_hit(h, self.docs@, spec_tokens(folded(query@)), false));
                }
                hits.push(h);
                proof {
                    assert(hits@.last() == h);
                    assert(h.subject_id@ == doc_views(self.docs@)[i as int].subject_id);
                }
            }
            proof {
                assert forall|j: int|
                    0 <= j < i + 1 && #[trigger] spec_doc_match(
                        doc_views(self.docs@)[j],
                        spec_tokens(folded(query@)),
                        false,
                    ) implies exists|p: int|
                    0 <= p < hits@.len() && (#[trigger] hits@[p]).subject_id@ == doc_views(
                        self.docs@,
                    )[j].subject_id by {
                    if j < i {
                        let p = choose|p: int|
                            0 <= p < hits0.len() && (#[trigger] hits0[p]).subject_id@ == doc_views(
                                self.docs@,
                            )[j].subject_id;
                        assert(hits@[p] == hits0[p]);
                    }
                }
            }
            i = i + 1;
        }
        hits
    }
}

} // verus!
