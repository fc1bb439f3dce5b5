//! Name normalization: Unicode decomposition, mark stripping, lowercasing
//! and whitespace collapse.
//!
//! A name is normalized by decomposing it to Unicode NFD, dropping the
//! combining diacritical marks U+0300 through U+036F, lowercasing, and
//! collapsing whitespace runs to single spaces with no leading or trailing
//! space.  Decomposition and lowercasing are outside calls whose results
//! carry names; the mark filter and the whitespace collapse are verified
//! here.

use vstd::prelude::*;
use unicode_normalization::UnicodeNormalization;
use crate::strutil::{to_chars, chars_to_string, push_char};

verus! {

/// Combining diacritical marks: dropped entirely.
pub open spec fn is_mark(c: char) -> bool {
    0x300 <= c as u32 <= 0x36F
}

/// Whitespace for the purpose of token splitting.
pub open spec fn is_space_char(c: char) -> bool {
    c == ' ' || c == '\t' || c == '\n' || c == '\r' || c == '\u{000B}' || c == '\u{000C}'
}

/// Executable twin of [`is_mark`].
pub fn is_mark_char(c: char) -> (r: bool)
    ensures
        r == is_mark(c),
{
    let u = c as u32;
    0x300 <= u && u <= 0x36F
}

/// Executable twin of [`is_space_char`].
pub fn is_space(c: char) -> (r: bool)
    ensures
        r == is_space_char(c),
{
    c == ' ' || c == '\t' || c == '\n' || c == '\r' || c == '\u{000B}' || c == '\u{000C}'
}

/// What Unicode NFD decomposition makes of a character sequence: a
/// function of the characters alone.
pub uninterp spec fn nfd_of(s: Seq<char>) -> Seq<char>;

/// What Unicode lowercasing makes of a character sequence: a function of
/// the characters alone.
pub uninterp spec fn lower_of(s: Seq<char>) -> Seq<char>;

/// Relies on `unicode_normalization::UnicodeNormalization::nfd`: the
/// canonical decomposition of the text, a function of its characters.
#[verifier::external_body]
fn nfd_str(s: &str) -> (r: String)
    ensures
        r@ == nfd_of(s@),
        s@.len() == 0 ==> r@.len() == 0,
{
    s.nfd().collect()
}

/// Relies on `str::to_lowercase`: the result depends on the characters
/// alone.
#[verifier::external_body]
fn lowercase_str(s: &str) -> (r: String)
    ensures
        r@ == lower_of(s@),
        s@.len() == 0 ==> r@.len() == 0,
{
    s.to_lowercase()
}

/// Drops the combining diacritical marks of a sequence.
pub open spec fn strip_marks(s: Seq<char>) -> Seq<char>
    decreases s.len(),
{
    if s.len() == 0 {
        Seq::empty()
    } else if is_mark(s[0]) {
        strip_marks(s.drop_first())
    } else {
        seq![s[0]] + strip_marks(s.drop_first())
    }
}

/// Mark stripping distributes over concatenation.
pub proof fn lemma_strip_concat(a: Seq<char>, b: Seq<char>)
    ensures
        strip_marks(a + b) == strip_marks(a) + strip_marks(b),
    decreases a.len(),
{
    if a.len() == 0 {
        assert(a + b =~= b);
        assert(strip_marks(a) + strip_marks(b) =~= strip_marks(b));
    } else {
        assert((a + b).drop_first() =~= a.drop_first() + b);
        lemma_strip_concat(a.drop_first(), b);
        if !is_mark(a[0]) {
            assert(seq![a[0]] + (strip_marks(a.drop_first()) + strip_marks(b)) =~= (seq![a[0]]
                + strip_marks(a.drop_first())) + strip_marks(b));
        }
    }
}

/// Dropping the marks twice drops them once.
pub proof fn lemma_strip_idempotent(s: Seq<char>)
    ensures
        strip_marks(strip_marks(s)) == strip_marks(s),
    decreases s.len(),
{
    if s.len() == 0 {
        assert(strip_marks(strip_marks(s)) =~= strip_marks(s));
    } else if is_mark(s[0]) {
        lemma_strip_idempotent(s.drop_first());
    } else {
        lemma_strip_idempotent(s.drop_first());
        assert(strip_marks(s) =~= seq![s[0]] + strip_marks(s.drop_first()));
        assert(strip_marks(s).drop_first() =~= strip_marks(s.drop_first()));
    }
}

pub open spec fn token_len(s: Seq<char>) -> nat
    decreases s.len(),
{
    if s.len() == 0 || is_space_char(s[0]) {
        0
    } else {
        1 + token_len(s.drop_first())
    }
}

pub proof fn lemma_token_len_le(s: Seq<char>)
    ensures
        token_len(s) <= s.len(),
    decreases s.len(),
{
    if s.len() == 0 || is_space_char(s[0]) {
    } else {
        lemma_token_len_le(s.drop_first());
    }
}

/// The first `token_len` characters are non-spaces, and the character after
/// them, if any, is a space.
pub proof fn lemma_token_len_chars(s: Seq<char>)
    ensures
        forall|m: int| 0 <= m < token_len(s) ==> !is_space_char(s[m]),
        token_len(s) < s.len() ==> is_space_char(s[token_len(s) as int]),
    decreases s.len(),
{
    lemma_token_len_le(s);
    if s.len() == 0 || is_space_char(s[0]) {
    } else {
        lemma_token_len_chars(s.drop_first());
        assert forall|m: int| 0 <= m < token_len(s) implies !is_space_char(s[m]) by {
            if m > 0 {
                assert(s[m] == s.drop_first()[m - 1]);
            }
        }
        if token_len(s) < s.len() {
            assert(s[token_len(s) as int] == s.drop_first()[token_len(s.drop_first()) as int]);
        }
    }
}

/// If the first `k` characters are non-spaces and position `k` is the end or
/// a space, the maximal non-space prefix has length exactly `k`.
pub proof fn lemma_token_len_exact(s: Seq<char>, k: nat)
    requires
        k <= s.len(),
        forall|m: int| 0 <= m < k ==> !is_space_char(s[m]),
        k < s.len() ==> is_space_char(s[k as int]),
    ensures
        token_len(s) == k,
    decreases k,
{
    if k == 0 {
    } else {
        assert(!is_space_char(s[0]));
        lemma_token_len_exact(s.drop_first(), (k - 1) as nat);
    }
}

/// Splits a sequence into its maximal non-space runs.
pub open spec fn spec_tokens(s: Seq<char>) -> Seq<Seq<char>>
    decreases s.len(),
    via spec_tokens_decreases
{
    if s.len() == 0 {
        Seq::empty()
    } else if is_space_char(s[0]) {
        spec_tokens(s.drop_first())
    } else {
        seq![s.take(token_len(s) as int)] + spec_tokens(s.skip(token_len(s) as int))
    }
}

#[via_fn]
proof fn spec_tokens_decreases(s: Seq<char>) {
    lemma_token_len_le(s);
}

/// Joins tokens with single spaces.
pub open spec fn join_spaces(ts: Seq<Seq<char>>) -> Seq<char>
    decreases ts.len(),
{
    if ts.len() == 0 {
        Seq::empty()
    } else if ts.len() == 1 {
        ts[0]
    } else {
        ts[0] + seq![' '] + join_spaces(ts.drop_first())
    }
}


/// The name with its marks dropped and its case folded, before the
/// whitespace collapse.
pub open spec fn folded(s: Seq<char>) -> Seq<char> {
    lower_of(strip_marks(nfd_of(s)))
}

/// The normalized form of a name.
pub open spec fn spec_normalize(s: Seq<char>) -> Seq<char> {
    join_spaces(spec_tokens(folded(s)))
}

/// Filters the combining marks out of a character vector.
fn strip_chars(v: &Vec<char>) -> (r: Vec<char>)
    ensures
        r@ == strip_marks(v@),
{
    let mut r: Vec<char> = Vec::new();
    let mut i: usize = 0;
    while i < v.len()
        invariant
            i <= v@.len(),
            r@ == strip_marks(v@.take(i as int)),
        decreases v@.len() - i,
    {
        let c = v[i];
        proof {
            reveal_with_fuel(strip_marks, 3);
            assert(v@.take(i + 1) =~= v@.take(i as int) + seq![v@[i as int]]);
            lemma_strip_concat(v@.take(i as int), seq![v@[i as int]]);
            assert(seq![v@[i as int]].drop_first() =~= Seq::<char>::empty());
        }
        if !is_mark_char(c) {
            r.push(c);
            proof {
                reveal_with_fuel(strip_marks, 3);
                assert(strip_marks(seq![v@[i as int]]) =~= seq![v@[i as int]]);
                assert(r@ =~= strip_marks(v@.take(i as int)) + strip_marks(seq![v@[i as int]]));
            }
        } else {
            proof {
                reveal_with_fuel(strip_marks, 3);
                assert(strip_marks(seq![v@[i as int]]) =~= Seq::<char>::empty());
                assert(r@ =~= strip_marks(v@.take(i as int)) + strip_marks(seq![v@[i as int]]));
            }
        }
        i = i + 1;
    }
    proof {
        assert(v@.take(v@.len() as int) =~= v@);
    }
    r
}

fn split_tokens(v: &Vec<char>) -> (r: Vec<String>)
    ensures
        r@.map_values(|t: String| t@) == spec_tokens(v@),
{
    let n: usize = v.len();
    let mut toks: Vec<String> = Vec::new();
    proof {
        assert(v@.skip(0) =~= v@);
        assert(toks@.map_values(|t: String| t@) =~= Seq::<Seq<char>>::empty());
        assert(Seq::<Seq<char>>::empty() + spec_tokens(v@) =~= spec_tokens(v@));
    }
    let mut i: usize = 0;
    while i < n
        invariant
            n == v@.len(),
            i <= n,
            toks@.map_values(|t: String| t@) + spec_tokens(v@.skip(i as int)) == spec_tokens(v@),
        decreases n - i,
    {
        if is_space(v[i]) {
            proof {
                assert(v@.skip(i as int)[0] == v@[i as int]);
                assert(v@.skip(i as int).drop_first() =~= v@.skip(i + 1));
                assert(spec_tokens(v@.skip(i as int)) == spec_tokens(v@.skip(i + 1)));
            }
            i = i + 1;
        } else {
            let start: usize = i;
            let mut cur: Vec<char> = Vec::new();
            cur.push(v[i]);
            let mut j: usize = i + 1;
            loop
                invariant
                    n == v@.len(),
                    start < j <= n,
                    cur@ == v@.subrange(start as int, j as int),
                    forall|m: int| start <= m < j ==> !is_space_char(v@[m]),
                ensures
                    n == v@.len(),
                    start < j <= n,
                    cur@ == v@.subrange(start as int, j as int),
                    forall|m: int| start <= m < j ==> !is_space_char(v@[m]),
                    j == n || is_space_char(v@[j as int]),
                decreases n - j,
            {
                if j >= n {
                    break;
                }
                if is_space(v[j]) {
                    break;
                }
                cur.push(v[j]);
                proof {
                    assert(cur@ =~= v@.subrange(start as int, j + 1));
                }
                j = j + 1;
            }
            proof {
                let rest = v@.skip(start as int);
                assert forall|m: int| 0 <= m < (j - start) implies !is_space_char(rest[m]) by {
                    assert(rest[m] == v@[start + m]);
                }
                if j < n {
                    assert(rest[(j - start) as int] == v@[j as int]);
                }
                lemma_token_len_exact(rest, (j - start) as nat);
                assert(rest.take((j - start) as int) =~= v@.subrange(start as int, j as int));
                assert(rest.skip((j - start) as int) =~= v@.skip(j as int));
                assert(spec_tokens(rest) == seq![cur@] + spec_tokens(v@.skip(j as int)));
            }
            let ts = chars_to_string(&cur);
            toks.push(ts);
            proof {
                assert(toks@.map_values(|t: String| t@) =~= toks@.drop_last().map_values(
                    |t: String| t@,
                ).push(cur@));
                assert(toks@.drop_last().map_values(|t: String| t@).push(cur@) + spec_tokens(
                    v@.skip(j as int),
                ) =~= toks@.drop_last().map_values(|t: String| t@) + (seq![cur@] + spec_tokens(
                    v@.skip(j as int),
                )));
            }
            i = j;
        }
    }
    proof {
        assert(v@.skip(n as int) =~= Seq::<char>::empty());
        assert(toks@.map_values(|t: String| t@) + Seq::<Seq<char>>::empty() =~= toks@.map_values(
            |t: String| t@,
        ));
    }
    toks
}

/// Joining one more token appends a separating space (except before the

pub proof fn lemma_join_take_step(ts: Seq<Seq<char>>, i: int)
    requires
        0 <= i < ts.len(),
    ensures
        join_spaces(ts.take(i + 1)) == join_spaces(ts.take(i)) + (if i == 0 {
            Seq::<char>::empty()
        } else {
            seq![' ']
        }) + ts[i],
    decreases i,
{
    if i == 0 {
        assert(ts.take(1).len() == 1);
        assert(join_spaces(ts.take(1)) == ts.take(1)[0]);
        assert(join_spaces(ts.take(1)) =~= join_spaces(ts.take(0)) + Seq::<char>::empty() + ts[0]);
    } else {
        let d = ts.drop_first();
        lemma_join_take_step(d, i - 1);
        assert(ts.take(i + 1).drop_first() =~= d.take(i));
        assert(ts.take(i).drop_first() =~= d.take(i - 1));
        assert(ts.take(i + 1)[0] == ts[0]);
        assert(ts.take(i)[0] == ts[0]);
        if i == 1 {
            assert(join_spaces(ts.take(2)) == ts[0] + seq![' '] + join_spaces(d.take(1)));
            assert(d.take(1).len() == 1);
            assert(join_spaces(d.take(1)) == d[0]);
            assert(join_spaces(ts.take(1)) == ts[0]);
            assert(join_spaces(ts.take(2)) =~= join_spaces(ts.take(1)) + seq![' '] + ts[1]);
        } else {
            assert(join_spaces(ts.take(i + 1)) == ts[0] + seq![' '] + join_spaces(d.take(i)));
            assert(join_spaces(ts.take(i)) == ts[0] + seq![' '] + join_spaces(d.take(i - 1)));
            assert(join_spaces(d.take(i)) =~= join_spaces(d.take(i - 1)) + seq![' '] + d[i - 1]);
            assert(join_spaces(ts.take(i + 1)) =~= (ts[0] + seq![' '] + join_spaces(d.take(i - 1)))
                + seq![' '] + d[i - 1]);
            assert(d[i - 1] == ts[i]);
        }
    }
}


fn join_tokens(toks: &Vec<String>) -> (r: String)
    ensures
        r@ == join_spaces(toks@.map_values(|t: String| t@)),
{
    let ghost ts = toks@.map_values(|t: String| t@);
    let mut out = String::new();
    let mut i: usize = 0;
    while i < toks.len()
        invariant
            ts == toks@.map_values(|t: String| t@),
            i <= toks@.len(),
            out@ == join_spaces(ts.take(i as int)),
        decreases toks@.len() - i,
    {
        if i > 0 {
            push_char(&mut out, ' ');
        }
        let t: &String = &toks[i];
        out.append(t.as_str());
        proof {
            lemma_join_take_step(ts, i as int);
            if i == 0 {
                assert(out@ =~= join_spaces(ts.take(0)) + Seq::<char>::empty() + ts[0]);
            } else {
                assert(out@ =~= join_spaces(ts.take(i as int)) + seq![' '] + ts[i as int]);
            }
        }
        i = i + 1;
    }
    proof {
        assert(ts.take(toks@.len() as int) =~= ts);
    }
    out
}


pub fn split_normalized(s: &str) -> (r: Vec<String>)
    ensures
        r@.map_values(|t: String| t@) == spec_tokens(s@),
{
    let chars = to_chars(s);
    split_tokens(&chars)
}

/// Normalizes a name into its list of tokens: accents folded, lowercased,

/// Decomposes, strips marks and lowercases a name, without the
/// whitespace collapse.
fn fold_text(value: &str) -> (r: String)
    ensures
        r@ == folded(value@),
{
    let decomposed = nfd_str(value);
    let stripped = strip_chars(&to_chars(decomposed.as_str()));
    lowercase_str(chars_to_string(&stripped).as_str())
}

/// Normalizes a name into its list of tokens: decomposed, marks dropped,
/// lowercased, split at whitespace.
pub fn normalize_tokens(value: &str) -> (r: Vec<String>)
    ensures
        r@.map_values(|t: String| t@) == spec_tokens(folded(value@)),
{
    let flat = fold_text(value);
    split_tokens(&to_chars(flat.as_str()))
}

/// Normalizes a name: decomposed to NFD, combining marks dropped,
/// lowercased, whitespace collapsed to single spaces with no leading or
/// trailing space.
pub fn normalize_name(value: &str) -> (r: String)
    ensures
        r@ == spec_normalize(value@),
{
    let toks = normalize_tokens(value);
    join_tokens(&toks)
}

/// Every token of a split is nonempty and free of whitespace.
pub proof fn lemma_tokens_basic(s: Seq<char>)
    ensures
        forall|k: int| 0 <= k < spec_tokens(s).len() ==> (#[trigger] spec_tokens(s)[k]).len() >= 1,
        forall|k: int, m: int|
            0 <= k < spec_tokens(s).len() && 0 <= m < spec_tokens(s)[k].len() ==> !is_space_char(
                #[trigger] spec_tokens(s)[k][m],
            ),
    decreases s.len(),
{
    lemma_token_len_le(s);
    if s.len() == 0 {
    } else if is_space_char(s[0]) {
        lemma_tokens_basic(s.drop_first());
        assert(spec_tokens(s) == spec_tokens(s.drop_first()));
    } else {
        let tl = token_len(s) as int;
        let head = s.take(tl);
        let rest = s.skip(tl);
        lemma_token_len_chars(s);
        lemma_tokens_basic(rest);
        assert(head.len() >= 1);
        assert forall|m: int| 0 <= m < head.len() implies !is_space_char(#[trigger] head[m]) by {
            assert(head[m] == s[m]);
        }
        assert forall|k: int| 0 <= k < spec_tokens(s).len() implies (#[trigger] spec_tokens(
            s,
        )[k]).len() >= 1 by {
            if k > 0 {
                assert(spec_tokens(s)[k] == spec_tokens(rest)[k - 1]);
            }
        }
        assert forall|k: int, m: int|
            0 <= k < spec_tokens(s).len() && 0 <= m < spec_tokens(s)[k].len() implies !is_space_char(
            #[trigger] spec_tokens(s)[k][m],
        ) by {
            if k > 0 {
                assert(spec_tokens(s)[k] == spec_tokens(rest)[k - 1]);
            }
        }
    }
}

proof fn lemma_token_len_full(t: Seq<char>)
    requires
        forall|m: int| 0 <= m < t.len() ==> !is_space_char(#[trigger] t[m]),
    ensures
        token_len(t) == t.len(),
{
    lemma_token_len_exact(t, t.len());
}


pub proof fn lemma_tokens_of_join(ts: Seq<Seq<char>>)
    requires
        forall|k: int| 0 <= k < ts.len() ==> #[trigger] ts[k].len() >= 1,
        forall|k: int, m: int|
            0 <= k < ts.len() && 0 <= m < ts[k].len() ==> !is_space_char(#[trigger] ts[k][m]),
    ensures
        spec_tokens(join_spaces(ts)) == ts,
    decreases ts.len(),
{
    if ts.len() == 0 {
        assert(spec_tokens(join_spaces(ts)) =~= ts);
    } else if ts.len() == 1 {
        let t = ts[0];
        assert(join_spaces(ts) == t);
        assert forall|m: int| 0 <= m < t.len() implies !is_space_char(#[trigger] t[m]) by {
            assert(!is_space_char(ts[0][m]));
        }
        lemma_token_len_full(t);
        assert(t.take(t.len() as int) =~= t);
        assert(t.skip(t.len() as int) =~= Seq::<char>::empty());
        assert(spec_tokens(Seq::<char>::empty()) =~= Seq::<Seq<char>>::empty());
        assert(t.len() >= 1 && !is_space_char(t[0]));
        assert(spec_tokens(t) =~= ts);
    } else {
        let d = ts.drop_first();
        let h = ts[0];
        let s = join_spaces(ts);
        assert(s == h + seq![' '] + join_spaces(d));
        assert forall|k: int| 0 <= k < d.len() implies #[trigger] d[k].len() >= 1 by {
            assert(d[k] == ts[k + 1]);
        }
        assert forall|k: int, m: int|
            0 <= k < d.len() && 0 <= m < d[k].len() implies !is_space_char(
            #[trigger] d[k][m],
        ) by {
            assert(d[k] == ts[k + 1]);
        }
        lemma_tokens_of_join(d);
        assert forall|m: int| 0 <= m < h.len() implies !is_space_char(#[trigger] s[m]) by {
            assert(s[m] == h[m]);
        }
        assert(s[h.len() as int] == ' ');
        lemma_token_len_exact(s, h.len());
        assert(s.take(h.len() as int) =~= h);
        assert(s.len() > 0 && !is_space_char(s[0]));
        let rest = s.skip(h.len() as int);
        assert(rest[0] == ' ');
        assert(rest.drop_first() =~= join_spaces(d));
        assert(spec_tokens(rest) == spec_tokens(join_spaces(d)));
        assert(spec_tokens(s) == seq![h] + spec_tokens(rest));
        assert(seq![h] + d =~= ts);
    }
}

/// Splitting a normalized name gives the same tokens as splitting the

/// Splitting a normalized name gives the same tokens as splitting the
/// folded name: the join added only single separating spaces.
pub proof fn lemma_tokens_of_normalized(s: Seq<char>)
    ensures
        spec_tokens(spec_normalize(s)) == spec_tokens(folded(s)),
{
    lemma_tokens_basic(folded(s));
    lemma_tokens_of_join(spec_tokens(folded(s)));
}

/// The whitespace collapse is idempotent: collapsing a collapsed text
/// changes nothing.
pub proof fn lemma_collapse_idempotent(s: Seq<char>)
    ensures
        join_spaces(spec_tokens(join_spaces(spec_tokens(s)))) == join_spaces(spec_tokens(s)),
{
    lemma_tokens_basic(s);
    lemma_tokens_of_join(spec_tokens(s));
}

} // verus!
