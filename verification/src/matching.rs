//! Token-wise name matching.
//!
//! The parts score greedily assigns each input token to its most similar
//! unused subject token.  Input tokens are brought into a canonical
//! lexicographic order first, so the score depends only on the multiset of
//! input tokens, never on their order.

use vstd::prelude::*;
use vstd::relations::{sorted_by, total_ordering};
use vstd::seq_lib::lemma_sorted_unique;
use crate::similarity::{jaro_winkler, spec_jaro_winkler, lemma_jaro_winkler_range};

verus! {

/// The code point of a character.
fn char_code(c: char) -> (r: u32)
    ensures
        r as int == c as int,
{
    c as u32
}

/// Lexicographic order on character sequences, by code point.
pub open spec fn lex_le(a: Seq<char>, b: Seq<char>) -> bool
    decreases a.len(),
{
    if a.len() == 0 {
        true
    } else if b.len() == 0 {
        false
    } else if a[0] != b[0] {
        (a[0] as int) < (b[0] as int)
    } else {
        lex_le(a.drop_first(), b.drop_first())
    }
}

/// The lexicographic order as a relation value.
pub open spec fn lex_leq() -> spec_fn(Seq<char>, Seq<char>) -> bool {
    |x: Seq<char>, y: Seq<char>| lex_le(x, y)
}

proof fn lemma_lex_refl(a: Seq<char>)
    ensures
        lex_le(a, a),
    decreases a.len(),
{
    if a.len() > 0 {
        lemma_lex_refl(a.drop_first());
    }
}

proof fn lemma_lex_antisym(a: Seq<char>, b: Seq<char>)
    requires
        lex_le(a, b),
        lex_le(b, a),
    ensures
        a == b,
    decreases a.len(),
{
    if a.len() == 0 {
        assert(b.len() == 0);
        assert(a =~= b);
    } else {
        assert(b.len() > 0);
        assert(a[0] == b[0]);
        lemma_lex_antisym(a.drop_first(), b.drop_first());
        assert(a =~= seq![a[0]] + a.drop_first());
        assert(b =~= seq![b[0]] + b.drop_first());
    }
}

proof fn lemma_lex_trans(a: Seq<char>, b: Seq<char>, c: Seq<char>)
    requires
        lex_le(a, b),
        lex_le(b, c),
    ensures
        lex_le(a, c),
    decreases a.len(),
{
    if a.len() == 0 {
    } else if b.len() == 0 {
    } else if c.len() == 0 {
    } else {
        if a[0] == b[0] && b[0] == c[0] {
            lemma_lex_trans(a.drop_first(), b.drop_first(), c.drop_first());
        }
    }
}

proof fn lemma_lex_connected(a: Seq<char>, b: Seq<char>)
    ensures
        lex_le(a, b) || lex_le(b, a),
    decreases a.len(),
{
    if a.len() == 0 || b.len() == 0 {
    } else if a[0] == b[0] {
        lemma_lex_connected(a.drop_first(), b.drop_first());
    } else {
        assert(a[0] as int != b[0] as int);
    }
}

/// The lexicographic order is a total order.
pub proof fn lemma_lex_total_ordering()
    ensures
        total_ordering(lex_leq()),
{
    let leq = lex_leq();
    assert forall|a: Seq<char>| #[trigger] leq(a, a) by {
        lemma_lex_refl(a);
    }
    assert forall|a: Seq<char>, b: Seq<char>| #[trigger] leq(a, b) && #[trigger] leq(b, a)
        implies a == b by {
        lemma_lex_antisym(a, b);
    }
    assert forall|a: Seq<char>, b: Seq<char>, c: Seq<char>|
        #[trigger] leq(a, b) && #[trigger] leq(b, c) implies leq(a, c) by {
        lemma_lex_trans(a, b, c);
    }
    assert forall|a: Seq<char>, b: Seq<char>| !(#[trigger] leq(a, b)) implies leq(b, a) by {
        lemma_lex_connected(a, b);
    }
}

/// The views of a vector of character vectors.
pub open spec fn views(s: Seq<Vec<char>>) -> Seq<Seq<char>> {
    Seq::new(s.len(), |i: int| s[i]@)
}

pub broadcast proof fn lemma_views_len(s: Seq<Vec<char>>)
    ensures
        #[trigger] views(s).len() == s.len(),
{
}

pub broadcast proof fn lemma_views_index(s: Seq<Vec<char>>, i: int)
    requires
        0 <= i < s.len(),
    ensures
        #[trigger] views(s)[i] == s[i]@,
{
}


/// Compares two character vectors lexicographically.
pub fn lex_le_chars(a: &Vec<char>, b: &Vec<char>) -> (r: bool)
    ensures
        r == lex_le(a@, b@),
{
    let la: usize = a.len();
    let lb: usize = b.len();
    let mut i: usize = 0;
    proof {
        assert(a@.skip(0) =~= a@);
        assert(b@.skip(0) =~= b@);
    }
    loop
        invariant_except_break
            la == a@.len(),
            lb == b@.len(),
            i <= la,
            i <= lb,
            lex_le(a@, b@) == lex_le(a@.skip(i as int), b@.skip(i as int)),
            lex_le(b@, a@) == lex_le(b@.skip(i as int), a@.skip(i as int)),
        ensures
            true,
        decreases la - i,
    {
        if i >= la {
            proof {
                assert(a@.skip(i as int).len() == 0);
            }
            return true;
        }
        if i >= lb {
            proof {
                assert(b@.skip(i as int).len() == 0);
                assert(a@.skip(i as int).len() > 0);
            }
            return false;
        }
        let ca = a[i];
        let cb = b[i];
        proof {
            assert(a@.skip(i as int)[0] == a@[i as int]);
            assert(b@.skip(i as int)[0] == b@[i as int]);
            assert(a@.skip(i as int).drop_first() =~= a@.skip(i + 1));
            assert(b@.skip(i as int).drop_first() =~= b@.skip(i + 1));
        }
        if ca != cb {
            let lt = char_code(ca) < char_code(cb);
            proof {
                assert(lex_le(a@.skip(i as int), b@.skip(i as int)) == ((ca as int) < (
                cb as int)));
            }
            return lt;
        }
        i = i + 1;
    }
}

/// Sorts character vectors into lexicographic order by insertion.
pub fn sort_tokens(input: &Vec<Vec<char>>) -> (r: Vec<Vec<char>>)
    ensures
        views(r@) == views(input@).sort_by(lex_leq()),
{
    broadcast use lemma_views_len, lemma_views_index;

    proof {
        lemma_lex_total_ordering();
    }
    let mut acc: Vec<Vec<char>> = Vec::new();
    let mut i: usize = 0;
    proof {
        assert(views(acc@) =~= Seq::<Seq<char>>::empty());
        assert(views(input@.take(0)) =~= Seq::<Seq<char>>::empty());
        vstd::seq_lib::lemma_multiset_commutative(views(acc@), views(acc@));
    }
    while i < input.len()
        invariant
            i <= input@.len(),
            sorted_by(views(acc@), lex_leq()),
            views(acc@).to_multiset() == views(input@.take(i as int)).to_multiset(),
        decreases input@.len() - i,
    {
        let x = input[i].clone();
        let ghost xv = input@[i as int]@;
        proof {
            assert forall|k: int| 0 <= k < x@.len() implies x@[k] == input@[i as int]@[k] by {
                assert(vstd::pervasive::cloned::<char>(input@[i as int]@[k], x@[k]));
            }
            assert(x@ =~= xv);
        }
        // Find the first position whose element is not below x.
        let mut p: usize = 0;
        loop
            invariant_except_break
                xv == x@,
                p <= acc@.len(),
                forall|q: int| 0 <= q < p ==> !lex_le(xv, #[trigger] views(acc@)[q]),
            ensures
                xv == x@,
                p <= acc@.len(),
                forall|q: int| 0 <= q < p ==> !lex_le(xv, #[trigger] views(acc@)[q]),
                p < acc@.len() ==> lex_le(xv, views(acc@)[p as int]),
            decreases acc@.len() - p,
        {
            if p >= acc.len() {
                break;
            }
            let below = lex_le_chars(&x, &acc[p]);
            proof {
                lemma_views_index(acc@, p as int);
            }
            if below {
                break;
            }
            p = p + 1;
        }
        let ghost old_views = views(acc@);
        acc.insert(p, x);
        proof {
            lemma_lex_total_ordering();
            let nv = views(acc@);
            assert(nv.len() == old_views.len() + 1);
            assert forall|k: int| 0 <= k < p implies nv[k] == old_views[k] by {
                assert(acc@[k] == acc@.subrange(0, p as int)[k]);
            }
            assert(nv[p as int] == xv);
            assert forall|k: int| p < k < nv.len() implies nv[k] == old_views[k - 1] by {}
            // Sortedness of the extended sequence.
            assert forall|u: int, w: int| 0 <= u < w < nv.len() implies lex_leq()(
                nv[u],
                nv[w],
            ) by {
                if w < p {
                    assert(lex_leq()(old_views[u], old_views[w]));
                } else if w == p {
                    assert(!lex_le(xv, old_views[u]));
                    lemma_lex_connected(xv, old_views[u]);
                } else {
                    if u < p {
                        assert(lex_leq()(old_views[u], old_views[w - 1]));
                    } else if u == p {
                        assert(lex_le(xv, old_views[p as int]));
                        assert(lex_leq()(old_views[p as int], old_views[w - 1]) || p as int == w
                            - 1);
                        lemma_lex_trans(xv, old_views[p as int], old_views[w - 1]);
                    } else {
                        assert(lex_leq()(old_views[u - 1], old_views[w - 1]));
                    }
                }
            }
            // Multiset of the extended sequence.
            broadcast use vstd::seq_lib::group_to_multiset_ensures;
            assert(nv.remove(p as int) =~= old_views);
            assert(nv.remove(p as int).to_multiset() =~= nv.to_multiset().remove(nv[p as int]));
            assert(nv.to_multiset().contains(xv));
            assert(nv.to_multiset() =~= old_views.to_multiset().insert(xv));
            assert(views(input@.take(i + 1)) =~= views(input@.take(i as int)).push(xv));
            assert(views(input@.take(i + 1)).to_multiset() =~= views(
                input@.take(i as int),
            ).to_multiset().insert(xv));
        }
        i = i + 1;
    }
    proof {
        assert(input@.take(input@.len() as int) =~= input@);
        let sorted = views(input@).sort_by(lex_leq());
        lemma_lex_total_ordering();
        views(input@).lemma_sort_by_ensures(lex_leq());
        lemma_sorted_unique(views(acc@), sorted, lex_leq());
    }
    acc
}

/// Best similarity over the first `j` subject tokens that are still free:
/// the pair of best value and chosen index, `-1` when none was chosen.
pub open spec fn best_of(tok: Seq<char>, subject: Seq<Seq<char>>, used: Seq<bool>, j: int) -> (
    int,
    int,
)
    decreases j,
    when 0 <= j <= subject.len()
{
    if j <= 0 {
        (0int, -1int)
    } else {
        let p = best_of(tok, subject, used, j - 1);
        if !used[j - 1] && spec_jaro_winkler(tok, subject[j - 1]) > p.0 {
            (spec_jaro_winkler(tok, subject[j - 1]), j - 1)
        } else {
            p
        }
    }
}

/// State of the greedy assignment after the first `i` input tokens: which
/// subject tokens are taken, the total credit, and how many inputs matched.
pub open spec fn greedy_state(
    inputs: Seq<Seq<char>>,
    subject: Seq<Seq<char>>,
    i: int,
) -> (Seq<bool>, int, int)
    decreases i,
    when 0 <= i <= inputs.len()
{
    if i <= 0 {
        (Seq::new(subject.len(), |k: int| false), 0int, 0int)
    } else {
        let prev = greedy_state(inputs, subject, i - 1);
        let b = best_of(inputs[i - 1], subject, prev.0, subject.len() as int);
        if b.0 >= 9000 && b.1 >= 0 {
            (prev.0.update(b.1, true), prev.1 + b.0, prev.2 + 1)
        } else if b.0 >= 8000 && b.1 >= 0 {
            (prev.0.update(b.1, true), prev.1 + 8 * b.0 / 10, prev.2 + 1)
        } else {
            prev
        }
    }
}

/// The parts score over an already-ordered input token list.
pub open spec fn parts_score_ordered(inputs: Seq<Seq<char>>, subject: Seq<Seq<char>>) -> int {
    if inputs.len() == 0 || subject.len() == 0 {
        0
    } else {
        let st = greedy_state(inputs, subject, inputs.len() as int);
        let total = st.1;
        let count = st.2;
        if count < inputs.len() {
            let missing = inputs.len() - count;
            let base = if count > 0 {
                total / count
            } else {
                0int
            };
            if base - 2500 * missing >= 0 {
                base - 2500 * missing
            } else {
                0
            }
        } else {
            total / count
        }
    }
}

/// The parts score: input tokens are first brought into canonical order, so
/// the result is insensitive to their arrangement.
pub open spec fn spec_parts_score(inputs: Seq<Seq<char>>, subject: Seq<Seq<char>>) -> int {
    parts_score_ordered(inputs.sort_by(lex_leq()), subject)
}

/// Every input token found a full or partial counterpart in the greedy
/// assignment: both sides are nonempty and no input token went uncredited.
pub open spec fn spec_all_parts_matched(inputs: Seq<Seq<char>>, subject: Seq<Seq<char>>) -> bool {
    let s = inputs.sort_by(lex_leq());
    inputs.len() > 0 && subject.len() > 0 && greedy_state(s, subject, s.len() as int).2 == s.len()
}

/// The greedy totals stay within scale: credit is at most one per matched
/// token, and matches never outnumber the inputs seen.
proof fn lemma_greedy_bounds(inputs: Seq<Seq<char>>, subject: Seq<Seq<char>>, i: int)
    requires
        0 <= i <= inputs.len(),
    ensures
        0 <= greedy_state(inputs, subject, i).2 <= i,
        0 <= greedy_state(inputs, subject, i).1 <= 10000 * greedy_state(inputs, subject, i).2,
    decreases i,
{
    if i > 0 {
        lemma_greedy_bounds(inputs, subject, i - 1);
        let prev = greedy_state(inputs, subject, i - 1);
        let b = best_of(inputs[i - 1], subject, prev.0, subject.len() as int);
        lemma_best_of_range(inputs[i - 1], subject, prev.0, subject.len() as int);
    }
}

proof fn lemma_best_of_range(tok: Seq<char>, subject: Seq<Seq<char>>, used: Seq<bool>, j: int)
    requires
        0 <= j <= subject.len(),
    ensures
        0 <= best_of(tok, subject, used, j).0 <= 10000,
        -1 <= best_of(tok, subject, used, j).1 < j,
    decreases j,
{
    if j > 0 {
        lemma_best_of_range(tok, subject, used, j - 1);
        lemma_jaro_winkler_range(tok, subject[j - 1]);
    }
}

/// The parts score lies in the scaled unit interval.
pub proof fn lemma_parts_score_range(inputs: Seq<Seq<char>>, subject: Seq<Seq<char>>)
    ensures
        0 <= spec_parts_score(inputs, subject) <= 10000,
{
    let s = inputs.sort_by(lex_leq());
    lemma_parts_ordered_range(s, subject);
}

proof fn lemma_parts_ordered_range(inputs: Seq<Seq<char>>, subject: Seq<Seq<char>>)
    ensures
        0 <= parts_score_ordered(inputs, subject) <= 10000,
{
    if inputs.len() == 0 || subject.len() == 0 {
    } else {
        lemma_greedy_bounds(inputs, subject, inputs.len() as int);
        let st = greedy_state(inputs, subject, inputs.len() as int);
        let total = st.1;
        let count = st.2;
        if count > 0 {
            assert(total / count <= 10000) by (nonlinear_arith)
                requires
                    count > 0,
                    0 <= total <= 10000 * count,
            ;
        }
    }
}

/// The parts score depends only on the multiset of input tokens: any
/// permutation of the input list scores identically against any subject.
pub proof fn lemma_parts_score_permutation(
    a1: Seq<Seq<char>>,
    a2: Seq<Seq<char>>,
    b: Seq<Seq<char>>,
)
    requires
        a1.to_multiset() == a2.to_multiset(),
    ensures
        spec_parts_score(a1, b) == spec_parts_score(a2, b),
{
    lemma_lex_total_ordering();
    a1.lemma_sort_by_ensures(lex_leq());
    a2.lemma_sort_by_ensures(lex_leq());
    lemma_sorted_unique(a1.sort_by(lex_leq()), a2.sort_by(lex_leq()), lex_leq());
}

/// Greedily matches input tokens against subject tokens and scores the
/// assignment: full credit at ninety percent similarity, partial credit at
/// eighty, a quarter-point penalty per unmatched input token.
pub fn compute_parts_match_score(input_parts: &Vec<Vec<char>>, subject_parts: &Vec<Vec<char>>) -> (r:
    u32)
    ensures
        r as int == spec_parts_score(views(input_parts@), views(subject_parts@)),
        r <= 10000,
{
    parts_match_state(input_parts, subject_parts).0
}

/// The greedy assignment's score, together with whether every input token
/// was matched.
pub fn parts_match_state(input_parts: &Vec<Vec<char>>, subject_parts: &Vec<Vec<char>>) -> (r: (
    u32,
    bool,
))
    ensures
        r.0 as int == spec_parts_score(views(input_parts@), views(subject_parts@)),
        r.0 <= 10000,
        r.1 == spec_all_parts_matched(views(input_parts@), views(subject_parts@)),
{
    broadcast use lemma_views_len, lemma_views_index;
    broadcast use vstd::seq_lib::group_to_multiset_ensures;

    proof {
        lemma_lex_total_ordering();
        views(input_parts@).lemma_sort_by_ensures(lex_leq());
    }

    proof {
        lemma_parts_score_range(views(input_parts@), views(subject_parts@));
    }
    let ordered = sort_tokens(input_parts);
    let ghost inputs = views(ordered@);
    let ghost subject = views(subject_parts@);
    if ordered.len() == 0 || subject_parts.len() == 0 {
        proof {
            assert(views(ordered@).len() == ordered@.len());
            assert(views(subject_parts@).len() == subject_parts@.len());
            let vin = views(input_parts@);
            vstd::seq_lib::to_multiset_len(vin.sort_by(lex_leq()));
            vstd::seq_lib::to_multiset_len(vin);
            assert(vin.sort_by(lex_leq()).len() == vin.len());
            assert(!spec_all_parts_matched(vin, views(subject_parts@)));
        }
        return (0, false);
    }
    let n: usize = ordered.len();
    let sn: usize = subject_parts.len();
    let mut used: Vec<bool> = Vec::new();
    let mut k: usize = 0;
    while k < sn
        invariant
            sn == subject.len(),
            k <= sn,
            used@ =~= Seq::new(k as nat, |q: int| false),
        decreases sn - k,
    {
        used.push(false);
        k = k + 1;
    }
    let mut total: u128 = 0;
    let mut count: usize = 0;
    let mut i: usize = 0;
    proof {
        assert(used@ =~= greedy_state(inputs, subject, 0).0);
    }
    while i < n
        invariant
            inputs == views(ordered@),
            subject == views(subject_parts@),
            n == inputs.len(),
            n == ordered@.len(),
            sn == subject.len(),
            sn == subject_parts@.len(),
            used@.len() == sn,
            i <= n,
            count <= i,
            total <= 10000 * (count as u128),
            used@ == greedy_state(inputs, subject, i as int).0,
            total as int == greedy_state(inputs, subject, i as int).1,
            count as int == greedy_state(inputs, subject, i as int).2,
        decreases n - i,
    {
        let tok: &Vec<char> = &ordered[i];
        proof {
            lemma_views_index(ordered@, i as int);
            assert(inputs[i as int] == views(ordered@)[i as int]);
        }
        // Best still-free subject token for this input token.
        let mut best: u32 = 0;
        let mut has: bool = false;
        let mut bi: usize = 0;
        let mut j: usize = 0;
        while j < sn
            invariant
                subject == views(subject_parts@),
                n == inputs.len(),
                sn == subject.len(),
                sn == subject_parts@.len(),
                used@.len() == sn,
                i < n,
                j <= sn,
                tok@ == inputs[i as int],
                best <= 10000,
                has ==> bi < sn,
                best_of(inputs[i as int], subject, used@, j as int).0 == best as int,
                best_of(inputs[i as int], subject, used@, j as int).1 == if has {
                    bi as int
                } else {
                    -1int
                },
            decreases sn - j,
        {
            proof {
                lemma_views_index(subject_parts@, j as int);
                assert(subject[j as int] == views(subject_parts@)[j as int]);
            }
            if !used[j] {
                let sim = jaro_winkler(tok, &subject_parts[j]);
                if sim > best {
                    best = sim;
                    has = true;
                    bi = j;
                }
            }
            j = j + 1;
        }
        if best >= 9000 && has {
            used.set(bi, true);
            total = total + best as u128;
            count = count + 1;
        } else if best >= 8000 && has {
            used.set(bi, true);
            total = total + (8 * best / 10) as u128;
            count = count + 1;
        }
        i = i + 1;
    }
    if count < n {
        let missing: usize = n - count;
        let base: u128 = if count > 0 {
            total / (count as u128)
        } else {
            0
        };
        proof {
            if count > 0 {
                assert(total / (count as u128) <= 10000) by (nonlinear_arith)
                    requires
                        count > 0,
                        total <= 10000 * (count as u128),
                ;
            }
        }
        let pen: u128 = 2500 * (missing as u128);
        proof {
            let vin = views(input_parts@);
            assert(inputs == vin.sort_by(lex_leq()));
            vstd::seq_lib::to_multiset_len(vin.sort_by(lex_leq()));
            vstd::seq_lib::to_multiset_len(vin);
            vin.lemma_sort_by_ensures(lex_leq());
            assert(vin.sort_by(lex_leq()).len() == vin.len());
            assert(!spec_all_parts_matched(vin, subject));
        }
        if base >= pen {
            ((base - pen) as u32, false)
        } else {
            (0, false)
        }
    } else {
        proof {
            let vin = views(input_parts@);
            assert(inputs == vin.sort_by(lex_leq()));
            vstd::seq_lib::to_multiset_len(vin.sort_by(lex_leq()));
            vstd::seq_lib::to_multiset_len(vin);
            vin.lemma_sort_by_ensures(lex_leq());
            assert(vin.sort_by(lex_leq()).len() == vin.len());
            assert(spec_all_parts_matched(vin, subject));
            assert(count > 0);
            assert(total / (count as u128) <= 10000) by (nonlinear_arith)
                requires
                    count > 0,
                    total <= 10000 * (count as u128),
            ;
        }
        ((total / (count as u128)) as u32, true)
    }
}

} // verus!
