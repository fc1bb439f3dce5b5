//! Jaro-Winkler string similarity in fixed point.
//!
//! The classic metric over characters, computed exactly in integers scaled
//! by ten thousand: `10000` is identity, `0` is no similarity.  Matching
//! characters must agree within a window of half the longer length; the
//! Winkler adjustment credits a shared prefix of up to four characters.

use vstd::prelude::*;

verus! {

/// Match window: half the longer length, less one, never negative.
pub open spec fn spec_window(la: int, lb: int) -> int {
    let mx = if la >= lb {
        la
    } else {
        lb
    };
    if mx / 2 >= 1 {
        mx / 2 - 1
    } else {
        0
    }
}

/// First free position of `b` within the window around `i` that holds `c`,
/// scanning from `j` upward.
pub open spec fn find_match(c: char, b: Seq<char>, used: Seq<bool>, i: int, w: int, j: int) -> Option<
    int,
>
    decreases b.len() - j,
    when 0 <= j <= b.len()
{
    if j >= b.len() {
        Option::None
    } else if !used[j] && b[j] == c && i - w <= j && j <= i + w {
        Option::Some(j)
    } else {
        find_match(c, b, used, i, w, j + 1)
    }
}

/// State of the matching pass after the first `i` characters of `a`: which
/// positions of `b` are taken, and the matched characters of `a` in order.
pub open spec fn match_state(a: Seq<char>, b: Seq<char>, w: int, i: int) -> (Seq<bool>, Seq<char>)
    decreases i,
    when 0 <= i <= a.len()
{
    if i <= 0 {
        (Seq::new(b.len(), |k: int| false), Seq::<char>::empty())
    } else {
        let prev = match_state(a, b, w, i - 1);
        match find_match(a[i - 1], b, prev.0, i - 1, w, 0) {
            Option::Some(j) => (prev.0.update(j, true), prev.1.push(a[i - 1])),
            Option::None => prev,
        }
    }
}

/// The characters of `b` at taken positions, in order, up to position `j`.
pub open spec fn taken_chars(b: Seq<char>, used: Seq<bool>, j: int) -> Seq<char>
    decreases j,
    when 0 <= j <= b.len()
{
    if j <= 0 {
        Seq::<char>::empty()
    } else {
        taken_chars(b, used, j - 1) + if used[j - 1] {
            seq![b[j - 1]]
        } else {
            Seq::<char>::empty()
        }
    }
}

/// How many of the first `i` aligned pairs disagree.
pub open spec fn count_diff(x: Seq<char>, y: Seq<char>, i: int) -> int
    decreases i,
    when i >= 0
{
    if i <= 0 {
        0
    } else {
        count_diff(x, y, i - 1) + if x[i - 1] != y[i - 1] {
            1int
        } else {
            0int
        }
    }
}

/// Length of the common prefix, counted from `i`, capped at four.
pub open spec fn prefix_from(a: Seq<char>, b: Seq<char>, i: int) -> int
    decreases 4 - i,
    when 0 <= i <= 4
{
    if i >= 4 || i >= a.len() || i >= b.len() || a[i] != b[i] {
        i
    } else {
        prefix_from(a, b, i + 1)
    }
}

/// The Jaro similarity, scaled by ten thousand.
pub open spec fn spec_jaro(a: Seq<char>, b: Seq<char>) -> int {
    let la = a.len() as int;
    let lb = b.len() as int;
    if la == 0 && lb == 0 {
        10000
    } else if la == 0 || lb == 0 {
        0
    } else {
        let w = spec_window(la, lb);
        let st = match_state(a, b, w, la);
        let m = st.1.len() as int;
        if m == 0 {
            0
        } else {
            let bc = taken_chars(b, st.0, lb);
            let mn = if st.1.len() <= bc.len() {
                st.1.len() as int
            } else {
                bc.len() as int
            };
            let t = count_diff(st.1, bc, mn) / 2;
            let v = (10000 * m / la + 10000 * m / lb + 10000 * (m - t) / m) / 3;
            if v > 10000 {
                10000
            } else {
                v
            }
        }
    }
}

/// The Jaro-Winkler similarity, scaled by ten thousand.
pub open spec fn spec_jaro_winkler(a: Seq<char>, b: Seq<char>) -> int {
    let j = spec_jaro(a, b);
    let l = prefix_from(a, b, 0);
    let v = j + l * (10000 - j) / 10;
    if v > 10000 {
        10000
    } else {
        v
    }
}

/// The scaled Jaro-Winkler similarity never exceeds one.
pub proof fn lemma_jaro_winkler_range(a: Seq<char>, b: Seq<char>)
    ensures
        0 <= spec_jaro_winkler(a, b) <= 10000,
{
    lemma_jaro_range(a, b);
    let j = spec_jaro(a, b);
    let l = prefix_from(a, b, 0);
    lemma_prefix_range(a, b, 0);
    assert(l * (10000 - j) >= 0) by (nonlinear_arith)
        requires
            0 <= l,
            j <= 10000,
    ;
    assert(l * (10000 - j) / 10 >= 0);
}

proof fn lemma_prefix_range(a: Seq<char>, b: Seq<char>, i: int)
    requires
        0 <= i <= 4,
    ensures
        i <= prefix_from(a, b, i) <= 4,
    decreases 4 - i,
{
    if i >= 4 || i >= a.len() || i >= b.len() || a[i] != b[i] {
    } else {
        lemma_prefix_range(a, b, i + 1);
    }
}

proof fn lemma_jaro_range(a: Seq<char>, b: Seq<char>)
    ensures
        0 <= spec_jaro(a, b) <= 10000,
{
    let la = a.len() as int;
    let lb = b.len() as int;
    if la == 0 && lb == 0 {
    } else if la == 0 || lb == 0 {
    } else {
        let w = spec_window(la, lb);
        let st = match_state(a, b, w, la);
        let m = st.1.len() as int;
        if m == 0 {
        } else {
            let bc = taken_chars(b, st.0, lb);
            let mn = if st.1.len() <= bc.len() {
                st.1.len() as int
            } else {
                bc.len() as int
            };
            lemma_count_diff_range(st.1, bc, mn);
            let t = count_diff(st.1, bc, mn) / 2;
            assert(0 <= t <= m);
            assert(10000 * m / la >= 0) by (nonlinear_arith)
                requires
                    m >= 0,
                    la > 0,
            ;
            assert(10000 * m / lb >= 0) by (nonlinear_arith)
                requires
                    m >= 0,
                    lb > 0,
            ;
            assert(10000 * (m - t) / m >= 0) by (nonlinear_arith)
                requires
                    0 <= t <= m,
                    m > 0,
            ;
        }
    }
}

proof fn lemma_count_diff_range(x: Seq<char>, y: Seq<char>, i: int)
    requires
        i >= 0,
    ensures
        0 <= count_diff(x, y, i) <= i,
    decreases i,
{
    if i > 0 {
        lemma_count_diff_range(x, y, i - 1);
    }
}

/// Computes the scaled Jaro-Winkler similarity of two character sequences.
pub fn jaro_winkler(a: &Vec<char>, b: &Vec<char>) -> (r: u32)
    ensures
        r as int == spec_jaro_winkler(a@, b@),
        r <= 10000,
{
    let la: usize = a.len();
    let lb: usize = b.len();
    let jaro: u32 = jaro_scaled(a, b);
    // Common prefix of up to four characters.
    let mut l: usize = 0;
    while l < 4 && l < la && l < lb && a[l] == b[l]
        invariant
            la == a@.len(),
            lb == b@.len(),
            0 <= l <= 4,
            prefix_from(a@, b@, 0) == prefix_from(a@, b@, l as int),
        decreases 4 - l,
    {
        l = l + 1;
    }
    proof {
        assert(prefix_from(a@, b@, l as int) == l as int);
        lemma_jaro_range(a@, b@);
    }
    proof {
        assert(l as int * (10000 - jaro as int) >= 0) by (nonlinear_arith)
            requires
                jaro <= 10000,
        ;
        assert(l as int * (10000 - jaro as int) <= 4 * 10000) by (nonlinear_arith)
            requires
                jaro <= 10000,
                l <= 4,
        ;
        assert((l as u128) * ((10000 - jaro) as u128) == l as int * (10000 - jaro as int));
    }
    let boost: u128 = (l as u128) * ((10000 - jaro) as u128) / 10;
    let v: u128 = (jaro as u128) + boost;
    if v > 10000 {
        10000
    } else {
        v as u32
    }
}

/// The Jaro pass: matching characters within the window, transpositions,
/// and the three-way average.
fn jaro_scaled(a: &Vec<char>, b: &Vec<char>) -> (r: u32)
    ensures
        r as int == spec_jaro(a@, b@),
        r <= 10000,
{
    let la: usize = a.len();
    let lb: usize = b.len();
    if la == 0 && lb == 0 {
        return 10000;
    }
    if la == 0 || lb == 0 {
        return 0;
    }
    let mx: usize = if la >= lb {
        la
    } else {
        lb
    };
    let w: usize = if mx / 2 >= 1 {
        mx / 2 - 1
    } else {
        0
    };
    assert(w as int == spec_window(la as int, lb as int));

    // Matching pass.
    let mut used: Vec<bool> = Vec::new();
    let mut k: usize = 0;
    while k < lb
        invariant
            lb == b@.len(),
            k <= lb,
            used@ =~= Seq::new(k as nat, |q: int| false),
        decreases lb - k,
    {
        used.push(false);
        k = k + 1;
    }
    let mut achars: Vec<char> = Vec::new();
    let mut i: usize = 0;
    proof {
        assert(used@ =~= match_state(a@, b@, w as int, 0).0);
        assert(achars@ =~= match_state(a@, b@, w as int, 0).1);
    }
    while i < la
        invariant
            la == a@.len(),
            lb == b@.len(),
            used@.len() == lb,
            i <= la,
            achars@.len() <= i,
            used@ == match_state(a@, b@, w as int, i as int).0,
            achars@ == match_state(a@, b@, w as int, i as int).1,
        decreases la - i,
    {
        let c = a[i];
        // Find the first free window position of b holding c.
        let mut j: usize = 0;
        let mut found: bool = false;
        let mut fj: usize = 0;
        loop
            invariant_except_break
                lb == b@.len(),
                used@.len() == lb,
                j <= lb,
                !found,
                find_match(c, b@, used@, i as int, w as int, 0) == find_match(
                    c,
                    b@,
                    used@,
                    i as int,
                    w as int,
                    j as int,
                ),
            ensures
                used@.len() == lb,
                if found {
                    fj < lb && find_match(c, b@, used@, i as int, w as int, 0)
                        == Option::Some(fj as int)
                } else {
                    find_match(c, b@, used@, i as int, w as int, 0) is None
                },
            decreases lb - j,
        {
            if j >= lb {
                break;
            }
            let in_window = (j as u128) + (w as u128) >= (i as u128) && (j as u128) <= (i as u128)
                + (w as u128);
            proof {
                assert(in_window == (i as int - w as int <= j as int && j as int <= i as int
                    + w as int));
            }
            if !used[j] && b[j] == c && in_window {
                found = true;
                fj = j;
                break;
            }
            j = j + 1;
        }
        if found {
            used.set(fj, true);
            achars.push(c);
        }
        i = i + 1;
    }

    let m: usize = achars.len();
    if m == 0 {
        return 0;
    }

    // Characters of b at taken positions, in order.
    let mut bchars: Vec<char> = Vec::new();
    let mut q: usize = 0;
    while q < lb
        invariant
            lb == b@.len(),
            used@.len() == lb,
            q <= lb,
            bchars@ == taken_chars(b@, used@, q as int),
        decreases lb - q,
    {
        if used[q] {
            bchars.push(b[q]);
        }
        q = q + 1;
    }

    // Transpositions: aligned disagreements, halved.
    let mn: usize = if achars.len() <= bchars.len() {
        achars.len()
    } else {
        bchars.len()
    };
    let mut diff: usize = 0;
    let mut d: usize = 0;
    while d < mn
        invariant
            mn <= achars@.len(),
            mn <= bchars@.len(),
            d <= mn,
            diff as int == count_diff(achars@, bchars@, d as int),
            diff <= d,
        decreases mn - d,
    {
        if achars[d] != bchars[d] {
            diff = diff + 1;
        }
        d = d + 1;
    }
    let t: usize = diff / 2;

    let m128 = m as u128;
    let la128 = la as u128;
    let lb128 = lb as u128;
    let t128 = t as u128;
    proof {
        lemma_count_diff_range(achars@, bchars@, mn as int);
        assert(t <= mn);
        assert(10000 * m128 <= 10000 * 0xFFFF_FFFF_FFFF_FFFFu128) by (nonlinear_arith)
            requires
                m128 <= 0xFFFF_FFFF_FFFF_FFFFu128,
        ;
    }
    let v: u128 = (10000 * m128 / la128 + 10000 * m128 / lb128 + 10000 * (m128 - t128) / m128) / 3;
    if v > 10000 {
        10000
    } else {
        v as u32
    }
}

} // verus!
