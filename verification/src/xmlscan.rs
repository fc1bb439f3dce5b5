//! A tolerant XML event scanner: start tags with attributes, end tags and
//! text runs.  Malformed fragments are skipped rather than failing the
//! whole document, the way roster ingestion demands.  The scan is a pure
//! function of the input text: [`scan_at`] states the event stream a
//! document scans to, and [`scan_xml`] is proved to return exactly that.

use vstd::prelude::*;
use crate::strutil::to_chars;
use crate::normalize::{is_space, is_space_char};

verus! {

/// One scanned event.
pub enum XmlEvent {
    /// An opening or self-closing tag with its attributes.
    Start { name: Vec<char>, attrs: Vec<(Vec<char>, Vec<char>)>, empty: bool },
    /// A closing tag.
    End { name: Vec<char> },
    /// A trimmed, entity-unescaped text run.
    Text { text: Vec<char> },
}

/// The mathematical shape of one event: the same three cases over plain
/// character sequences.
pub ghost enum XmlEventM {
    Start { name: Seq<char>, attrs: Seq<(Seq<char>, Seq<char>)>, empty: bool },
    End { name: Seq<char> },
    Text { text: Seq<char> },
}

/// The attribute list an executable tag carries, as sequences.
pub open spec fn attrs_model(attrs: Seq<(Vec<char>, Vec<char>)>) -> Seq<(Seq<char>, Seq<char>)> {
    attrs.map(|k: int, a: (Vec<char>, Vec<char>)| (a.0@, a.1@))
}

/// The mathematical shape of one executable event.
pub open spec fn event_model(e: XmlEvent) -> XmlEventM {
    match e {
        XmlEvent::Start { name, attrs, empty } => XmlEventM::Start {
            name: name@,
            attrs: attrs_model(attrs@),
            empty,
        },
        XmlEvent::End { name } => XmlEventM::End { name: name@ },
        XmlEvent::Text { text } => XmlEventM::Text { text: text@ },
    }
}

/// The mathematical shape of a whole event stream.
pub open spec fn events_model(es: Seq<XmlEvent>) -> Seq<XmlEventM> {
    es.map(|k: int, e: XmlEvent| event_model(e))
}

/// Every scanned tag carries a nonempty name and every text run is
/// nonempty.
pub open spec fn event_wf(e: XmlEvent) -> bool {
    match e {
        XmlEvent::Start { name, .. } => name@.len() > 0,
        XmlEvent::End { name } => name@.len() > 0,
        XmlEvent::Text { text } => text@.len() > 0,
    }
}

/// Whether `pat` occurs at offset `k` of `v`.
pub open spec fn sub_at(v: Seq<char>, k: int, pat: Seq<char>) -> bool {
    0 <= k && k + pat.len() <= v.len() && v.subrange(k, k + pat.len()) == pat
}

/// A character a tag or attribute name may carry.
pub open spec fn name_char(c: char) -> bool {
    (0x41 <= c as int <= 0x5A) || (0x61 <= c as int <= 0x7A) || (0x30 <= c as int <= 0x39)
        || c == '_' || c == '-' || c == ':' || c == '.'
}

/// The end of the name run starting at `j`: the first position at or
/// after `j` holding no name character.
pub open spec fn name_end(v: Seq<char>, j: int) -> int
    decreases v.len() - j,
    when 0 <= j <= v.len()
{
    if j >= v.len() || !name_char(v[j]) {
        j
    } else {
        name_end(v, j + 1)
    }
}

/// The first position at or after `j` holding `c`, or the length.
pub open spec fn find_char(v: Seq<char>, j: int, c: char) -> int
    decreases v.len() - j,
    when 0 <= j <= v.len()
{
    if j >= v.len() || v[j] == c {
        j
    } else {
        find_char(v, j + 1, c)
    }
}

/// The first non-whitespace position at or after `j`, or the length.
pub open spec fn skip_spaces(v: Seq<char>, j: int) -> int
    decreases v.len() - j,
    when 0 <= j <= v.len()
{
    if j >= v.len() || !is_space_char(v[j]) {
        j
    } else {
        skip_spaces(v, j + 1)
    }
}

/// The first position at or after `j` where `pat` occurs, or the length.
pub open spec fn find_sub(v: Seq<char>, j: int, pat: Seq<char>) -> int
    decreases v.len() - j,
    when 0 <= j <= v.len() && pat.len() > 0
{
    if j >= v.len() {
        j
    } else if sub_at(v, j, pat) {
        j
    } else {
        find_sub(v, j + 1, pat)
    }
}

/// The text with the five predefined XML entities replaced, from
/// position `i` on.
pub open spec fn unesc_at(v: Seq<char>, i: int) -> Seq<char>
    decreases v.len() - i,
    when 0 <= i <= v.len()
{
    if i >= v.len() {
        Seq::empty()
    } else if v[i] == '&' {
        if sub_at(v, i + 1, seq!['a', 'm', 'p', ';']) {
            seq!['&'] + unesc_at(v, i + 5)
        } else if sub_at(v, i + 1, seq!['l', 't', ';']) {
            seq!['<'] + unesc_at(v, i + 4)
        } else if sub_at(v, i + 1, seq!['g', 't', ';']) {
            seq!['>'] + unesc_at(v, i + 4)
        } else if sub_at(v, i + 1, seq!['q', 'u', 'o', 't', ';']) {
            seq!['"'] + unesc_at(v, i + 6)
        } else if sub_at(v, i + 1, seq!['a', 'p', 'o', 's', ';']) {
            seq!['\''] + unesc_at(v, i + 6)
        } else {
            seq!['&'] + unesc_at(v, i + 1)
        }
    } else {
        seq![v[i]] + unesc_at(v, i + 1)
    }
}

/// The upper trim bound: positions above it, below `b`, hold whitespace.
pub open spec fn trim_hi(v: Seq<char>, b: int, a: int) -> int
    decreases b,
    when 0 <= a <= b <= v.len()
{
    if b > a && is_space_char(v[b - 1]) {
        trim_hi(v, b - 1, a)
    } else {
        b
    }
}

/// The text with leading and trailing whitespace stripped.
pub open spec fn spec_trim(v: Seq<char>) -> Seq<char> {
    let a = skip_spaces(v, 0);
    let b = trim_hi(v, v.len() as int, a);
    v.subrange(a, b)
}

/// The next scan position: past `i`, at most `n`.  The scanner always
/// makes progress; this pins that down for the recursion.
pub open spec fn step_to(i: int, x: int, n: int) -> int {
    if x <= i {
        i + 1
    } else if x > n {
        n
    } else {
        x
    }
}

/// The attribute run of a tag read from position `j`: the attributes up
/// to the closing `>` or `/>`, whether the tag self-closed, and the
/// position after it.
pub open spec fn attrs_scan(v: Seq<char>, j: int) -> (Seq<(Seq<char>, Seq<char>)>, bool, int)
    decreases v.len() - j,
    when 0 <= j <= v.len()
{
    if j >= v.len() {
        (Seq::<(Seq<char>, Seq<char>)>::empty(), false, v.len() as int)
    } else if is_space_char(v[j]) {
        attrs_scan(v, j + 1)
    } else if v[j] == '>' {
        (Seq::<(Seq<char>, Seq<char>)>::empty(), false, j + 1)
    } else if v[j] == '/' {
        if j + 1 < v.len() && v[j + 1] == '>' {
            (Seq::<(Seq<char>, Seq<char>)>::empty(), true, j + 2)
        } else {
            attrs_scan(v, j + 1)
        }
    } else if name_char(v[j]) {
        let ne = name_end(v, j);
        let an = v.subrange(j, ne);
        let j2 = skip_spaces(v, ne);
        if 0 <= j2 < v.len() && v[j2] == '=' {
            let j3 = skip_spaces(v, j2 + 1);
            if 0 <= j3 < v.len() && (v[j3] == '"' || v[j3] == '\'') {
                let vend = find_char(v, j3 + 1, v[j3]);
                let av = v.subrange(j3 + 1, vend);
                let j4 = if vend < v.len() {
                    vend + 1
                } else {
                    vend
                };
                let rest = attrs_scan(v, step_to(j, j4, v.len() as int));
                (seq![(an, unesc_at(av, 0))] + rest.0, rest.1, rest.2)
            } else {
                let rest = attrs_scan(v, step_to(j, j3, v.len() as int));
                (seq![(an, Seq::<char>::empty())] + rest.0, rest.1, rest.2)
            }
        } else {
            let rest = attrs_scan(v, step_to(j, j2, v.len() as int));
            (seq![(an, Seq::<char>::empty())] + rest.0, rest.1, rest.2)
        }
    } else {
        attrs_scan(v, j + 1)
    }
}

/// The event stream a document scans to, from position `i` on: tags with
/// nonempty names and nonempty trimmed text runs; comments, declarations
/// and malformed fragments skipped.
pub open spec fn scan_at(v: Seq<char>, i: int) -> Seq<XmlEventM>
    decreases v.len() - i,
    when 0 <= i <= v.len()
{
    if i >= v.len() {
        Seq::empty()
    } else if v[i] == '<' {
        if i + 1 >= v.len() {
            scan_at(v, i + 1)
        } else if v[i + 1] == '/' {
            let ne = name_end(v, i + 2);
            let name = v.subrange(i + 2, ne);
            let g = find_char(v, step_to(i, ne, v.len() as int), '>');
            let next = step_to(i, if g < v.len() { g + 1 } else { v.len() as int }, v.len() as int);
            if name.len() > 0 {
                seq![XmlEventM::End { name }] + scan_at(v, next)
            } else {
                scan_at(v, next)
            }
        } else if v[i + 1] == '!' || v[i + 1] == '?' {
            if sub_at(v, i + 1, seq!['!', '-', '-']) {
                let k = find_sub(v, i + 2, seq!['-', '-', '>']);
                let next = step_to(
                    i,
                    if k + 3 <= v.len() && sub_at(v, k, seq!['-', '-', '>']) {
                        k + 3
                    } else {
                        v.len() as int
                    },
                    v.len() as int,
                );
                scan_at(v, next)
            } else {
                let g = find_char(v, i + 2, '>');
                let next = step_to(
                    i,
                    if g < v.len() { g + 1 } else { v.len() as int },
                    v.len() as int,
                );
                scan_at(v, next)
            }
        } else {
            let ne = name_end(v, i + 1);
            let name = v.subrange(i + 1, ne);
            let r = attrs_scan(v, step_to(i, ne, v.len() as int));
            let next = step_to(i, r.2, v.len() as int);
            if name.len() > 0 {
                seq![XmlEventM::Start { name, attrs: r.0, empty: r.1 }] + scan_at(v, next)
            } else {
                scan_at(v, next)
            }
        }
    } else {
        let g = find_char(v, i, '<');
        let raw = v.subrange(i, if g < i { i } else { g });
        let text = spec_trim(unesc_at(raw, 0));
        let next = step_to(i, g, v.len() as int);
        if text.len() > 0 {
            seq![XmlEventM::Text { text }] + scan_at(v, next)
        } else {
            scan_at(v, next)
        }
    }
}

/// Whether `pat` occurs at offset `at` of `v`.
fn starts_at(v: &Vec<char>, at: usize, pat: &str) -> (r: bool)
    ensures
        r == sub_at(v@, at as int, pat@),
{
    let m: usize = pat.unicode_len();
    let vn: usize = v.len();
    if at > vn || vn - at < m {
        return false;
    }
    let mut i: usize = 0;
    while i < m
        invariant
            m == pat@.len(),
            vn == v@.len(),
            at + m <= vn,
            i <= m,
            forall|j: int| 0 <= j < i ==> v@[at + j] == pat@[j],
        decreases m - i,
    {
        if v[at + i] != pat.get_char(i) {
            proof {
                assert(v@.subrange(at as int, at as int + pat@.len())[i as int] == v@[at + i]);
            }
            return false;
        }
        i = i + 1;
    }
    proof {
        assert(v@.subrange(at as int, at as int + pat@.len()) =~= pat@);
    }
    true
}

/// A character a tag or attribute name may carry.
fn is_name_char(c: char) -> (r: bool)
    ensures
        r == name_char(c),
{
    let u = c as u32;
    (0x41 <= u && u <= 0x5A) || (0x61 <= u && u <= 0x7A) || (0x30 <= u && u <= 0x39) || c == '_'
        || c == '-' || c == ':' || c == '.'
}

/// Reads the name run starting at `from`.
fn scan_name_from(v: &Vec<char>, from: usize) -> (r: (Vec<char>, usize))
    requires
        from <= v@.len(),
    ensures
        from <= r.1 <= v@.len(),
        r.1 == name_end(v@, from as int),
        r.0@ == v@.subrange(from as int, r.1 as int),
        (from < v@.len() && name_char(v@[from as int])) ==> r.1 > from,
{
    let n: usize = v.len();
    let mut j: usize = from;
    let mut name: Vec<char> = Vec::new();
    proof {
        assert(name@ =~= v@.subrange(from as int, from as int));
    }
    while j < n && is_name_char(v[j])
        invariant
            n == v@.len(),
            from <= j <= n,
            name_end(v@, from as int) == name_end(v@, j as int),
            name@ == v@.subrange(from as int, j as int),
        decreases n - j,
    {
        proof {
            assert(name_end(v@, j as int) == name_end(v@, j + 1));
        }
        name.push(v[j]);
        j = j + 1;
        proof {
            assert(name@ =~= v@.subrange(from as int, j as int));
        }
    }
    proof {
        assert(name_end(v@, j as int) == j as int);
    }
    (name, j)
}

/// The first position at or after `from` holding `c`, or the length.
fn find_char_from(v: &Vec<char>, from: usize, c: char) -> (r: usize)
    requires
        from <= v@.len(),
    ensures
        from <= r <= v@.len(),
        r == find_char(v@, from as int, c),
{
    let n: usize = v.len();
    let mut j: usize = from;
    while j < n && v[j] != c
        invariant
            n == v@.len(),
            from <= j <= n,
            find_char(v@, from as int, c) == find_char(v@, j as int, c),
        decreases n - j,
    {
        proof {
            assert(find_char(v@, j as int, c) == find_char(v@, j + 1, c));
        }
        j = j + 1;
    }
    proof {
        assert(find_char(v@, j as int, c) == j as int);
    }
    j
}

/// The first non-whitespace position at or after `from`, or the length.
fn skip_spaces_from(v: &Vec<char>, from: usize) -> (r: usize)
    requires
        from <= v@.len(),
    ensures
        from <= r <= v@.len(),
        r == skip_spaces(v@, from as int),
{
    let n: usize = v.len();
    let mut j: usize = from;
    while j < n && is_space(v[j])
        invariant
            n == v@.len(),
            from <= j <= n,
            skip_spaces(v@, from as int) == skip_spaces(v@, j as int),
        decreases n - j,
    {
        proof {
            assert(skip_spaces(v@, j as int) == skip_spaces(v@, j + 1));
        }
        j = j + 1;
    }
    proof {
        assert(skip_spaces(v@, j as int) == j as int);
    }
    j
}

/// The first comment terminator at or after `from`, or the length.
fn find_comment_end(v: &Vec<char>, from: usize) -> (r: usize)
    requires
        from <= v@.len(),
    ensures
        from <= r <= v@.len(),
        r == find_sub(v@, from as int, seq!['-', '-', '>']),
        r < v@.len() ==> sub_at(v@, r as int, seq!['-', '-', '>']),
{
    let n: usize = v.len();
    let mut j: usize = from;
    proof {
        reveal_strlit("-->");
        assert("-->"@ =~= seq!['-', '-', '>']);
    }
    while j < n && !starts_at(v, j, "-->")
        invariant
            n == v@.len(),
            from <= j <= n,
            "-->"@ =~= seq!['-', '-', '>'],
            find_sub(v@, from as int, seq!['-', '-', '>']) == find_sub(
                v@,
                j as int,
                seq!['-', '-', '>'],
            ),
        decreases n - j,
    {
        proof {
            assert(find_sub(v@, j as int, seq!['-', '-', '>']) == find_sub(
                v@,
                j + 1,
                seq!['-', '-', '>'],
            ));
        }
        j = j + 1;
    }
    proof {
        assert(find_sub(v@, j as int, seq!['-', '-', '>']) == j as int);
    }
    j
}

/// Copies the characters of `v` between `a` and `b`.
fn copy_range(v: &Vec<char>, a: usize, b: usize) -> (r: Vec<char>)
    requires
        a <= b <= v@.len(),
    ensures
        r@ == v@.subrange(a as int, b as int),
{
    let mut out: Vec<char> = Vec::new();
    let mut i: usize = a;
    proof {
        assert(out@ =~= v@.subrange(a as int, a as int));
    }
    while i < b
        invariant
            a <= i <= b <= v@.len(),
            out@ == v@.subrange(a as int, i as int),
        decreases b - i,
    {
        out.push(v[i]);
        i = i + 1;
        proof {
            assert(out@ =~= v@.subrange(a as int, i as int));
        }
    }
    out
}

/// Replaces the five predefined XML entities.
pub fn unescape(v: &Vec<char>) -> (r: Vec<char>)
    ensures
        r@ == unesc_at(v@, 0),
{
    let n: usize = v.len();
    let mut out: Vec<char> = Vec::new();
    let mut i: usize = 0;
    proof {
        assert(out@ + unesc_at(v@, 0) =~= unesc_at(v@, 0));
    }
    while i < n
        invariant
            n == v@.len(),
            i <= n,
            unesc_at(v@, 0) == out@ + unesc_at(v@, i as int),
        decreases n - i,
    {
        proof {
            reveal_strlit("amp;");
            reveal_strlit("lt;");
            reveal_strlit("gt;");
            reveal_strlit("quot;");
            reveal_strlit("apos;");
            assert("amp;"@ =~= seq!['a', 'm', 'p', ';']);
            assert("lt;"@ =~= seq!['l', 't', ';']);
            assert("gt;"@ =~= seq!['g', 't', ';']);
            assert("quot;"@ =~= seq!['q', 'u', 'o', 't', ';']);
            assert("apos;"@ =~= seq!['a', 'p', 'o', 's', ';']);
        }
        let ghost i0 = i as int;
        let ghost pre = out@;
        if v[i] == '&' {
            if starts_at(v, i + 1, "amp;") {
                out.push('&');
                i = i + 5;
                proof {
                    assert(unesc_at(v@, i0) == seq!['&'] + unesc_at(v@, i as int));
                    assert(pre + unesc_at(v@, i0) =~= out@ + unesc_at(v@, i as int));
                }
            } else if starts_at(v, i + 1, "lt;") {
                out.push('<');
                i = i + 4;
                proof {
                    assert(unesc_at(v@, i0) == seq!['<'] + unesc_at(v@, i as int));
                    assert(pre + unesc_at(v@, i0) =~= out@ + unesc_at(v@, i as int));
                }
            } else if starts_at(v, i + 1, "gt;") {
                out.push('>');
                i = i + 4;
                proof {
                    assert(unesc_at(v@, i0) == seq!['>'] + unesc_at(v@, i as int));
                    assert(pre + unesc_at(v@, i0) =~= out@ + unesc_at(v@, i as int));
                }
            } else if starts_at(v, i + 1, "quot;") {
                out.push('"');
                i = i + 6;
                proof {
                    assert(unesc_at(v@, i0) == seq!['"'] + unesc_at(v@, i as int));
                    assert(pre + unesc_at(v@, i0) =~= out@ + unesc_at(v@, i as int));
                }
            } else if starts_at(v, i + 1, "apos;") {
                out.push('\'');
                i = i + 6;
                proof {
                    assert(unesc_at(v@, i0) == seq!['\''] + unesc_at(v@, i as int));
                    assert(pre + unesc_at(v@, i0) =~= out@ + unesc_at(v@, i as int));
                }
            } else {
                out.push('&');
                i = i + 1;
                proof {
                    assert(unesc_at(v@, i0) == seq!['&'] + unesc_at(v@, i as int));
                    assert(pre + unesc_at(v@, i0) =~= out@ + unesc_at(v@, i as int));
                }
            }
        } else {
            out.push(v[i]);
            i = i + 1;
            proof {
                assert(unesc_at(v@, i0) == seq![v@[i0]] + unesc_at(v@, i as int));
                assert(pre + unesc_at(v@, i0) =~= out@ + unesc_at(v@, i as int));
            }
        }
    }
    proof {
        assert(unesc_at(v@, n as int) =~= Seq::<char>::empty());
        assert(out@ + unesc_at(v@, n as int) =~= out@);
    }
    out
}

/// Strips leading and trailing whitespace.
pub fn trim_chars(v: &Vec<char>) -> (r: Vec<char>)
    ensures
        r@ == spec_trim(v@),
{
    let n: usize = v.len();
    let a = skip_spaces_from(v, 0);
    let mut b: usize = n;
    while b > a && is_space(v[b - 1])
        invariant
            n == v@.len(),
            a <= b <= n,
            a == skip_spaces(v@, 0),
            trim_hi(v@, n as int, a as int) == trim_hi(v@, b as int, a as int),
        decreases b,
    {
        proof {
            assert(trim_hi(v@, b as int, a as int) == trim_hi(v@, b - 1, a as int));
        }
        b = b - 1;
    }
    proof {
        assert(trim_hi(v@, b as int, a as int) == b as int);
    }
    let out = copy_range(v, a, b);
    proof {
        assert(out@ == spec_trim(v@));
    }
    out
}

/// Reads the attribute run of a tag from position `from`: attributes,
/// the self-close flag, and the position after the closing bracket.
fn scan_attrs(v: &Vec<char>, from: usize) -> (r: (Vec<(Vec<char>, Vec<char>)>, bool, usize))
    requires
        from <= v@.len(),
    ensures
        from <= r.2 <= v@.len(),
        attrs_model(r.0@) == attrs_scan(v@, from as int).0,
        r.1 == attrs_scan(v@, from as int).1,
        r.2 as int == attrs_scan(v@, from as int).2,
{
    let n: usize = v.len();
    let mut attrs: Vec<(Vec<char>, Vec<char>)> = Vec::new();
    let mut empty: bool = false;
    let mut closed: bool = false;
    let mut j: usize = from;
    proof {
        assert(attrs_model(attrs@) =~= Seq::<(Seq<char>, Seq<char>)>::empty());
        assert(attrs_model(attrs@) + attrs_scan(v@, from as int).0 =~= attrs_scan(
            v@,
            from as int,
        ).0);
    }
    while j < n && !closed
        invariant
            n == v@.len(),
            from <= j <= n,
            closed ==> attrs_scan(v@, from as int).0 == attrs_model(attrs@) && attrs_scan(
                v@,
                from as int,
            ).1 == empty && attrs_scan(v@, from as int).2 == j as int,
            !closed ==> !empty && attrs_scan(v@, from as int).0 == attrs_model(attrs@)
                + attrs_scan(v@, j as int).0 && attrs_scan(v@, from as int).1 == attrs_scan(
                v@,
                j as int,
            ).1 && attrs_scan(v@, from as int).2 == attrs_scan(v@, j as int).2,
        decreases n - j,
    {
        let ghost j0 = j as int;
        let ghost pre = attrs@;
        let c = v[j];
        if is_space(c) {
            proof {
                assert(attrs_scan(v@, j0) == attrs_scan(v@, j0 + 1));
            }
            j = j + 1;
        } else if c == '>' {
            proof {
                assert(attrs_scan(v@, j0).0 =~= Seq::<(Seq<char>, Seq<char>)>::empty());
                assert(attrs_model(attrs@) + attrs_scan(v@, j0).0 =~= attrs_model(attrs@));
            }
            closed = true;
            j = j + 1;
        } else if c == '/' {
            if j + 1 < n && v[j + 1] == '>' {
                proof {
                    assert(attrs_scan(v@, j0).0 =~= Seq::<(Seq<char>, Seq<char>)>::empty());
                    assert(attrs_model(attrs@) + attrs_scan(v@, j0).0 =~= attrs_model(attrs@));
                }
                empty = true;
                closed = true;
                j = j + 2;
            } else {
                proof {
                    assert(attrs_scan(v@, j0) == attrs_scan(v@, j0 + 1));
                }
                j = j + 1;
            }
        } else if is_name_char(c) {
            let (an, ne) = scan_name_from(v, j);
            let j2 = skip_spaces_from(v, ne);
            let ghost an_s = an@;
            let mut av: Vec<char> = Vec::new();
            let mut has_value: bool = false;
            let mut jnext: usize = j2;
            if j2 < n && v[j2] == '=' {
                let j3 = skip_spaces_from(v, j2 + 1);
                if j3 < n {
                    let q = v[j3];
                    if q == '"' || q == '\'' {
                        let vend = find_char_from(v, j3 + 1, q);
                        av = copy_range(v, j3 + 1, vend);
                        has_value = true;
                        jnext = if vend < n {
                            vend + 1
                        } else {
                            vend
                        };
                    } else {
                        jnext = j3;
                    }
                } else {
                    jnext = j3;
                }
            }
            let value = if has_value {
                unescape(&av)
            } else {
                Vec::new()
            };
            let ghost value_s = value@;
            attrs.push((an, value));
            proof {
                assert(j0 < jnext <= n as int);
                assert(step_to(j0, jnext as int, n as int) == jnext as int);
                assert(attrs_scan(v@, j0).0 == seq![(an_s, value_s)] + attrs_scan(
                    v@,
                    jnext as int,
                ).0 && attrs_scan(v@, j0).1 == attrs_scan(v@, jnext as int).1 && attrs_scan(
                    v@,
                    j0,
                ).2 == attrs_scan(v@, jnext as int).2);
                assert(attrs_model(attrs@) =~= attrs_model(pre) + seq![(an_s, value_s)]);
                assert(attrs_model(pre) + (seq![(an_s, value_s)] + attrs_scan(v@, jnext as int).0)
                    =~= attrs_model(attrs@) + attrs_scan(v@, jnext as int).0);
            }
            j = jnext;
        } else {
            proof {
                assert(attrs_scan(v@, j0) == attrs_scan(v@, j0 + 1));
            }
            j = j + 1;
        }
    }
    proof {
        if !closed {
            assert(attrs_scan(v@, j as int).0 =~= Seq::<(Seq<char>, Seq<char>)>::empty());
            assert(attrs_model(attrs@) + attrs_scan(v@, j as int).0 =~= attrs_model(attrs@));
        }
    }
    (attrs, empty, j)
}

/// Scans a whole document into events: exactly the stream that
/// [`scan_at`] states for the text.
pub fn scan_xml(input: &str) -> (r: Vec<XmlEvent>)
    ensures
        forall|i: int| 0 <= i < r@.len() ==> event_wf(#[trigger] r@[i]),
        events_model(r@) == scan_at(input@, 0),
{
    let v = to_chars(input);
    let n: usize = v.len();
    let mut events: Vec<XmlEvent> = Vec::new();
    let mut i: usize = 0;
    proof {
        assert(events_model(events@) =~= Seq::<XmlEventM>::empty());
        assert(events_model(events@) + scan_at(v@, 0) =~= scan_at(v@, 0));
    }
    while i < n
        invariant
            n == v@.len(),
            v@ == input@,
            i <= n,
            forall|q: int| 0 <= q < events@.len() ==> event_wf(#[trigger] events@[q]),
            scan_at(v@, 0) == events_model(events@) + scan_at(v@, i as int),
        decreases n - i,
    {
        let ghost i0 = i as int;
        let ghost pre = events@;
        if v[i] == '<' {
            if i + 1 >= n {
                proof {
                    assert(scan_at(v@, i0) == scan_at(v@, i0 + 1));
                }
                i = i + 1;
            } else if v[i + 1] == '/' {
                // Closing tag.
                let (name, ne) = scan_name_from(&v, i + 2);
                let g = find_char_from(&v, ne, '>');
                let next: usize = if g < n {
                    g + 1
                } else {
                    n
                };
                proof {
                    assert(step_to(i0, ne as int, n as int) == ne as int);
                    assert(step_to(i0, next as int, n as int) == next as int);
                }
                if name.len() > 0 {
                    let ghost em = XmlEventM::End { name: name@ };
                    events.push(XmlEvent::End { name });
                    proof {
                        assert(scan_at(v@, i0) == seq![em] + scan_at(v@, next as int));
                        assert(events_model(events@) =~= events_model(pre) + seq![em]);
                        assert(events_model(pre) + (seq![em] + scan_at(v@, next as int))
                            =~= events_model(events@) + scan_at(v@, next as int));
                    }
                } else {
                    proof {
                        assert(scan_at(v@, i0) == scan_at(v@, next as int));
                    }
                }
                i = next;
            } else if v[i + 1] == '!' || v[i + 1] == '?' {
                // Declarations, comments, processing instructions: skipped.
                proof {
                    reveal_strlit("!--");
                    assert("!--"@ =~= seq!['!', '-', '-']);
                }
                if starts_at(&v, i + 1, "!--") {
                    let k = find_comment_end(&v, i + 2);
                    let next: usize = if k < n {
                        k + 3
                    } else {
                        n
                    };
                    proof {
                        assert(step_to(i0, next as int, n as int) == next as int);
                        assert(scan_at(v@, i0) == scan_at(v@, next as int));
                    }
                    i = next;
                } else {
                    let g = find_char_from(&v, i + 2, '>');
                    let next: usize = if g < n {
                        g + 1
                    } else {
                        n
                    };
                    proof {
                        assert(step_to(i0, next as int, n as int) == next as int);
                        assert(scan_at(v@, i0) == scan_at(v@, next as int));
                    }
                    i = next;
                }
            } else {
                // Opening tag: name, attributes, optional self-close.
                let (name, ne) = scan_name_from(&v, i + 1);
                let (tag_attrs, empty, next) = scan_attrs(&v, ne);
                proof {
                    assert(step_to(i0, ne as int, n as int) == ne as int);
                    assert(step_to(i0, next as int, n as int) == next as int);
                }
                if name.len() > 0 {
                    let ghost em = XmlEventM::Start {
                        name: name@,
                        attrs: attrs_model(tag_attrs@),
                        empty,
                    };
                    events.push(XmlEvent::Start { name, attrs: tag_attrs, empty });
                    proof {
                        assert(scan_at(v@, i0) == seq![em] + scan_at(v@, next as int));
                        assert(events_model(events@) =~= events_model(pre) + seq![em]);
                        assert(events_model(pre) + (seq![em] + scan_at(v@, next as int))
                            =~= events_model(events@) + scan_at(v@, next as int));
                    }
                } else {
                    proof {
                        assert(scan_at(v@, i0) == scan_at(v@, next as int));
                    }
                }
                i = next;
            }
        } else {
            // Text run up to the next tag.
            let g = find_char_from(&v, i, '<');
            let raw = copy_range(&v, i, g);
            let un = unescape(&raw);
            let text = trim_chars(&un);
            let next: usize = if g > i {
                g
            } else {
                i + 1
            };
            proof {
                assert(step_to(i0, g as int, n as int) == next as int);
            }
            if text.len() > 0 {
                let ghost em = XmlEventM::Text { text: text@ };
                events.push(XmlEvent::Text { text });
                proof {
                    assert(scan_at(v@, i0) == seq![em] + scan_at(v@, next as int));
                    assert(events_model(events@) =~= events_model(pre) + seq![em]);
                    assert(events_model(pre) + (seq![em] + scan_at(v@, next as int))
                        =~= events_model(events@) + scan_at(v@, next as int));
                }
            } else {
                proof {
                    assert(scan_at(v@, i0) == scan_at(v@, next as int));
                }
            }
            i = next;
        }
    }
    proof {
        assert(scan_at(v@, n as int) =~= Seq::<XmlEventM>::empty());
        assert(events_model(events@) + scan_at(v@, n as int) =~= events_model(events@));
    }
    events
}

/// The first attribute with the given key, if any, as its value.
pub open spec fn spec_get_attr(attrs: Seq<(Seq<char>, Seq<char>)>, name: Seq<char>) -> Option<
    Seq<char>,
>
    decreases attrs.len(),
{
    if attrs.len() == 0 {
        Option::None
    } else if attrs[0].0 == name {
        Option::Some(attrs[0].1)
    } else {
        spec_get_attr(attrs.drop_first(), name)
    }
}

/// The value of the named attribute, if present.
pub fn get_attr(attrs: &Vec<(Vec<char>, Vec<char>)>, name: &str) -> (r: Option<Vec<char>>)
    ensures
        match r {
            Option::Some(v) => spec_get_attr(attrs_model(attrs@), name@) == Option::Some(v@),
            Option::None => spec_get_attr(attrs_model(attrs@), name@) is None,
        },
{
    let n: usize = attrs.len();
    let ghost m = attrs_model(attrs@);
    let mut i: usize = 0;
    proof {
        assert(m.skip(0) =~= m);
    }
    while i < n
        invariant
            n == attrs@.len(),
            m == attrs_model(attrs@),
            m.len() == n,
            i <= n,
            spec_get_attr(m, name@) == spec_get_attr(m.skip(i as int), name@),
        decreases n - i,
    {
        proof {
            assert(m.skip(i as int)[0] == m[i as int]);
        }
        if crate::strutil::chars_eq_str(&attrs[i].0, name) {
            return Option::Some(crate::strutil::clone_chars(&attrs[i].1));
        }
        proof {
            assert(m.skip(i as int).drop_first() =~= m.skip(i as int + 1));
        }
        i = i + 1;
    }
    proof {
        assert(m.skip(n as int).len() == 0);
    }
    Option::None
}

} // verus!
