//! The computational edge of roster fetching: the content digest of a
//! downloaded payload, and the discovery-feed link extraction.  The
//! network transfers themselves live outside the library.

use vstd::prelude::*;
use sha2::Digest;
use crate::strutil::{to_chars, chars_to_string, contains_chars, contains_seq, clone_chars};

verus! {

/// What the SHA-256 digest of a byte string renders to in lowercase hex:
/// a function of the bytes alone.
pub uninterp spec fn sha256_hex_of(data: Seq<u8>) -> Seq<char>;

/// Relies on `sha2::Sha256::digest` and `hex::encode`: the SHA-256 digest
/// of the bytes, rendered as 64 lowercase hex digits.
#[verifier::external_body]
fn sha256_hex(data: &[u8]) -> (r: String)
    ensures
        r@ == sha256_hex_of(data@),
        r@.len() == 64,
{
    hex::encode(sha2::Sha256::digest(data))
}

/// The content digest of one downloaded payload: deterministic for equal
/// bytes, so refreshes of an unchanged roster stamp the same version.
pub fn compute_sha256(data: &Vec<u8>) -> (r: String)
    ensures
        r@ == sha256_hex_of(data@),
        r@.len() == 64,
{
    sha256_hex(data.as_slice())
}

/// A maximal newline-free run of the text.
pub open spec fn is_line(v: Seq<char>, a: int, b: int) -> bool {
    &&& 0 <= a <= b <= v.len()
    &&& (a == 0 || v[a - 1] == '\n')
    &&& (b == v.len() || v[b] == '\n')
    &&& forall|t: int| a <= t < b ==> v[t] != '\n'
}

/// A discovery-feed line that names the signed full list: the resource
/// marker, a token, and a protocol marker to read the link from.
pub open spec fn feed_line_good(line: Seq<char>) -> bool {
    &&& contains_seq(line, "xmlFullSanctionsList_1_1"@)
    &&& contains_seq(line, "token="@)
    &&& contains_seq(line, "https://"@)
}

/// Finds the signed full-list link inside the discovery feed: the first
/// line naming the full-list resource and a token, read from its
/// protocol marker to the closing delimiter.  Nothing comes back only
/// when no line carries the resource marker, a token and a link.
pub fn extract_xml_url(rss: &str) -> (r: Option<String>)
    ensures
        match r {
            Option::Some(u) => u@.len() >= 8 && u@.subrange(0, 8) == "https://"@ && contains_seq(
                rss@,
                u@,
            ) && (forall|t: int|
                0 <= t < u@.len() ==> u@[t] != '<' && u@[t] != '"' && u@[t] != '&'),
            Option::None => forall|a: int, b: int|
                is_line(rss@, a, b) ==> !feed_line_good(#[trigger] rss@.subrange(a, b)),
        },
{
    proof {
        reveal_strlit("https://");
    }
    let v = to_chars(rss);
    let n: usize = v.len();
    let marker = to_chars("xmlFullSanctionsList_1_1");
    let token = to_chars("token=");
    let proto = to_chars("https://");
    // Walk the feed line by line.
    let mut start: usize = 0;
    let mut i: usize = 0;
    while i <= n
        invariant
            v@ == rss@,
            n == v@.len(),
            proto@ == "https://"@,
            marker@ == "xmlFullSanctionsList_1_1"@,
            token@ == "token="@,
            "https://"@.len() == 8,
            start <= i <= n,
            start == 0 || v@[start - 1] == '\n',
            forall|t: int| start <= t < i ==> v@[t] != '\n',
            forall|a: int, b: int|
                is_line(v@, a, b) && b < start ==> !feed_line_good(#[trigger] v@.subrange(a, b)),
        decreases n + 1 - i,
    {
        if i == n || v[i] == '\n' {
            // One line: does it name the resource and a token?
            let mut line: Vec<char> = Vec::new();
            let mut k: usize = start;
            while k < i && k < n
                invariant
                    v@ == rss@,
                    n == v@.len(),
                    start <= k <= n,
                    k <= i <= n,
                    line@ == v@.subrange(start as int, k as int),
                decreases n - k,
            {
                line.push(v[k]);
                proof {
                    assert(line@ =~= v@.subrange(start as int, k + 1));
                }
                k = k + 1;
            }
            proof {
                assert(line@ == v@.subrange(start as int, i as int));
            }
            if contains_chars(&line, &marker) && contains_chars(&line, &token) {
                // From the protocol marker to the closing delimiter.
                let ln: usize = line.len();
                let mut p: usize = 0;
                while p < ln
                    invariant
                        v@ == rss@,
                        n == v@.len(),
                        start + ln <= n,
                        line@ == v@.subrange(start as int, start + ln),
                        proto@ == "https://"@,
                        "https://"@.len() == 8,
                        ln == line@.len(),
                        p <= ln,
                        forall|t: int|
                            0 <= t < p ==> !(t + 8 <= ln && #[trigger] line@.subrange(t, t + 8)
                                == "https://"@),
                    decreases ln - p,
                {
                    if starts_with_at(&line, p, &proto) {
                        let mut e: usize = p;
                        while e < ln && line[e] != '<' && line[e] != '"' && line[e] != '&'
                            invariant
                                ln == line@.len(),
                                p <= e <= ln,
                                forall|t: int|
                                    p <= t < e ==> #[trigger] line@[t] != '<' && line@[t] != '"'
                                        && line@[t] != '&',
                            decreases ln - e,
                        {
                            e = e + 1;
                        }
                        proof {
                            reveal_strlit("https://");
                            if e < p + 8 {
                                assert(line@[e as int] == line@.subrange(p as int, p + 8)[e - p]);
                                assert(line@[e as int] == "https://"@[e - p]);
                                assert(line@[e as int] == '<' || line@[e as int] == '"'
                                    || line@[e as int] == '&');
                                assert(false);
                            }
                        }
                        let mut url: Vec<char> = Vec::new();
                        let mut q: usize = p;
                        while q < e
                            invariant
                                ln == line@.len(),
                                e <= ln,
                                p <= q <= e,
                                url@ == line@.subrange(p as int, q as int),
                            decreases e - q,
                        {
                            url.push(line[q]);
                            proof {
                                assert(url@ =~= line@.subrange(p as int, q + 1));
                            }
                            q = q + 1;
                        }
                        proof {
                            assert(url@ =~= line@.subrange(p as int, e as int));
                            assert(url@.subrange(0, 8) =~= line@.subrange(p as int, p + 8));
                            assert(line@.subrange(p as int, p + proto@.len() as int) == proto@);
                            assert(url@.subrange(0, 8) == "https://"@);
                            assert(url@ =~= v@.subrange(start + p, start + e));
                            assert(v@.subrange(start + p, start + p + url@.len() as int) == url@);
                            assert(contains_seq(rss@, url@));
                            assert forall|t: int|
                                0 <= t < url@.len() implies url@[t] != '<' && url@[t] != '"'
                                && url@[t] != '&' by {
                                assert(url@[t] == line@[p + t]);
                            }
                        }
                        return Option::Some(chars_to_string(&url));
                    }
                    p = p + 1;
                }
                proof {
                    reveal_strlit("https://");
                    assert forall|t: int|
                        0 <= t && t + 8 <= line@.len() implies #[trigger] line@.subrange(t, t + 8)
                        != "https://"@ by {
                        assert(!(t + 8 <= ln && line@.subrange(t, t + 8) == "https://"@));
                    }
                    assert(!contains_seq(line@, "https://"@));
                    assert(!feed_line_good(line@));
                }
            } else {
                proof {
                    assert(!feed_line_good(line@));
                }
            }
            proof {
                assert forall|a: int, b: int|
                    is_line(v@, a, b) && b < i + 1 implies !feed_line_good(
                    #[trigger] v@.subrange(a, b),
                ) by {
                    if b >= start {
                        assert(b <= i as int);
                        if b < i {
                            assert(v@[b] == '\n');
                            assert(false);
                        }
                        assert(b == i as int);
                        if a < start {
                            assert(v@[start - 1] == '\n');
                            assert(a <= start - 1 < b);
                            assert(false);
                        }
                        if a > start {
                            assert(v@[a - 1] == '\n');
                            assert(start <= a - 1 < i);
                            assert(false);
                        }
                        assert(a == start as int);
                        assert(v@.subrange(a, b) == line@);
                    }
                }
            }
            if i == n {
                proof {
                    assert forall|a: int, b: int| is_line(v@, a, b) implies !feed_line_good(
                        #[trigger] v@.subrange(a, b),
                    ) by {
                        assert(b < i + 1);
                    }
                }
                return Option::None;
            }
            start = i + 1;
        }
        i = i + 1;
    }
    Option::None
}

/// Whether `pat` occurs at offset `at`.
fn starts_with_at(v: &Vec<char>, at: usize, pat: &Vec<char>) -> (r: bool)
    ensures
        r == (at + pat@.len() <= v@.len() && v@.subrange(at as int, at + pat@.len()) == pat@),
{
    let m: usize = pat.len();
    let n: usize = v.len();
    if at > n || n - at < m {
        return false;
    }
    let mut i: usize = 0;
    while i < m
        invariant
            m == pat@.len(),
            n == v@.len(),
            at + m <= n,
            i <= m,
            forall|t: int| 0 <= t < i ==> v@[at + t] == #[trigger] pat@[t],
        decreases m - i,
    {
        if v[at + i] != pat[i] {
            proof {
                assert(v@.subrange(at as int, at + pat@.len())[i as int] == v@[at + i]);
            }
            return false;
        }
        i = i + 1;
    }
    proof {
        assert(v@.subrange(at as int, at + pat@.len()) =~= pat@);
    }
    true
}

/// Finds a fresh download link on the roster landing page: the first
/// line naming the list that carries a quoted link target, made absolute
/// against the publisher's host when it is relative.
pub fn extract_uk_download_link(html: &str) -> (r: Option<String>)
    ensures
        match r {
            Option::Some(u) => u@.len() >= 4 && u@.subrange(0, 4) == "http"@,
            Option::None => true,
        },
{
    proof {
        reveal_strlit("http");
        reveal_strlit("https://www.gov.uk");
    }
    let v = to_chars(html);
    let n: usize = v.len();
    let marker_a = to_chars("UK_Sanctions_List");
    let marker_b = to_chars("ConList");
    let href = to_chars("href=\"");
    let http = to_chars("http");
    let host = to_chars("https://www.gov.uk");
    let mut start: usize = 0;
    let mut i: usize = 0;
    while i <= n
        invariant
            v@ == html@,
            n == v@.len(),
            http@ == "http"@,
            "http"@.len() == 4,
            host@ == "https://www.gov.uk"@,
            "https://www.gov.uk"@.len() == 18,
            start <= i <= n + 1,
        decreases n + 1 - i,
    {
        if i == n || v[i] == '\n' {
            let mut line: Vec<char> = Vec::new();
            let mut k: usize = start;
            while k < i && k < n
                invariant
                    n == v@.len(),
                    k <= n,
                    i <= n + 1,
                decreases n - k,
            {
                line.push(v[k]);
                k = k + 1;
            }
            if contains_chars(&line, &marker_a) || contains_chars(&line, &marker_b) {
                let ln: usize = line.len();
                let mut p: usize = 0;
                while p < ln
                    invariant
                        http@ == "http"@,
                        "http"@.len() == 4,
                        host@ == "https://www.gov.uk"@,
                        "https://www.gov.uk"@.len() == 18,
                        ln == line@.len(),
                        p <= ln,
                    decreases ln - p,
                {
                    if starts_with_at(&line, p, &href) {
                        // The quoted target after the marker.
                        let mut target: Vec<char> = Vec::new();
                        let mut q: usize = p + href.len();
                        while q < ln && line[q] != '"'
                            invariant
                                ln == line@.len(),
                                q <= ln,
                            decreases ln - q,
                        {
                            target.push(line[q]);
                            q = q + 1;
                        }
                        if target.len() == 0 {
                            return Option::None;
                        }
                        if starts_with_at(&target, 0, &http) {
                            proof {
                                assert(target@.subrange(0, 4) == "http"@);
                            }
                            return Option::Some(chars_to_string(&target));
                        }
                        // A relative target: make it absolute.
                        let mut full = clone_chars(&host);
                        let mut t: usize = 0;
                        while t < target.len()
                            invariant
                                host@ == "https://www.gov.uk"@,
                                "https://www.gov.uk"@.len() == 18,
                                "http"@.len() == 4,
                                t <= target@.len(),
                                full@ == host@ + target@.take(t as int),
                            decreases target@.len() - t,
                        {
                            full.push(target[t]);
                            proof {
                                assert(full@ =~= host@ + target@.take(t + 1));
                            }
                            t = t + 1;
                        }
                        proof {
                            reveal_strlit("http");
                            reveal_strlit("https://www.gov.uk");
                            assert("https://www.gov.uk"@.subrange(0, 4) =~= "http"@);
                            assert(full@.subrange(0, 4) =~= host@.subrange(0, 4));
                        }
                        return Option::Some(chars_to_string(&full));
                    }
                    p = p + 1;
                }
            }
            if i == n {
                break;
            }
            start = i + 1;
        }
        i = i + 1;
    }
    Option::None
}

} // verus!
