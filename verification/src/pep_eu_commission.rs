//! Extraction of European Commission members from typical markup: a small
//! battery of textual heuristics, with a curated fallback roster when the
//! page yields nothing.

use vstd::prelude::*;
use vstd::string::StringExecFns;
use crate::subject::{ParsedSubject, SubjectKind, subject_wf};
use crate::normalize::spec_tokens;
use crate::strutil::{to_chars, chars_to_string, contains_chars, str_equals, ascii_lower_chars};
use crate::parser_eu::name_slug;

verus! {

/// Splits text into its lines.
pub fn split_lines(s: &str) -> (r: Vec<Vec<char>>)
{
    let v = to_chars(s);
    let n: usize = v.len();
    let mut out: Vec<Vec<char>> = Vec::new();
    let mut cur: Vec<char> = Vec::new();
    let mut i: usize = 0;
    while i < n
        invariant
            n == v@.len(),
            i <= n,
        decreases n - i,
    {
        if v[i] == '\n' {
            out.push(cur);
            cur = Vec::new();
        } else {
            cur.push(v[i]);
        }
        i = i + 1;
    }
    out.push(cur);
    out
}

/// Whether one string occurs inside another.
pub fn str_contains(hay: &Vec<char>, needle: &str) -> (r: bool)
{
    let nc = to_chars(needle);
    contains_chars(hay, &nc)
}

/// Whether a word is one of the function words that never occur in a
/// bare person name, compared without regard to letter case.
pub open spec fn spec_stopword(w: Seq<char>) -> bool {
    let l = crate::store::ascii_lower_seq(w);
    l == "the"@ || l == "and"@ || l == "of"@ || l == "for"@ || l == "to"@ || l == "in"@ || l
        == "on"@ || l == "at"@ || l == "by"@
}

/// A text reads like a person's name when it has two to five words, the
/// first capitalized, and none of them is a common function word.
pub open spec fn spec_person_name_like(s: Seq<char>) -> bool {
    let toks = spec_tokens(s);
    &&& 2 <= toks.len() <= 5
    &&& (toks[0].len() > 0 ==> 0x41 <= toks[0][0] as int <= 0x5A)
    &&& forall|i: int| 0 <= i < toks.len() ==> !spec_stopword(#[trigger] toks[i])
}

/// Whether a text reads like a person's name: two to five words, the
/// first capitalized, none of them a common function word.
pub fn is_likely_person_name(text: &str) -> (r: bool)
    ensures
        r == spec_person_name_like(text@),
{
    let ghost toks = spec_tokens(text@);
    let words = crate::normalize::split_normalized(text);
    proof {
        assert(words@.map_values(|t: String| t@).len() == words@.len());
        assert(forall|j: int|
            0 <= j < words@.len() ==> (#[trigger] words@[j])@ == toks[j]);
    }
    if words.len() < 2 || words.len() > 5 {
        proof {
            assert(!spec_person_name_like(text@));
        }
        return false;
    }
    let first = to_chars(words[0].as_str());
    if first.len() > 0 {
        let c = first[0];
        proof {
            assert(c == toks[0][0]);
        }
        if !crate::strutil::is_ascii_upper_char(c) {
            proof {
                assert(!(0x41 <= toks[0][0] as int <= 0x5A));
                assert(!spec_person_name_like(text@));
            }
            return false;
        }
    }
    proof {
        assert(toks[0].len() > 0 ==> 0x41 <= toks[0][0] as int <= 0x5A);
    }
    let mut i: usize = 0;
    while i < words.len()
        invariant
            toks == spec_tokens(text@),
            2 <= toks.len() <= 5,
            toks[0].len() > 0 ==> 0x41 <= toks[0][0] as int <= 0x5A,
            words@.map_values(|t: String| t@).len() == words@.len(),
            forall|j: int| 0 <= j < words@.len() ==> (#[trigger] words@[j])@ == toks[j],
            toks.len() == words@.len(),
            i <= words@.len(),
            forall|j: int| 0 <= j < i ==> !spec_stopword(#[trigger] toks[j]),
        decreases words@.len() - i,
    {
        let low = chars_to_string(&ascii_lower_chars(&to_chars(words[i].as_str())));
        if str_equals(low.as_str(), "the") || str_equals(low.as_str(), "and") || str_equals(
            low.as_str(),
            "of",
        ) || str_equals(low.as_str(), "for") || str_equals(low.as_str(), "to") || str_equals(
            low.as_str(),
            "in",
        ) || str_equals(low.as_str(), "on") || str_equals(low.as_str(), "at") || str_equals(
            low.as_str(),
            "by",
        ) {
            proof {
                assert(spec_stopword(toks[i as int]));
            }
            return false;
        }
        i = i + 1;
    }
    true
}

/// The text content of a markup line, tags stripped; kept when longer
/// than three characters.
pub fn extract_name_from_html(line: &Vec<char>) -> (r: Option<String>)
    ensures
        match r {
            Option::Some(s) => s@.len() > 3,
            Option::None => true,
        },
{
    let mut text: Vec<char> = Vec::new();
    let mut in_tag: bool = false;
    let mut i: usize = 0;
    while i < line.len()
        invariant
            i <= line@.len(),
        decreases line@.len() - i,
    {
        let c = line[i];
        if c == '<' {
            in_tag = true;
        } else if c == '>' {
            in_tag = false;
        } else if !in_tag {
            text.push(c);
        }
        i = i + 1;
    }
    let trimmed = crate::xmlscan::trim_chars(&text);
    if trimmed.len() > 3 {
        Option::Some(chars_to_string(&trimmed))
    } else {
        Option::None
    }
}

/// The two-letter code of a member country named near the given name.
pub fn extract_country_nearby(html: &Vec<char>, name: &str) -> (r: Option<String>)
{
    // A window of five hundred characters around the name.
    let nc = to_chars(name);
    let n: usize = html.len();
    let m: usize = nc.len();
    if m == 0 || m > n {
        return Option::None;
    }
    let mut pos: usize = 0;
    let mut found: bool = false;
    let mut i: usize = 0;
    while i <= n - m
        invariant
            n == html@.len(),
            m == nc@.len(),
            1 <= m <= n,
            i <= n,
            pos <= n,
        decreases n - i,
    {
        let mut k: usize = 0;
        let mut all: bool = true;
        while k < m
            invariant
                n == html@.len(),
                m == nc@.len(),
                1 <= m <= n,
                i <= n - m,
                k <= m,
            decreases m - k,
        {
            if html[i + k] != nc[k] {
                all = false;
            }
            k = k + 1;
        }
        if all {
            pos = i;
            found = true;
            break;
        }
        i = i + 1;
    }
    if !found {
        return Option::None;
    }
    let lo: usize = if pos >= 500 {
        pos - 500
    } else {
        0
    };
    let hi: usize = if n - pos >= 500 {
        pos + 500
    } else {
        n
    };
    let mut window: Vec<char> = Vec::new();
    let mut q: usize = lo;
    while q < hi
        invariant
            n == html@.len(),
            hi <= n,
            lo <= q <= hi,
        decreases hi - q,
    {
        window.push(html[q]);
        q = q + 1;
    }
    country_in_text(&window)
}

/// The first member-state name occurring in the text, as its code.
pub fn country_in_text(window: &Vec<char>) -> (r: Option<String>)
{
    if str_contains(window, "Germany") {
        return Option::Some(String::from_str("DE"));
    }
    if str_contains(window, "France") {
        return Option::Some(String::from_str("FR"));
    }
    if str_contains(window, "Italy") {
        return Option::Some(String::from_str("IT"));
    }
    if str_contains(window, "Spain") {
        return Option::Some(String::from_str("ES"));
    }
    if str_contains(window, "Poland") {
        return Option::Some(String::from_str("PL"));
    }
    if str_contains(window, "Romania") {
        return Option::Some(String::from_str("RO"));
    }
    if str_contains(window, "Netherlands") {
        return Option::Some(String::from_str("NL"));
    }
    if str_contains(window, "Belgium") {
        return Option::Some(String::from_str("BE"));
    }
    if str_contains(window, "Greece") {
        return Option::Some(String::from_str("GR"));
    }
    if str_contains(window, "Portugal") {
        return Option::Some(String::from_str("PT"));
    }
    if str_contains(window, "Sweden") {
        return Option::Some(String::from_str("SE"));
    }
    if str_contains(window, "Austria") {
        return Option::Some(String::from_str("AT"));
    }
    if str_contains(window, "Bulgaria") {
        return Option::Some(String::from_str("BG"));
    }
    if str_contains(window, "Denmark") {
        return Option::Some(String::from_str("DK"));
    }
    if str_contains(window, "Finland") {
        return Option::Some(String::from_str("FI"));
    }
    if str_contains(window, "Ireland") {
        return Option::Some(String::from_str("IE"));
    }
    if str_contains(window, "Croatia") {
        return Option::Some(String::from_str("HR"));
    }
    if str_contains(window, "Slovakia") {
        return Option::Some(String::from_str("SK"));
    }
    if str_contains(window, "Lithuania") {
        return Option::Some(String::from_str("LT"));
    }
    if str_contains(window, "Slovenia") {
        return Option::Some(String::from_str("SI"));
    }
    if str_contains(window, "Latvia") {
        return Option::Some(String::from_str("LV"));
    }
    if str_contains(window, "Estonia") {
        return Option::Some(String::from_str("EE"));
    }
    if str_contains(window, "Cyprus") {
        return Option::Some(String::from_str("CY"));
    }
    if str_contains(window, "Luxembourg") {
        return Option::Some(String::from_str("LU"));
    }
    if str_contains(window, "Malta") {
        return Option::Some(String::from_str("MT"));
    }
    if str_contains(window, "Czechia") || str_contains(window, "Czech Republic") {
        return Option::Some(String::from_str("CZ"));
    }
    if str_contains(window, "Hungary") {
        return Option::Some(String::from_str("HU"));
    }
    Option::None
}

/// Builds one roster entry from a name and an optional country.
fn commissioner_subject(name: String, country: Option<String>) -> (r: Option<ParsedSubject>)
    ensures
        match r {
            Option::Some(s) => subject_wf(s),
            Option::None => true,
        },
        r is Some <==> name@.len() > 0,
{
    if name.as_str().unicode_len() == 0 {
        return Option::None;
    }
    let slug = name_slug(name.as_str());
    proof {
        reveal_strlit("pep_eu_comm_");
    }
    let mut rc: Vec<char> = to_chars("pep_eu_comm_");
    let mut i: usize = 0;
    while i < slug.len()
        invariant
            i <= slug@.len(),
            rc@.len() >= 1,
        decreases slug@.len() - i,
    {
        rc.push(slug[i]);
        i = i + 1;
    }
    let nats: Vec<String> = match &country {
        Option::Some(c) => {
            let mut v: Vec<String> = Vec::new();
            v.push(c.clone());
            v
        },
        Option::None => Vec::new(),
    };
    Option::Some(
        ParsedSubject {
            source_ref: chars_to_string(&rc),
            kind: SubjectKind::Person,
            primary_name: name,
            aliases: Vec::new(),
            date_of_birth: Option::None,
            date_of_birth_year: Option::None,
            country,
            nationalities: nats,
        },
    )
}

/// Scrapes commissioner names out of typical markup patterns.
pub fn parse_commissioners_from_html(html: &str) -> (r: Vec<ParsedSubject>)
    ensures
        forall|i: int| 0 <= i < r@.len() ==> subject_wf(#[trigger] r@[i]),
{
    let hv = to_chars(html);
    let lines = split_lines(html);
    let mut subjects: Vec<ParsedSubject> = Vec::new();
    let mut in_section: bool = false;
    let mut li: usize = 0;
    while li < lines.len()
        invariant
            li <= lines@.len(),
            forall|q: int| 0 <= q < subjects@.len() ==> subject_wf(#[trigger] subjects@[q]),
        decreases lines@.len() - li,
    {
        let line = &lines[li];
        if str_contains(line, "commissioner") || str_contains(line, "Commissioner") {
            in_section = true;
        }
        if in_section && (str_contains(line, "<h2") || str_contains(line, "<h3") || str_contains(
            line,
            "card-title",
        )) {
            match extract_name_from_html(line) {
                Option::Some(name) => {
                    if is_likely_person_name(name.as_str()) {
                        // Keep the first occurrence of each name.
                        let mut dup: bool = false;
                        let mut d: usize = 0;
                        while d < subjects.len()
                            invariant
                                d <= subjects@.len(),
                                forall|q: int|
                                    0 <= q < subjects@.len() ==> subject_wf(
                                        #[trigger] subjects@[q],
                                    ),
                            decreases subjects@.len() - d,
                        {
                            if str_equals(subjects[d].primary_name.as_str(), name.as_str()) {
                                dup = true;
                            }
                            d = d + 1;
                        }
                        if !dup {
                            let country = extract_country_nearby(&hv, name.as_str());
                            match commissioner_subject(name, country) {
                                Option::Some(s) => {
                                    subjects.push(s);
                                },
                                Option::None => {},
                            }
                        }
                    }
                },
                Option::None => {},
            }
        }
        li = li + 1;
    }
    subjects
}

/// Parses the commissioner page, falling back to the curated roster when
/// the markup yields nothing.
pub fn parse_commission_html(html: &str) -> (r: Vec<ParsedSubject>)
    ensures
        forall|i: int| 0 <= i < r@.len() ==> subject_wf(#[trigger] r@[i]),
        r@.len() > 0,
{
    let parsed = parse_commissioners_from_html(html);
    if parsed.len() > 0 {
        return parsed;
    }
    let mut subjects: Vec<ParsedSubject> = Vec::new();
    let names: Vec<(&'static str, &'static str)> = fallback_roster();
    let mut i: usize = 0;
    while i < names.len()
        invariant
            i <= names@.len(),
            names@.len() >= 1,
            names@[0].0@.len() > 0,
            forall|q: int| 0 <= q < subjects@.len() ==> subject_wf(#[trigger] subjects@[q]),
            i >= 1 ==> subjects@.len() >= 1,
        decreases names@.len() - i,
    {
        let (nm, cc) = names[i];
        match commissioner_subject(String::from_str(nm), Option::Some(String::from_str(cc))) {
            Option::Some(s) => {
                subjects.push(s);
            },
            Option::None => {},
        }
        i = i + 1;
    }
    subjects
}

/// The curated roster used when scraping fails.
fn fallback_roster() -> (r: Vec<(&'static str, &'static str)>)
    ensures
        r@.len() >= 1,
        r@[0].0@.len() > 0,
{
    let mut v: Vec<(&'static str, &'static str)> = Vec::new();
    proof {
        reveal_strlit("Ursula von der Leyen");
    }
    v.push(("Ursula von der Leyen", "DE"));
    v.push(("Maros Sefcovic", "SK"));
    v.push(("Stephane Sejourne", "FR"));
    v.push(("Teresa Ribera", "ES"));
    v.push(("Henna Virkkunen", "FI"));
    v.push(("Raffaele Fitto", "IT"));
    v.push(("Kaja Kallas", "EE"));
    v.push(("Valdis Dombrovskis", "LV"));
    v.push(("Dubravka Suica", "HR"));
    v.push(("Wopke Hoekstra", "NL"));
    v.push(("Thierry Breton", "FR"));
    v.push(("Virginijus Sinkevicius", "LT"));
    v.push(("Kadri Simson", "EE"));
    v.push(("Johannes Hahn", "AT"));
    v.push(("Paolo Gentiloni", "IT"));
    v.push(("Janusz Wojciechowski", "PL"));
    v.push(("Stella Kyriakides", "CY"));
    v.push(("Nicolas Schmit", "LU"));
    v.push(("Helena Dalli", "MT"));
    v.push(("Ylva Johansson", "SE"));
    v.push(("Elisa Ferreira", "PT"));
    v.push(("Margaritis Schinas", "GR"));
    v.push(("Didier Reynders", "BE"));
    v.push(("Adina Valean", "RO"));
    v.push(("Jutta Urpilainen", "FI"));
    v.push(("Oliver Varhelyi", "HU"));
    v.push(("Janez Lenarcic", "SI"));
    v
}

} // verus!
