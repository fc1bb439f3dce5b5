//! Extraction of European Parliament members from the official feed and
//! from typical markup patterns.

use vstd::prelude::*;
use vstd::string::StringExecFns;
use crate::subject::{ParsedSubject, SubjectKind, subject_wf};
use crate::xmlscan::{scan_xml, XmlEvent, XmlEventM, get_attr};
use crate::strutil::{
    to_chars, chars_to_string, str_equals, ascii_lower_chars, ascii_upper_chars, chars_eq_str,
    clone_chars,
};
use crate::parser_eu::name_slug;
use crate::pep_eu_commission::{split_lines, str_contains, country_in_text};

verus! {

/// The code a member-state name maps to: a bare two-character input is
/// uppercased and accepted, a known state name (in English or its own
/// language, case-insensitively) gives its code, anything else nothing.
pub open spec fn spec_country_iso(s: Seq<char>) -> Option<Seq<char>> {
    if s.len() == 0 {
        Option::None
    } else if s.len() == 2 {
        Option::Some(crate::strutil::upper_seq(s))
    } else {
        let low = crate::store::ascii_lower_seq(s);
        if low == "germany"@ || low == "deutschland"@ {
            Option::Some("DE"@)
        } else if low == "france"@ {
            Option::Some("FR"@)
        } else if low == "italy"@ || low == "italia"@ {
            Option::Some("IT"@)
        } else if low == "spain"@ || low == "espana"@ {
            Option::Some("ES"@)
        } else if low == "poland"@ || low == "polska"@ {
            Option::Some("PL"@)
        } else if low == "romania"@ {
            Option::Some("RO"@)
        } else if low == "netherlands"@ || low == "nederland"@ {
            Option::Some("NL"@)
        } else if low == "belgium"@ || low == "belgique"@ || low == "belgie"@ {
            Option::Some("BE"@)
        } else if low == "greece"@ || low == "hellas"@ {
            Option::Some("GR"@)
        } else if low == "portugal"@ {
            Option::Some("PT"@)
        } else if low == "sweden"@ || low == "sverige"@ {
            Option::Some("SE"@)
        } else if low == "austria"@ || low == "osterreich"@ {
            Option::Some("AT"@)
        } else if low == "bulgaria"@ {
            Option::Some("BG"@)
        } else if low == "denmark"@ || low == "danmark"@ {
            Option::Some("DK"@)
        } else if low == "finland"@ || low == "suomi"@ {
            Option::Some("FI"@)
        } else if low == "ireland"@ || low == "eire"@ {
            Option::Some("IE"@)
        } else if low == "croatia"@ || low == "hrvatska"@ {
            Option::Some("HR"@)
        } else if low == "slovakia"@ || low == "slovensko"@ {
            Option::Some("SK"@)
        } else if low == "lithuania"@ || low == "lietuva"@ {
            Option::Some("LT"@)
        } else if low == "slovenia"@ || low == "slovenija"@ {
            Option::Some("SI"@)
        } else if low == "latvia"@ || low == "latvija"@ {
            Option::Some("LV"@)
        } else if low == "estonia"@ || low == "eesti"@ {
            Option::Some("EE"@)
        } else if low == "cyprus"@ {
            Option::Some("CY"@)
        } else if low == "luxembourg"@ {
            Option::Some("LU"@)
        } else if low == "malta"@ {
            Option::Some("MT"@)
        } else if low == "czechia"@ || low == "czech republic"@ || low == "cesko"@ {
            Option::Some("CZ"@)
        } else if low == "hungary"@ || low == "magyarorszag"@ {
            Option::Some("HU"@)
        } else {
            Option::None
        }
    }
}

/// Maps a member-state name, or a bare two-letter code, to its
/// two-letter code: exactly the mapping of [`spec_country_iso`].
pub fn country_name_to_iso(name: &str) -> (r: Option<String>)
    ensures
        match r {
            Option::Some(c) => spec_country_iso(name@) == Option::Some(c@) && c@.len() == 2,
            Option::None => spec_country_iso(name@) is None,
        },
{
    proof {
        reveal_strlit("DE");
        reveal_strlit("FR");
        reveal_strlit("IT");
        reveal_strlit("ES");
        reveal_strlit("PL");
        reveal_strlit("RO");
        reveal_strlit("NL");
        reveal_strlit("BE");
        reveal_strlit("GR");
        reveal_strlit("PT");
        reveal_strlit("SE");
        reveal_strlit("AT");
        reveal_strlit("BG");
        reveal_strlit("DK");
        reveal_strlit("FI");
        reveal_strlit("IE");
        reveal_strlit("HR");
        reveal_strlit("SK");
        reveal_strlit("LT");
        reveal_strlit("SI");
        reveal_strlit("LV");
        reveal_strlit("EE");
        reveal_strlit("CY");
        reveal_strlit("LU");
        reveal_strlit("MT");
        reveal_strlit("CZ");
        reveal_strlit("HU");
    }
    let v = to_chars(name);
    if v.len() == 0 {
        return Option::None;
    }
    if v.len() == 2 {
        let up = ascii_upper_chars(&v);
        return Option::Some(chars_to_string(&up));
    }
    let low = chars_to_string(&ascii_lower_chars(&v));
    let code: &'static str = if str_equals(low.as_str(), "germany") || str_equals(
        low.as_str(),
        "deutschland",
    ) {
        "DE"
    } else if str_equals(low.as_str(), "france") {
        "FR"
    } else if str_equals(low.as_str(), "italy") || str_equals(low.as_str(), "italia") {
        "IT"
    } else if str_equals(low.as_str(), "spain") || str_equals(low.as_str(), "espana") {
        "ES"
    } else if str_equals(low.as_str(), "poland") || str_equals(low.as_str(), "polska") {
        "PL"
    } else if str_equals(low.as_str(), "romania") {
        "RO"
    } else if str_equals(low.as_str(), "netherlands") || str_equals(low.as_str(), "nederland") {
        "NL"
    } else if str_equals(low.as_str(), "belgium") || str_equals(low.as_str(), "belgique")
        || str_equals(low.as_str(), "belgie") {
        "BE"
    } else if str_equals(low.as_str(), "greece") || str_equals(low.as_str(), "hellas") {
        "GR"
    } else if str_equals(low.as_str(), "portugal") {
        "PT"
    } else if str_equals(low.as_str(), "sweden") || str_equals(low.as_str(), "sverige") {
        "SE"
    } else if str_equals(low.as_str(), "austria") || str_equals(low.as_str(), "osterreich") {
        "AT"
    } else if str_equals(low.as_str(), "bulgaria") {
        "BG"
    } else if str_equals(low.as_str(), "denmark") || str_equals(low.as_str(), "danmark") {
        "DK"
    } else if str_equals(low.as_str(), "finland") || str_equals(low.as_str(), "suomi") {
        "FI"
    } else if str_equals(low.as_str(), "ireland") || str_equals(low.as_str(), "eire") {
        "IE"
    } else if str_equals(low.as_str(), "croatia") || str_equals(low.as_str(), "hrvatska") {
        "HR"
    } else if str_equals(low.as_str(), "slovakia") || str_equals(low.as_str(), "slovensko") {
        "SK"
    } else if str_equals(low.as_str(), "lithuania") || str_equals(low.as_str(), "lietuva") {
        "LT"
    } else if str_equals(low.as_str(), "slovenia") || str_equals(low.as_str(), "slovenija") {
        "SI"
    } else if str_equals(low.as_str(), "latvia") || str_equals(low.as_str(), "latvija") {
        "LV"
    } else if str_equals(low.as_str(), "estonia") || str_equals(low.as_str(), "eesti") {
        "EE"
    } else if str_equals(low.as_str(), "cyprus") {
        "CY"
    } else if str_equals(low.as_str(), "luxembourg") {
        "LU"
    } else if str_equals(low.as_str(), "malta") {
        "MT"
    } else if str_equals(low.as_str(), "czechia") || str_equals(low.as_str(), "czech republic")
        || str_equals(low.as_str(), "cesko") {
        "CZ"
    } else if str_equals(low.as_str(), "hungary") || str_equals(low.as_str(), "magyarorszag") {
        "HU"
    } else {
        return Option::None;
    };
    Option::Some(String::from_str(code))
}

/// The value of a quoted attribute inside one markup line.
pub fn extract_attr(line: &Vec<char>, attr: &str) -> (r: Option<String>)
{
    let mut pat = to_chars(attr);
    pat.push('=');
    pat.push('"');
    let n: usize = line.len();
    let m: usize = pat.len();
    if m == 0 || m > n {
        return Option::None;
    }
    let mut i: usize = 0;
    while i <= n - m
        invariant
            n == line@.len(),
            m == pat@.len(),
            1 <= m <= n,
            i <= n,
        decreases n - i,
    {
        let mut k: usize = 0;
        let mut all: bool = true;
        while k < m
            invariant
                n == line@.len(),
                m == pat@.len(),
                1 <= m <= n,
                i <= n - m,
                k <= m,
            decreases m - k,
        {
            if line[i + k] != pat[k] {
                all = false;
            }
            k = k + 1;
        }
        if all {
            let mut out: Vec<char> = Vec::new();
            let mut j: usize = i + m;
            while j < n && line[j] != '"'
                invariant
                    n == line@.len(),
                    j <= n,
                decreases n - j,
            {
                out.push(line[j]);
                j = j + 1;
            }
            if out.len() > 0 {
                return Option::Some(chars_to_string(&out));
            }
            return Option::None;
        }
        i = i + 1;
    }
    Option::None
}

/// The text between the first closing and the next opening angle bracket.
pub fn extract_content(line: &Vec<char>) -> (r: Option<String>)
{
    let n: usize = line.len();
    let mut i: usize = 0;
    while i < n && line[i] != '>'
        invariant
            n == line@.len(),
            i <= n,
        decreases n - i,
    {
        i = i + 1;
    }
    if i >= n {
        return Option::None;
    }
    let mut out: Vec<char> = Vec::new();
    let mut j: usize = i + 1;
    while j < n && line[j] != '<'
        invariant
            n == line@.len(),
            j <= n,
        decreases n - j,
    {
        out.push(line[j]);
        j = j + 1;
    }
    let trimmed = crate::xmlscan::trim_chars(&out);
    if trimmed.len() > 0 {
        Option::Some(chars_to_string(&trimmed))
    } else {
        Option::None
    }
}

/// The whole text content of a markup line, kept when longer than two
/// characters.
pub fn extract_html_text(line: &Vec<char>) -> (r: Option<String>)
    ensures
        match r {
            Option::Some(s) => s@.len() > 2,
            Option::None => true,
        },
{
    let mut text: Vec<char> = Vec::new();
    let mut in_tag: bool = false;
    let mut i: usize = 0;
    while i < line.len()
        invariant
            i <= line@.len(),
        decreases line@.len() - i,
    {
        let c = line[i];
        if c == '<' {
            in_tag = true;
        } else if c == '>' {
            in_tag = false;
        } else if !in_tag {
            text.push(c);
        }
        i = i + 1;
    }
    let trimmed = crate::xmlscan::trim_chars(&text);
    if trimmed.len() > 2 {
        Option::Some(chars_to_string(&trimmed))
    } else {
        Option::None
    }
}

/// The member state named inside one markup line, as its code.
pub fn extract_country_from_context(line: &Vec<char>) -> (r: Option<String>)
{
    country_in_text(line)
}

/// One member entry assembled from a name, identifier and country.
fn mep_subject(name: String, id: Option<String>, country: Option<String>) -> (r: Option<
    ParsedSubject,
>)
    ensures
        r is None <==> name@.len() == 0,
        match r {
            Option::Some(s) => subject_wf(s),
            Option::None => true,
        },
{
    if name.as_str().unicode_len() == 0 {
        return Option::None;
    }
    proof {
        reveal_strlit("pep_eu_mep_");
    }
    let mut rc: Vec<char> = to_chars("pep_eu_mep_");
    let idc: Vec<char> = match &id {
        Option::Some(s) => to_chars(s.as_str()),
        Option::None => name_slug(name.as_str()),
    };
    let mut i: usize = 0;
    while i < idc.len()
        invariant
            i <= idc@.len(),
            rc@.len() >= 1,
        decreases idc@.len() - i,
    {
        rc.push(idc[i]);
        i = i + 1;
    }
    Option::Some(
        ParsedSubject {
            source_ref: chars_to_string(&rc),
            kind: SubjectKind::Person,
            primary_name: name,
            aliases: Vec::new(),
            date_of_birth: Option::None,
            date_of_birth_year: Option::None,
            country,
            nationalities: Vec::new(),
        },
    )
}

/// One member out of a single feed line.
pub fn parse_mep_line(line: &Vec<char>) -> (r: Option<ParsedSubject>)
    ensures
        match r {
            Option::Some(s) => subject_wf(s),
            Option::None => true,
        },
{
    let name: Option<String> = match extract_attr(line, "fullName") {
        Option::Some(v) => Option::Some(v),
        Option::None => {
            match extract_attr(line, "name") {
                Option::Some(v) => Option::Some(v),
                Option::None => extract_content(line),
            }
        },
    };
    match name {
        Option::Some(nm) => {
            let id = extract_attr(line, "id");
            let country = match extract_attr(line, "country") {
                Option::Some(c) => country_name_to_iso(c.as_str()),
                Option::None => Option::None,
            };
            mep_subject(nm, id, country)
        },
        Option::None => Option::None,
    }
}

/// Parses the member feed: a line-wise pass over `mep` and `member`
/// entries, falling back to a structural scan when the lines yield
/// nothing.
pub fn parse_mep_xml(xml: &str) -> (r: Vec<ParsedSubject>)
    ensures
        forall|i: int| 0 <= i < r@.len() ==> subject_wf(#[trigger] r@[i]),
        r@.len() == 0 ==> mep_scan(
            crate::xmlscan::scan_at(xml@, 0),
            crate::xmlscan::scan_at(xml@, 0).len() as int,
        ).count == 0,
{
    let lines = split_lines(xml);
    let mut subjects: Vec<ParsedSubject> = Vec::new();
    let mut li: usize = 0;
    while li < lines.len()
        invariant
            li <= lines@.len(),
            forall|q: int| 0 <= q < subjects@.len() ==> subject_wf(#[trigger] subjects@[q]),
        decreases lines@.len() - li,
    {
        let line = &lines[li];
        if str_contains(line, "<mep") || str_contains(line, "<member") {
            match parse_mep_line(line) {
                Option::Some(s) => {
                    subjects.push(s);
                },
                Option::None => {},
            }
        }
        li = li + 1;
    }
    if subjects.len() == 0 {
        return parse_mep_xml_structured(xml);
    }
    subjects
}

/// Whether a member element's own attributes already name it: a nonempty
/// full name, or failing that a nonempty plain name.
pub open spec fn mep_attr_named(attrs: Seq<(Seq<char>, Seq<char>)>) -> bool {
    match crate::xmlscan::spec_get_attr(attrs, "fullName"@) {
        Option::Some(v) => v.len() > 0,
        Option::None => match crate::xmlscan::spec_get_attr(attrs, "name"@) {
            Option::Some(v) => v.len() > 0,
            Option::None => false,
        },
    }
}

/// The scan state over the event stream: inside a member element or not,
/// the element whose text is next, whether the member is named, and how
/// many members have been emitted.
pub ghost struct MepScan {
    pub in_mep: bool,
    pub cur: Seq<char>,
    pub named: bool,
    pub count: int,
}

/// One event's effect on the scan: member elements open at `mep`,
/// `member` or `MEP` (named at once when an attribute names them), name
/// texts name the member, and a named member emits one subject at its end.
pub open spec fn mep_step(st: MepScan, e: XmlEventM) -> MepScan {
    match e {
        XmlEventM::Start { name, attrs, .. } => {
            if name == "mep"@ || name == "member"@ || name == "MEP"@ {
                MepScan {
                    in_mep: true,
                    cur: name,
                    named: mep_attr_named(attrs),
                    count: st.count,
                }
            } else {
                MepScan { cur: name, ..st }
            }
        },
        XmlEventM::Text { .. } => {
            if st.in_mep && (st.cur == "fullName"@ || st.cur == "name"@ || st.cur == "Name"@) {
                MepScan { named: true, ..st }
            } else {
                st
            }
        },
        XmlEventM::End { name } => {
            if st.in_mep && (name == "mep"@ || name == "member"@ || name == "MEP"@) {
                MepScan {
                    in_mep: false,
                    cur: Seq::empty(),
                    named: false,
                    count: st.count + if st.named {
                        1int
                    } else {
                        0int
                    },
                }
            } else {
                MepScan { cur: Seq::empty(), ..st }
            }
        },
    }
}

/// The scan state after the first `i` events.
pub open spec fn mep_scan(events: Seq<XmlEventM>, i: int) -> MepScan
    decreases i,
    when 0 <= i <= events.len()
{
    if i <= 0 {
        MepScan { in_mep: false, cur: Seq::empty(), named: false, count: 0 }
    } else {
        mep_step(mep_scan(events, i - 1), events[i - 1])
    }
}

/// Parses the member feed structurally: `mep`, `member` or `MEP`
/// elements with their attributes and child text runs.
pub fn parse_mep_xml_structured(xml: &str) -> (r: Vec<ParsedSubject>)
    ensures
        forall|i: int| 0 <= i < r@.len() ==> subject_wf(#[trigger] r@[i]),
        r@.len() == mep_scan(
            crate::xmlscan::scan_at(xml@, 0),
            crate::xmlscan::scan_at(xml@, 0).len() as int,
        ).count,
{
    let events = scan_xml(xml);
    let r = parse_mep_events(&events);
    proof {
        assert(crate::xmlscan::events_model(events@).len() == events@.len());
    }
    r
}

/// Parses the scanned event stream of the member feed: exactly one
/// subject per named member element, every subject well-formed.
pub fn parse_mep_events(events: &Vec<XmlEvent>) -> (r: Vec<ParsedSubject>)
    requires
        forall|q: int| 0 <= q < events@.len() ==> crate::xmlscan::event_wf(#[trigger] events@[q]),
    ensures
        forall|i: int| 0 <= i < r@.len() ==> subject_wf(#[trigger] r@[i]),
        r@.len() == mep_scan(
            crate::xmlscan::events_model(events@),
            events@.len() as int,
        ).count,
{
    let mut subjects: Vec<ParsedSubject> = Vec::new();
    let mut in_mep: bool = false;
    let mut cur_name: Option<String> = None;
    let mut cur_id: Option<String> = None;
    let mut cur_country: Option<String> = None;
    let mut current: Vec<char> = Vec::new();
    let n: usize = events.len();
    let ghost m = crate::xmlscan::events_model(events@);
    let mut i: usize = 0;
    while i < n
        invariant
            n == events@.len(),
            i <= n,
            m == crate::xmlscan::events_model(events@),
            m.len() == n,
            forall|q: int| 0 <= q < events@.len() ==> crate::xmlscan::event_wf(
                #[trigger] events@[q],
            ),
            forall|q: int| 0 <= q < subjects@.len() ==> subject_wf(#[trigger] subjects@[q]),
            mep_scan(m, i as int).in_mep == in_mep,
            mep_scan(m, i as int).cur == current@,
            mep_scan(m, i as int).named == (cur_name matches Option::Some(nv)
                && nv@.len() > 0),
            mep_scan(m, i as int).count == subjects@.len(),
        decreases n - i,
    {
        proof {
            assert(m[i as int] == crate::xmlscan::event_model(events@[i as int]));
            assert(mep_scan(m, i as int + 1) == mep_step(mep_scan(m, i as int), m[i as int]));
        }
        match &events[i] {
            XmlEvent::Start { name, attrs, .. } => {
                current = clone_chars(name);
                if chars_eq_str(name, "mep") || chars_eq_str(name, "member") || chars_eq_str(
                    name,
                    "MEP",
                ) {
                    in_mep = true;
                    cur_name = Option::None;
                    cur_id = Option::None;
                    cur_country = Option::None;
                    match get_attr(attrs, "id") {
                        Option::Some(v) => {
                            cur_id = Option::Some(chars_to_string(&v));
                        },
                        Option::None => {},
                    }
                    match get_attr(attrs, "fullName") {
                        Option::Some(v) => {
                            cur_name = Option::Some(chars_to_string(&v));
                        },
                        Option::None => {
                            match get_attr(attrs, "name") {
                                Option::Some(v) => {
                                    cur_name = Option::Some(chars_to_string(&v));
                                },
                                Option::None => {},
                            }
                        },
                    }
                    match get_attr(attrs, "country") {
                        Option::Some(v) => {
                            cur_country = Option::Some(chars_to_string(&v));
                        },
                        Option::None => {},
                    }
                }
            },
            XmlEvent::Text { text } => {
                if in_mep {
                    let ts = chars_to_string(text);
                    if chars_eq_str(&current, "fullName") || chars_eq_str(&current, "name")
                        || chars_eq_str(&current, "Name") {
                        cur_name = Option::Some(ts);
                    } else if chars_eq_str(&current, "id") || chars_eq_str(&current, "Id")
                        || chars_eq_str(&current, "ID") {
                        cur_id = Option::Some(ts);
                    } else if chars_eq_str(&current, "country") || chars_eq_str(
                        &current,
                        "Country",
                    ) {
                        cur_country = Option::Some(ts);
                    }
                }
            },
            XmlEvent::End { name } => {
                if in_mep && (chars_eq_str(name, "mep") || chars_eq_str(name, "member")
                    || chars_eq_str(name, "MEP")) {
                    let nm = cur_name;
                    cur_name = Option::None;
                    match nm {
                        Option::Some(nv) => {
                            let id = cur_id;
                            cur_id = Option::None;
                            let country = match &cur_country {
                                Option::Some(c) => country_name_to_iso(c.as_str()),
                                Option::None => Option::None,
                            };
                            cur_country = Option::None;
                            match mep_subject(nv, id, country) {
                                Option::Some(s) => {
                                    subjects.push(s);
                                },
                                Option::None => {},
                            }
                        },
                        Option::None => {},
                    }
                    in_mep = false;
                }
                current = Vec::new();
            },
        }
        i = i + 1;
    }
    subjects
}

/// Scrapes member names out of the listing page markup.
pub fn parse_mep_html(html: &str) -> (r: Vec<ParsedSubject>)
    ensures
        forall|i: int| 0 <= i < r@.len() ==> subject_wf(#[trigger] r@[i]),
{
    let lines = split_lines(html);
    let mut subjects: Vec<ParsedSubject> = Vec::new();
    let mut li: usize = 0;
    while li < lines.len()
        invariant
            li <= lines@.len(),
            forall|q: int| 0 <= q < subjects@.len() ==> subject_wf(#[trigger] subjects@[q]),
        decreases lines@.len() - li,
    {
        let line = &lines[li];
        if str_contains(line, "erpl_member") || str_contains(line, "mep-item") || str_contains(
            line,
            "t-item",
        ) {
            match extract_html_text(line) {
                Option::Some(nm) => {
                    let nc = to_chars(nm.as_str());
                    let mut has_space: bool = false;
                    let mut k: usize = 0;
                    while k < nc.len()
                        invariant
                            k <= nc@.len(),
                        decreases nc@.len() - k,
                    {
                        if nc[k] == ' ' {
                            has_space = true;
                        }
                        k = k + 1;
                    }
                    if has_space {
                        // Keep the first occurrence of each name.
                        let mut dup: bool = false;
                        let mut d: usize = 0;
                        while d < subjects.len()
                            invariant
                                d <= subjects@.len(),
                                forall|q: int|
                                    0 <= q < subjects@.len() ==> subject_wf(
                                        #[trigger] subjects@[q],
                                    ),
                            decreases subjects@.len() - d,
                        {
                            if str_equals(subjects[d].primary_name.as_str(), nm.as_str()) {
                                dup = true;
                            }
                            d = d + 1;
                        }
                        if !dup {
                            let country = extract_country_from_context(line);
                            match mep_subject(nm, Option::None, country) {
                                Option::Some(s) => {
                                    subjects.push(s);
                                },
                                Option::None => {},
                            }
                        }
                    }
                },
                Option::None => {},
            }
        }
        li = li + 1;
    }
    subjects
}

} // verus!
