//! Parser for the UK sanctions roster: text-driven entries under
//! `Designation` elements.

use vstd::prelude::*;
use vstd::string::StringExecFns;
use crate::subject::{ParsedAlias, ParsedSubject, SubjectKind, subject_wf};
use crate::xmlscan::{scan_xml, XmlEvent, XmlEventM, events_model, event_model, scan_at};
use crate::strutil::{
    chars_eq_str, chars_to_string, to_chars, ascii_upper_chars, parse_u32_chars, clone_chars,
    contains_chars,
};
use crate::parser_eu::name_slug;
use crate::parser_ofac::{prefixed_ref, spec_first_year, year_at, year_window, window_val};

verus! {

/// The first plausible year in a date of the kinds the UK roster uses:
/// a leading year, the year field of a slash-separated date, or any
/// four-digit window.  Whatever is returned reads off some four-digit
/// window of the text; nothing is returned only when no window is a
/// plausible year.
pub fn extract_year_uk(date_str: &str) -> (r: Option<i32>)
    ensures
        match r {
            Option::Some(y) => 1900 <= y < 2100 && (exists|j: int|
                #[trigger] year_window(date_str@, j) && window_val(date_str@, j) == y),
            Option::None => spec_first_year(date_str@, 0) is None,
        },
{
    let v = to_chars(date_str);
    let n: usize = v.len();
    if n >= 4 {
        match year_at(&v, 0) {
            Option::Some(y) => {
                return Option::Some(y);
            },
            Option::None => {},
        }
    }
    // The third slash-separated field, when it is itself a year.
    let mut slashes: usize = 0;
    let mut third_start: usize = 0;
    let mut k: usize = 0;
    while k < n
        invariant
            n == v@.len(),
            k <= n,
            third_start <= n,
            slashes <= k,
        decreases n - k,
    {
        if v[k] == '/' {
            slashes = slashes + 1;
            if slashes == 2 && k + 1 <= n {
                third_start = k + 1;
            }
            if slashes > 2 {
                third_start = n;
            }
        }
        k = k + 1;
    }
    if slashes == 2 && third_start < n && n - third_start == 4 {
        match year_at(&v, third_start) {
            Option::Some(y) => {
                return Option::Some(y);
            },
            Option::None => {},
        }
    }
    // Any four-digit window.
    if n < 4 {
        proof {
            assert(spec_first_year(v@, 0) is None);
        }
        return Option::None;
    }
    let mut i: usize = 0;
    while i <= n - 4
        invariant
            v@ == date_str@,
            4 <= n == v@.len(),
            i <= n,
            spec_first_year(v@, 0) == spec_first_year(v@, i as int),
        decreases n - i,
    {
        match year_at(&v, i) {
            Option::Some(y) => {
                return Option::Some(y);
            },
            Option::None => {},
        }
        i = i + 1;
    }
    Option::None
}

/// Builder collecting one `Designation`.
pub struct SubjectBuilder {
    pub source_ref: Option<String>,
    pub group_type: Option<String>,
    pub name_parts: Vec<String>,
    pub full_name: Option<String>,
    pub aliases: Vec<String>,
    pub date_of_birth: Option<String>,
    pub date_of_birth_year: Option<i32>,
    pub country: Option<String>,
    pub nationalities: Vec<String>,
}

/// Years in the builder stay plausible.
pub open spec fn uk_builder_wf(b: SubjectBuilder) -> bool {
    match b.date_of_birth_year {
        Option::Some(y) => 1900 <= y < 2100,
        Option::None => true,
    }
}

impl SubjectBuilder {
    pub fn new() -> (r: SubjectBuilder)
        ensures
            uk_builder_wf(r),
            r.name_parts@.len() == 0,
            r.full_name is None,
            r.source_ref is None,
            r.date_of_birth_year is None,
    {
        SubjectBuilder {
            source_ref: Option::None,
            group_type: Option::None,
            name_parts: Vec::new(),
            full_name: Option::None,
            aliases: Vec::new(),
            date_of_birth: Option::None,
            date_of_birth_year: Option::None,
            country: Option::None,
            nationalities: Vec::new(),
        }
    }

    /// Keeps a nonempty name fragment.
    pub fn add_name_part(&mut self, part: &str)
        ensures
            final (self).date_of_birth_year == old(self).date_of_birth_year,
            final (self).full_name == old(self).full_name,
            part@.len() > 0 ==> final (self).name_parts@.len() == old(self).name_parts@.len() + 1
                && final (self).name_parts@.last()@ == part@,
            part@.len() == 0 ==> final (self).name_parts@ == old(self).name_parts@,
            forall|k: int|
                0 <= k < old(self).name_parts@.len() ==> #[trigger] final (self).name_parts@[k]
                    == old(self).name_parts@[k],
    {
        if part.unicode_len() > 0 {
            self.name_parts.push(String::from_str(part));
        }
    }

    /// Keeps a nonempty alias.
    pub fn add_alias(&mut self, alias: &str)
        ensures
            final (self).date_of_birth_year == old(self).date_of_birth_year,
            final (self).full_name == old(self).full_name,
            final (self).name_parts@ == old(self).name_parts@,
    {
        if alias.unicode_len() > 0 {
            self.aliases.push(String::from_str(alias));
        }
    }

    /// Keeps the first country seen: a two-letter value uppercased, a
    /// longer one reduced to its first two capitals, or dropped.
    pub fn add_country(&mut self, country: &str)
        ensures
            final (self).date_of_birth_year == old(self).date_of_birth_year,
            final (self).full_name == old(self).full_name,
            final (self).name_parts@ == old(self).name_parts@,
    {
        if country.unicode_len() > 0 && self.country.is_none() {
            let v = to_chars(country);
            let iso: Vec<char> = if v.len() == 2 {
                ascii_upper_chars(&v)
            } else {
                let mut caps: Vec<char> = Vec::new();
                let mut i: usize = 0;
                while i < v.len()
                    invariant
                        i <= v@.len(),
                        caps@.len() <= 2,
                    decreases v@.len() - i,
                {
                    if caps.len() >= 2 {
                        break;
                    }
                    let u = v[i] as u32;
                    if 0x41 <= u && u <= 0x5A {
                        caps.push(v[i]);
                    }
                    i = i + 1;
                }
                caps
            };
            if iso.len() == 2 {
                let s = chars_to_string(&iso);
                self.country = Option::Some(s.clone());
                self.nationalities.push(s);
            }
        }
    }

    /// Produces the canonical subject exactly when a name was collected:
    /// the full name when one was given, else the joined name fragments.
    pub fn build(self) -> (r: Option<ParsedSubject>)
        requires
            uk_builder_wf(self),
        ensures
            r is None <==> (match self.full_name {
                Option::Some(f) => f@.len() == 0,
                Option::None => forall|k: int|
                    0 <= k < self.name_parts@.len() ==> (#[trigger] self.name_parts@[k])@.len()
                        == 0,
            }),
            match r {
                Option::Some(s) => subject_wf(s),
                Option::None => true,
            },
    {
        let mut name: Vec<char> = Vec::new();
        match &self.full_name {
            Option::Some(f) => {
                name = to_chars(f.as_str());
            },
            Option::None => {
                let mut i: usize = 0;
                while i < self.name_parts.len()
                    invariant
                        i <= self.name_parts@.len(),
                        (name@.len() == 0) <==> (forall|k: int|
                            0 <= k < i ==> (#[trigger] self.name_parts@[k])@.len() == 0),
                    decreases self.name_parts@.len() - i,
                {
                    if name.len() > 0 {
                        name.push(' ');
                    }
                    let ghost base = name@;
                    let pc = to_chars(self.name_parts[i].as_str());
                    let mut j: usize = 0;
                    while j < pc.len()
                        invariant
                            pc@ == self.name_parts@[i as int]@,
                            i < self.name_parts@.len(),
                            j <= pc@.len(),
                            name@ == base + pc@.take(j as int),
                        decreases pc@.len() - j,
                    {
                        name.push(pc[j]);
                        proof {
                            assert(name@ =~= base + pc@.take(j + 1));
                        }
                        j = j + 1;
                    }
                    proof {
                        assert(pc@.take(pc@.len() as int) =~= pc@);
                    }
                    i = i + 1;
                }
            },
        }
        if name.len() == 0 {
            return Option::None;
        }
        let primary_name = chars_to_string(&name);
        let source_ref = match &self.source_ref {
            Option::Some(id) => prefixed_ref("uk", to_chars(id.as_str())),
            Option::None => prefixed_ref("uk", name_slug(primary_name.as_str())),
        };
        let kind = match &self.group_type {
            Option::Some(t) => {
                let up = ascii_upper_chars(&to_chars(t.as_str()));
                let ind = to_chars("INDIVIDUAL");
                let per = to_chars("PERSON");
                if contains_chars(&up, &ind) || contains_chars(&up, &per) {
                    SubjectKind::Person
                } else {
                    SubjectKind::Entity
                }
            },
            Option::None => SubjectKind::Entity,
        };
        let mut aliases: Vec<ParsedAlias> = Vec::new();
        let mut i: usize = 0;
        while i < self.aliases.len()
            invariant
                i <= self.aliases@.len(),
            decreases self.aliases@.len() - i,
        {
            aliases.push(
                ParsedAlias { name: self.aliases[i].clone(), alias_type: String::from_str("aka") },
            );
            i = i + 1;
        }
        Option::Some(
            ParsedSubject {
                source_ref,
                kind,
                primary_name,
                aliases,
                date_of_birth: self.date_of_birth,
                date_of_birth_year: self.date_of_birth_year,
                country: self.country,
                nationalities: self.nationalities,
            },
        )
    }
}

/// The scan state over the event stream: inside a designation or not,
/// the element whose text is next, whether the designation collected a
/// name, and how many subjects have been emitted.
pub ghost struct UkScan {
    pub in_entry: bool,
    pub cur: Seq<char>,
    pub has_name: bool,
    pub count: int,
}

/// One event's effect on the scan: designations open at `Designation`, a
/// nonempty whole-name or name-fragment text marks the entry named, and
/// a named entry emits one subject at its end.
pub open spec fn uk_step(st: UkScan, e: XmlEventM) -> UkScan {
    match e {
        XmlEventM::Start { name, .. } => {
            if name == "Designation"@ {
                UkScan { in_entry: true, cur: name, has_name: false, count: st.count }
            } else {
                UkScan { cur: name, ..st }
            }
        },
        XmlEventM::End { name } => {
            if name == "Designation"@ {
                UkScan {
                    in_entry: false,
                    cur: Seq::empty(),
                    has_name: false,
                    count: st.count + if st.in_entry && st.has_name {
                        1int
                    } else {
                        0int
                    },
                }
            } else {
                UkScan { cur: Seq::empty(), ..st }
            }
        },
        XmlEventM::Text { text } => {
            if st.in_entry && (st.cur == "Name1"@ || st.cur == "Name2"@ || st.cur == "Name3"@
                || st.cur == "Name4"@ || st.cur == "Name5"@ || st.cur == "Name6"@ || st.cur
                == "FullName"@ || st.cur == "WholeName"@) && text.len() > 0 {
                UkScan { has_name: true, ..st }
            } else {
                st
            }
        },
    }
}

/// The scan state after the first `i` events.
pub open spec fn uk_scan(events: Seq<XmlEventM>, i: int) -> UkScan
    decreases i,
    when 0 <= i <= events.len()
{
    if i <= 0 {
        UkScan { in_entry: false, cur: Seq::empty(), has_name: false, count: 0 }
    } else {
        uk_step(uk_scan(events, i - 1), events[i - 1])
    }
}

/// Parses the UK sanctions list: every well-formed `Designation` yields
/// one canonical subject; malformed entries are skipped.
pub fn parse_uk_xml(xml: &str) -> (r: Vec<ParsedSubject>)
    ensures
        forall|i: int| 0 <= i < r@.len() ==> subject_wf(#[trigger] r@[i]),
        r@.len() == uk_scan(scan_at(xml@, 0), scan_at(xml@, 0).len() as int).count,
{
    let events = scan_xml(xml);
    let r = parse_uk_events(&events);
    proof {
        assert(events_model(events@).len() == events@.len());
    }
    r
}

/// Parses the scanned event stream of the UK sanctions list: exactly one
/// subject per named designation, every subject well-formed.
pub fn parse_uk_events(events: &Vec<XmlEvent>) -> (r: Vec<ParsedSubject>)
    requires
        forall|q: int| 0 <= q < events@.len() ==> crate::xmlscan::event_wf(#[trigger] events@[q]),
    ensures
        forall|i: int| 0 <= i < r@.len() ==> subject_wf(#[trigger] r@[i]),
        r@.len() == uk_scan(events_model(events@), events@.len() as int).count,
{
    let mut subjects: Vec<ParsedSubject> = Vec::new();
    let mut builder: Option<SubjectBuilder> = None;
    let mut current: Vec<char> = Vec::new();
    let n: usize = events.len();
    let ghost m = events_model(events@);
    let mut i: usize = 0;
    while i < n
        invariant
            n == events@.len(),
            i <= n,
            m == events_model(events@),
            m.len() == n,
            forall|q: int| 0 <= q < events@.len() ==> crate::xmlscan::event_wf(
                #[trigger] events@[q],
            ),
            forall|q: int| 0 <= q < subjects@.len() ==> subject_wf(#[trigger] subjects@[q]),
            match builder {
                Option::Some(b) => uk_builder_wf(b) && (forall|k: int|
                    0 <= k < b.name_parts@.len() ==> (#[trigger] b.name_parts@[k])@.len() > 0)
                    && (match b.full_name {
                    Option::Some(f) => f@.len() > 0,
                    Option::None => true,
                }),
                Option::None => true,
            },
            uk_scan(m, i as int).in_entry == (builder is Some),
            uk_scan(m, i as int).cur == current@,
            uk_scan(m, i as int).has_name == (match builder {
                Option::Some(b) => b.name_parts@.len() > 0 || b.full_name is Some,
                Option::None => false,
            }),
            uk_scan(m, i as int).count == subjects@.len(),
        decreases n - i,
    {
        proof {
            assert(m[i as int] == event_model(events@[i as int]));
            assert(uk_scan(m, i as int + 1) == uk_step(uk_scan(m, i as int), m[i as int]));
            reveal_strlit("Designation");
            reveal_strlit("UniqueID");
            reveal_strlit("OFSIGroupID");
            reveal_strlit("GroupTypeDescription");
            reveal_strlit("Name1");
            reveal_strlit("Name2");
            reveal_strlit("Name3");
            reveal_strlit("Name4");
            reveal_strlit("Name5");
            reveal_strlit("Name6");
            reveal_strlit("FullName");
            reveal_strlit("WholeName");
            reveal_strlit("AliasName");
            reveal_strlit("Alias");
            reveal_strlit("Country");
            reveal_strlit("Nationality");
            reveal_strlit("DOB");
            reveal_strlit("DateOfBirth");
            assert(crate::xmlscan::event_wf(events@[i as int]));
            assert("Designation"@.len() == 11 && "UniqueID"@.len() == 8 && "OFSIGroupID"@.len()
                == 11 && "GroupTypeDescription"@.len() == 20 && "Name1"@.len() == 5
                && "Name2"@.len() == 5 && "Name3"@.len() == 5 && "Name4"@.len() == 5
                && "Name5"@.len() == 5 && "Name6"@.len() == 5 && "FullName"@.len() == 8
                && "WholeName"@.len() == 9 && "AliasName"@.len() == 9 && "Alias"@.len() == 5
                && "Country"@.len() == 7 && "Nationality"@.len() == 11 && "DOB"@.len() == 3
                && "DateOfBirth"@.len() == 11);
            assert("Name1"@[4] == '1' && "Name2"@[4] == '2' && "Name3"@[4] == '3' && "Name4"@[4]
                == '4' && "Name5"@[4] == '5' && "Name6"@[4] == '6');
            assert("UniqueID"@[0] == 'U' && "FullName"@[0] == 'F' && "WholeName"@[0] == 'W'
                && "AliasName"@[0] == 'A' && "Alias"@[0] == 'A' && "Name1"@[0] == 'N'
                && "Name2"@[0] == 'N' && "Name3"@[0] == 'N' && "Name4"@[0] == 'N'
                && "Name5"@[0] == 'N' && "Name6"@[0] == 'N');
        }
        match &events[i] {
            XmlEvent::Start { name, .. } => {
                current = clone_chars(name);
                if chars_eq_str(name, "Designation") {
                    builder = Option::Some(SubjectBuilder::new());
                }
            },
            XmlEvent::End { name } => {
                if chars_eq_str(name, "Designation") {
                    let taken = builder;
                    builder = Option::None;
                    proof {
                        if taken is Some {
                            let ghost b = taken->Some_0;
                            if b.name_parts@.len() > 0 {
                                assert(b.name_parts@[0]@.len() > 0);
                            }
                        }
                    }
                    match taken {
                        Option::Some(b) => {
                            match b.build() {
                                Option::Some(s) => {
                                    subjects.push(s);
                                },
                                Option::None => {},
                            }
                        },
                        Option::None => {},
                    }
                }
                current = Vec::new();
            },
            XmlEvent::Text { text } => {
                match &mut builder {
                    Option::Some(b) => {
                        let ts = chars_to_string(text);
                        if chars_eq_str(&current, "UniqueID") || chars_eq_str(
                            &current,
                            "OFSIGroupID",
                        ) {
                            if b.source_ref.is_none() {
                                b.source_ref = Option::Some(ts);
                            }
                        } else if chars_eq_str(&current, "GroupTypeDescription") {
                            b.group_type = Option::Some(ts);
                        } else if chars_eq_str(&current, "Name1") || chars_eq_str(&current, "Name2")
                            || chars_eq_str(&current, "Name3") || chars_eq_str(&current, "Name4")
                            || chars_eq_str(&current, "Name5") || chars_eq_str(&current, "Name6") {
                            b.add_name_part(ts.as_str());
                        } else if chars_eq_str(&current, "FullName") || chars_eq_str(
                            &current,
                            "WholeName",
                        ) {
                            b.full_name = Option::Some(ts);
                        } else if chars_eq_str(&current, "AliasName") || chars_eq_str(
                            &current,
                            "Alias",
                        ) {
                            b.add_alias(ts.as_str());
                        } else if chars_eq_str(&current, "Country") || chars_eq_str(
                            &current,
                            "Nationality",
                        ) {
                            b.add_country(ts.as_str());
                        } else if chars_eq_str(&current, "DOB") || chars_eq_str(
                            &current,
                            "DateOfBirth",
                        ) {
                            match extract_year_uk(ts.as_str()) {
                                Option::Some(y) => {
                                    b.date_of_birth_year = Option::Some(y);
                                },
                                Option::None => {},
                            }
                            b.date_of_birth = Option::Some(ts);
                        }
                    },
                    Option::None => {},
                }
            },
        }
        i = i + 1;
    }
    subjects
}

} // verus!
