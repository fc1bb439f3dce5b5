//! Parser for the Canadian sanctions roster: text-driven entries under
//! `Entity` and `Individual` elements.

use vstd::prelude::*;
use vstd::string::StringExecFns;
use crate::subject::{ParsedAlias, ParsedSubject, SubjectKind, subject_wf};
use crate::xmlscan::{scan_xml, XmlEvent, XmlEventM, events_model, event_model, scan_at};
use crate::strutil::{chars_eq_str, chars_to_string, to_chars, ascii_lower_chars, clone_chars};

verus! {

/// The fallback reference of an entry: the given prefix and the name,
/// lowercased with spaces turned into underscores.
pub fn name_ref(prefix: &str, name: &str) -> (r: String)
    ensures
        r@.len() > 0,
{
    let pc = to_chars(prefix);
    let nc = ascii_lower_chars(&to_chars(name));
    let mut out: Vec<char> = Vec::new();
    let mut i: usize = 0;
    while i < pc.len()
        invariant
            i <= pc@.len(),
        decreases pc@.len() - i,
    {
        out.push(pc[i]);
        i = i + 1;
    }
    out.push('_');
    let mut j: usize = 0;
    while j < nc.len()
        invariant
            j <= nc@.len(),
            out@.len() >= 1,
        decreases nc@.len() - j,
    {
        if nc[j] == ' ' {
            out.push('_');
        } else {
            out.push(nc[j]);
        }
        j = j + 1;
    }
    chars_to_string(&out)
}

/// Parses the Canadian list: every named `Entity` or `Individual` yields
/// one canonical subject, keyed by a slug of its name.
pub fn parse_canada_sanctions(xml: &str) -> (r: Vec<ParsedSubject>)
    ensures
        forall|i: int| 0 <= i < r@.len() ==> subject_wf(#[trigger] r@[i]),
{
    parse_name_country(xml, "canada", "Individual")
}

/// The scan state over the event stream: inside an entry or not, the
/// element whose text is next, a pending name run, whether the entry's
/// primary name is set, and how many subjects have been emitted.
pub ghost struct RosterScan {
    pub in_subject: bool,
    pub cur: Seq<char>,
    pub pending: bool,
    pub has_primary: bool,
    pub count: int,
}

/// One event's effect on the scan, mirroring the name-and-country roster
/// shape: entries open at `Entity` or the person element, `Name` text
/// becomes the pending name, a closed `Name` fixes the primary name, and
/// an entry with a primary name emits one subject at its end.
pub open spec fn roster_step(st: RosterScan, e: XmlEventM, person_tag: Seq<char>) -> RosterScan {
    match e {
        XmlEventM::Start { name, .. } => {
            if name == "Entity"@ || name == person_tag {
                RosterScan {
                    in_subject: true,
                    cur: name,
                    pending: false,
                    has_primary: false,
                    count: st.count,
                }
            } else {
                RosterScan { cur: name, ..st }
            }
        },
        XmlEventM::End { name } => {
            if name == "Name"@ || name == "FullName"@ {
                RosterScan {
                    cur: Seq::empty(),
                    pending: false,
                    has_primary: st.has_primary || st.pending,
                    ..st
                }
            } else if name == "Entity"@ || name == person_tag {
                RosterScan {
                    in_subject: false,
                    cur: Seq::empty(),
                    pending: st.pending,
                    has_primary: false,
                    count: st.count + if st.has_primary {
                        1int
                    } else {
                        0int
                    },
                }
            } else {
                RosterScan { cur: Seq::empty(), ..st }
            }
        },
        XmlEventM::Text { text } => {
            if st.in_subject && (st.cur == "Name"@ || st.cur == "FullName"@) && text.len() > 0 {
                RosterScan { pending: true, ..st }
            } else {
                st
            }
        },
    }
}

/// The scan state after the first `i` events.
pub open spec fn roster_scan(events: Seq<XmlEventM>, i: int, person_tag: Seq<char>) -> RosterScan
    decreases i,
    when 0 <= i <= events.len()
{
    if i <= 0 {
        RosterScan {
            in_subject: false,
            cur: Seq::empty(),
            pending: false,
            has_primary: false,
            count: 0,
        }
    } else {
        roster_step(roster_scan(events, i - 1, person_tag), events[i - 1], person_tag)
    }
}

/// The shared scan for the name-and-country roster shape: `Name` and
/// `Country` runs inside `Entity` or person elements.
pub fn parse_name_country(xml: &str, prefix: &str, person_tag: &str) -> (r: Vec<ParsedSubject>)
    ensures
        forall|i: int| 0 <= i < r@.len() ==> subject_wf(#[trigger] r@[i]),
        r@.len() == roster_scan(
            scan_at(xml@, 0),
            scan_at(xml@, 0).len() as int,
            person_tag@,
        ).count,
{
    let events = scan_xml(xml);
    let r = parse_name_country_events(&events, prefix, person_tag);
    proof {
        assert(events_model(events@).len() == events@.len());
    }
    r
}

/// Parses the scanned event stream of a name-and-country roster: exactly
/// one subject per named entry, every subject well-formed.
pub fn parse_name_country_events(
    events: &Vec<XmlEvent>,
    prefix: &str,
    person_tag: &str,
) -> (r: Vec<ParsedSubject>)
    requires
        forall|q: int| 0 <= q < events@.len() ==> crate::xmlscan::event_wf(#[trigger] events@[q]),
    ensures
        forall|i: int| 0 <= i < r@.len() ==> subject_wf(#[trigger] r@[i]),
        r@.len() == roster_scan(events_model(events@), events@.len() as int, person_tag@).count,
{
    let mut subjects: Vec<ParsedSubject> = Vec::new();
    let mut kind: SubjectKind = SubjectKind::Entity;
    let mut in_subject: bool = false;
    let mut primary: Option<String> = None;
    let mut aliases: Vec<ParsedAlias> = Vec::new();
    let mut country: Option<String> = None;
    let mut current: Vec<char> = Vec::new();
    let mut pending: Option<String> = None;
    let n: usize = events.len();
    let ghost m = events_model(events@);
    let mut i: usize = 0;
    while i < n
        invariant
            n == events@.len(),
            i <= n,
            m == events_model(events@),
            m.len() == n,
            forall|q: int| 0 <= q < events@.len() ==> crate::xmlscan::event_wf(
                #[trigger] events@[q],
            ),
            forall|q: int| 0 <= q < subjects@.len() ==> subject_wf(#[trigger] subjects@[q]),
            match primary {
                Option::Some(p) => p@.len() > 0,
                Option::None => true,
            },
            match pending {
                Option::Some(p) => p@.len() > 0,
                Option::None => true,
            },
            roster_scan(m, i as int, person_tag@).in_subject == in_subject,
            roster_scan(m, i as int, person_tag@).cur == current@,
            roster_scan(m, i as int, person_tag@).pending == (pending is Some),
            roster_scan(m, i as int, person_tag@).has_primary == (primary is Some),
            roster_scan(m, i as int, person_tag@).count == subjects@.len(),
        decreases n - i,
    {
        proof {
            assert(m[i as int] == event_model(events@[i as int]));
            assert(roster_scan(m, i as int + 1, person_tag@) == roster_step(
                roster_scan(m, i as int, person_tag@),
                m[i as int],
                person_tag@,
            ));
            reveal_strlit("Entity");
            reveal_strlit("Name");
            reveal_strlit("FullName");
            reveal_strlit("Country");
            reveal_strlit("Nationality");
            assert(crate::xmlscan::event_wf(events@[i as int]));
            assert("Entity"@.len() == 6 && "Name"@.len() == 4 && "FullName"@.len() == 8
                && "Country"@.len() == 7 && "Nationality"@.len() == 11);
        }
        match &events[i] {
            XmlEvent::Start { name, .. } => {
                current = clone_chars(name);
                if chars_eq_str(name, "Entity") || chars_eq_str(name, person_tag) {
                    in_subject = true;
                    kind = if chars_eq_str(name, person_tag) {
                        SubjectKind::Person
                    } else {
                        SubjectKind::Entity
                    };
                    primary = Option::None;
                    aliases = Vec::new();
                    country = Option::None;
                    pending = Option::None;
                }
            },
            XmlEvent::Text { text } => {
                if in_subject {
                    if chars_eq_str(&current, "Name") || chars_eq_str(&current, "FullName") {
                        pending = Option::Some(chars_to_string(text));
                    } else if chars_eq_str(&current, "Country") || chars_eq_str(
                        &current,
                        "Nationality",
                    ) {
                        if country.is_none() && text.len() > 0 {
                            country = Option::Some(chars_to_string(text));
                        }
                    }
                }
            },
            XmlEvent::End { name } => {
                if chars_eq_str(name, "Name") || chars_eq_str(name, "FullName") {
                    let taken = pending;
                    pending = Option::None;
                    match taken {
                        Option::Some(nm) => {
                            if nm.as_str().unicode_len() > 0 {
                                match &primary {
                                    Option::Some(_) => {
                                        aliases.push(
                                            ParsedAlias {
                                                name: nm,
                                                alias_type: String::from_str("aka"),
                                            },
                                        );
                                    },
                                    Option::None => {
                                        primary = Option::Some(nm);
                                    },
                                }
                            }
                        },
                        Option::None => {},
                    }
                } else if chars_eq_str(name, "Entity") || chars_eq_str(name, person_tag) {
                    let taken = primary;
                    primary = Option::None;
                    match taken {
                        Option::Some(nm) => {
                            let source_ref = name_ref(prefix, nm.as_str());
                            let taken_aliases = aliases;
                            aliases = Vec::new();
                            let taken_country = country;
                            country = Option::None;
                            subjects.push(
                                ParsedSubject {
                                    source_ref,
                                    kind,
                                    primary_name: nm,
                                    aliases: taken_aliases,
                                    date_of_birth: Option::None,
                                    date_of_birth_year: Option::None,
                                    country: taken_country,
                                    nationalities: Vec::new(),
                                },
                            );
                        },
                        Option::None => {
                            aliases = Vec::new();
                            country = Option::None;
                        },
                    }
                    in_subject = false;
                }
                current = Vec::new();
            },
        }
        i = i + 1;
    }
    subjects
}

} // verus!
