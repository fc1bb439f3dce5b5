//! Parser for the consolidated EU sanctions roster: attribute-driven
//! entries under `sanctionEntity` elements.

use vstd::prelude::*;
use crate::subject::{ParsedAlias, ParsedSubject, SubjectKind, subject_wf};
use crate::xmlscan::{scan_xml, scan_at, XmlEvent, XmlEventM, get_attr, attrs_model, events_model, event_model};
use vstd::string::StringExecFns;
use crate::strutil::{chars_eq_str, chars_to_string, to_chars, is_ascii_alnum, ascii_upper_chars, parse_u32_chars};

verus! {

/// The first plausible year in a free-form birthdate: the earliest
/// four-digit window at least 1900 and below 2100.
pub fn extract_year(date_str: &str) -> (r: Option<i32>)
    ensures
        match r {
            Option::Some(y) => 1900 <= y < 2100 && crate::parser_ofac::spec_first_year(
                date_str@,
                0,
            ) == Option::Some(y as int),
            Option::None => crate::parser_ofac::spec_first_year(date_str@, 0) is None,
        },
{
    crate::parser_ofac::extract_year(date_str)
}

/// An ASCII letter or digit.
pub open spec fn spec_alnum(c: char) -> bool {
    (0x41 <= c as int <= 0x5A) || (0x61 <= c as int <= 0x7A) || (0x30 <= c as int <= 0x39)
}

/// The slug of the first `i` characters: ASCII letters and digits only,
/// at most twenty of them.
pub open spec fn spec_name_slug(s: Seq<char>, i: int) -> Seq<char>
    decreases i,
    when 0 <= i <= s.len()
{
    if i <= 0 {
        Seq::empty()
    } else {
        let prev = spec_name_slug(s, i - 1);
        if prev.len() >= 20 {
            prev
        } else if spec_alnum(s[i - 1]) {
            prev.push(s[i - 1])
        } else {
            prev
        }
    }
}

/// A deterministic slug of a name: its ASCII letters and digits, at most
/// twenty of them.
pub fn name_slug(name: &str) -> (r: Vec<char>)
    ensures
        r@ == spec_name_slug(name@, name@.len() as int),
        r@.len() <= 20,
{
    let v = to_chars(name);
    let mut out: Vec<char> = Vec::new();
    let mut i: usize = 0;
    while i < v.len()
        invariant
            v@ == name@,
            i <= v@.len(),
            out@ == spec_name_slug(name@, i as int),
            out@.len() <= 20,
        decreases v@.len() - i,
    {
        if out.len() < 20 && is_ascii_alnum(v[i]) {
            out.push(v[i]);
        }
        i = i + 1;
    }
    out
}

struct EuBuilder {
    source_ref: Option<String>,
    kind: Option<SubjectKind>,
    primary_name: Option<String>,
    aliases: Vec<ParsedAlias>,
    date_of_birth: Option<String>,
    date_of_birth_year: Option<i32>,
    country: Option<String>,
    nationalities: Vec<String>,
}

/// The builder only ever holds plausible years and nonempty names.
spec fn eu_builder_wf(b: EuBuilder) -> bool {
    &&& match b.date_of_birth_year {
        Option::Some(y) => 1900 <= y < 2100,
        Option::None => true,
    }
    &&& match b.primary_name {
        Option::Some(n) => n@.len() > 0,
        Option::None => true,
    }
}

impl EuBuilder {
    fn new() -> (r: EuBuilder)
        ensures
            eu_builder_wf(r),
            r.source_ref is None,
            r.kind is None,
            r.primary_name is None,
            r.aliases@.len() == 0,
            r.date_of_birth is None,
            r.date_of_birth_year is None,
            r.country is None,
            r.nationalities@.len() == 0,
    {
        EuBuilder {
            source_ref: Option::None,
            kind: Option::None,
            primary_name: Option::None,
            aliases: Vec::new(),
            date_of_birth: Option::None,
            date_of_birth_year: Option::None,
            country: Option::None,
            nationalities: Vec::new(),
        }
    }

    /// Produces the canonical subject exactly when a nonempty name was
    /// seen.  The reference falls back to a slug of the name, the kind to
    /// a person, the country to the first nationality.
    fn build(self) -> (r: Option<ParsedSubject>)
        requires
            eu_builder_wf(self),
        ensures
            r is None <==> (match self.primary_name {
                Option::Some(nm) => nm@.len() == 0,
                Option::None => true,
            }),
            match r {
                Option::Some(s) => subject_wf(s) && (self.primary_name matches Option::Some(nm)
                    && s.primary_name == nm && s.kind == (match self.kind {
                    Option::Some(k) => k,
                    Option::None => SubjectKind::Person,
                }) && s.aliases@ == self.aliases@ && s.date_of_birth == self.date_of_birth
                    && s.date_of_birth_year == self.date_of_birth_year && s.nationalities@
                    == self.nationalities@ && (match self.country {
                    Option::Some(c) => s.country == Option::Some(c),
                    Option::None => {
                        if self.nationalities@.len() > 0 {
                            s.country matches Option::Some(c0) && c0@
                                == self.nationalities@[0]@
                        } else {
                            s.country is None
                        }
                    },
                }) && (match self.source_ref {
                    Option::Some(id) => {
                        if id@.len() > 0 {
                            s.source_ref == id
                        } else {
                            s.source_ref@ == seq!['e', 'u', '_'] + spec_name_slug(
                                nm@,
                                nm@.len() as int,
                            )
                        }
                    },
                    Option::None => s.source_ref@ == seq!['e', 'u', '_'] + spec_name_slug(
                        nm@,
                        nm@.len() as int,
                    ),
                })),
                Option::None => true,
            },
    {
        let primary_name = match self.primary_name {
            Option::Some(n) => n,
            Option::None => {
                return Option::None;
            },
        };
        if primary_name.as_str().unicode_len() == 0 {
            return Option::None;
        }
        let source_ref = match self.source_ref {
            Option::Some(id) => {
                if id.as_str().unicode_len() == 0 {
                    slug_ref(primary_name.as_str())
                } else {
                    id
                }
            },
            Option::None => slug_ref(primary_name.as_str()),
        };
        let country = match self.country {
            Option::Some(c) => Option::Some(c),
            Option::None => {
                if self.nationalities.len() > 0 {
                    Option::Some(self.nationalities[0].clone())
                } else {
                    Option::None
                }
            },
        };
        Option::Some(
            ParsedSubject {
                source_ref,
                kind: match self.kind {
                    Option::Some(k) => k,
                    Option::None => SubjectKind::Person,
                },
                primary_name,
                aliases: self.aliases,
                date_of_birth: self.date_of_birth,
                date_of_birth_year: self.date_of_birth_year,
                country,
                nationalities: self.nationalities,
            },
        )
    }
}

/// The fallback reference of an unnumbered entry.
fn slug_ref(name: &str) -> (r: String)
    ensures
        r@.len() > 0,
        r@ == seq!['e', 'u', '_'] + spec_name_slug(name@, name@.len() as int),
{
    let slug = name_slug(name);
    let mut out: Vec<char> = Vec::new();
    out.push('e');
    out.push('u');
    out.push('_');
    let mut i: usize = 0;
    while i < slug.len()
        invariant
            slug@ == spec_name_slug(name@, name@.len() as int),
            i <= slug@.len(),
            out@ == seq!['e', 'u', '_'] + slug@.take(i as int),
        decreases slug@.len() - i,
    {
        out.push(slug[i]);
        proof {
            assert(out@ =~= seq!['e', 'u', '_'] + slug@.take(i + 1));
        }
        i = i + 1;
    }
    proof {
        assert(slug@.take(slug@.len() as int) =~= slug@);
        assert(out@ =~= seq!['e', 'u', '_'] + slug@);
    }
    chars_to_string(&out)
}


/// The alias names a builder or subject carries, in order.
pub open spec fn alias_names(aliases: Seq<ParsedAlias>) -> Seq<Seq<char>> {
    aliases.map(|q: int, a: ParsedAlias| a.name@)
}

/// Nationality strings as character sequences, in order.
pub open spec fn nat_names(nats: Seq<String>) -> Seq<Seq<char>> {
    nats.map(|q: int, c: String| c@)
}

/// The mathematical shape of one canonical subject.
pub ghost struct SubjectM {
    pub source_ref: Seq<char>,
    pub kind: SubjectKind,
    pub primary_name: Seq<char>,
    pub aliases: Seq<Seq<char>>,
    pub date_of_birth: Option<Seq<char>>,
    pub date_of_birth_year: Option<int>,
    pub country: Option<Seq<char>>,
    pub nationalities: Seq<Seq<char>>,
}

/// The mathematical shape of one executable subject.
pub open spec fn subject_model(s: ParsedSubject) -> SubjectM {
    SubjectM {
        source_ref: s.source_ref@,
        kind: s.kind,
        primary_name: s.primary_name@,
        aliases: alias_names(s.aliases@),
        date_of_birth: match s.date_of_birth {
            Option::Some(d) => Option::Some(d@),
            Option::None => Option::None,
        },
        date_of_birth_year: match s.date_of_birth_year {
            Option::Some(y) => Option::Some(y as int),
            Option::None => Option::None,
        },
        country: match s.country {
            Option::Some(c) => Option::Some(c@),
            Option::None => Option::None,
        },
        nationalities: nat_names(s.nationalities@),
    }
}

/// The mathematical shape of a subject list.
pub open spec fn subjects_model(ss: Seq<ParsedSubject>) -> Seq<SubjectM> {
    ss.map(|q: int, s: ParsedSubject| subject_model(s))
}

/// The entry builder's mathematical shape while an entity is open.
pub ghost struct EuBuilderM {
    pub source_ref: Option<Seq<char>>,
    pub kind: Option<SubjectKind>,
    pub primary_name: Option<Seq<char>>,
    pub aliases: Seq<Seq<char>>,
    pub date_of_birth: Option<Seq<char>>,
    pub date_of_birth_year: Option<int>,
    pub country: Option<Seq<char>>,
    pub nationalities: Seq<Seq<char>>,
}

/// The mathematical shape of the executable builder.
spec fn builder_model(b: EuBuilder) -> EuBuilderM {
    EuBuilderM {
        source_ref: match b.source_ref {
            Option::Some(v) => Option::Some(v@),
            Option::None => Option::None,
        },
        kind: b.kind,
        primary_name: match b.primary_name {
            Option::Some(v) => Option::Some(v@),
            Option::None => Option::None,
        },
        aliases: alias_names(b.aliases@),
        date_of_birth: match b.date_of_birth {
            Option::Some(v) => Option::Some(v@),
            Option::None => Option::None,
        },
        date_of_birth_year: match b.date_of_birth_year {
            Option::Some(y) => Option::Some(y as int),
            Option::None => Option::None,
        },
        country: match b.country {
            Option::Some(v) => Option::Some(v@),
            Option::None => Option::None,
        },
        nationalities: nat_names(b.nationalities@),
    }
}

/// The subject a closed entity emits: exactly when a nonempty name was
/// seen, with the slug, kind and country fallbacks of [`EuBuilder::build`].
pub open spec fn eu_build_m(b: EuBuilderM) -> Option<SubjectM> {
    match b.primary_name {
        Option::None => Option::None,
        Option::Some(nm) => {
            if nm.len() == 0 {
                Option::None
            } else {
                Option::Some(
                    SubjectM {
                        source_ref: match b.source_ref {
                            Option::Some(id) => {
                                if id.len() > 0 {
                                    id
                                } else {
                                    seq!['e', 'u', '_'] + spec_name_slug(nm, nm.len() as int)
                                }
                            },
                            Option::None => seq!['e', 'u', '_'] + spec_name_slug(
                                nm,
                                nm.len() as int,
                            ),
                        },
                        kind: match b.kind {
                            Option::Some(k) => k,
                            Option::None => SubjectKind::Person,
                        },
                        primary_name: nm,
                        aliases: b.aliases,
                        date_of_birth: b.date_of_birth,
                        date_of_birth_year: b.date_of_birth_year,
                        country: match b.country {
                            Option::Some(c) => Option::Some(c),
                            Option::None => {
                                if b.nationalities.len() > 0 {
                                    Option::Some(b.nationalities[0])
                                } else {
                                    Option::None
                                }
                            },
                        },
                        nationalities: b.nationalities,
                    },
                )
            }
        },
    }
}

/// The entity reference its attributes carry: the logical id, else the
/// reference number.
pub open spec fn eu_entity_ref(attrs: Seq<(Seq<char>, Seq<char>)>) -> Option<Seq<char>> {
    match crate::xmlscan::spec_get_attr(attrs, "logicalId"@) {
        Option::Some(v) => Option::Some(v),
        Option::None => crate::xmlscan::spec_get_attr(attrs, "euReferenceNumber"@),
    }
}

/// A fresh builder for an entity opened with the given attributes.
pub open spec fn eu_fresh(attrs: Seq<(Seq<char>, Seq<char>)>) -> EuBuilderM {
    EuBuilderM {
        source_ref: eu_entity_ref(attrs),
        kind: Option::None,
        primary_name: Option::None,
        aliases: Seq::empty(),
        date_of_birth: Option::None,
        date_of_birth_year: Option::None,
        country: Option::None,
        nationalities: Seq::empty(),
    }
}

/// The kind a subject-type element sets: a person or an enterprise code
/// decides it, anything else leaves it.
pub open spec fn eu_kind_update(k: Option<SubjectKind>, attrs: Seq<(Seq<char>, Seq<char>)>) -> Option<
    SubjectKind,
> {
    let code = match crate::xmlscan::spec_get_attr(attrs, "code"@) {
        Option::Some(v) => Option::Some(v),
        Option::None => crate::xmlscan::spec_get_attr(attrs, "classificationCode"@),
    };
    match code {
        Option::Some(v) => {
            if v == "person"@ || v == "P"@ || v == "p"@ {
                Option::Some(SubjectKind::Person)
            } else if v == "enterprise"@ || v == "E"@ || v == "e"@ {
                Option::Some(SubjectKind::Entity)
            } else {
                k
            }
        },
        Option::None => k,
    }
}

/// A name alias's effect: a nonempty name becomes the primary name if
/// none is set yet, an alias otherwise.
pub open spec fn eu_alias_update(b: EuBuilderM, attrs: Seq<(Seq<char>, Seq<char>)>) -> EuBuilderM {
    let nm = spec_alias_name(attrs);
    if nm.len() > 0 {
        match b.primary_name {
            Option::Some(_) => EuBuilderM { aliases: b.aliases.push(nm), ..b },
            Option::None => EuBuilderM { primary_name: Option::Some(nm), ..b },
        }
    } else {
        b
    }
}

/// A citizenship's effect: a nonempty code other than `00` joins the
/// nationalities, uppercased.
pub open spec fn eu_citizenship_update(
    nats: Seq<Seq<char>>,
    attrs: Seq<(Seq<char>, Seq<char>)>,
) -> Seq<Seq<char>> {
    match crate::xmlscan::spec_get_attr(attrs, "countryIso2Code"@) {
        Option::Some(v) => {
            if v.len() > 0 && v != "00"@ {
                nats.push(crate::strutil::upper_seq(v))
            } else {
                nats
            }
        },
        Option::None => nats,
    }
}

/// A birthdate element's year attribute: a plausible decimal year, kept
/// only while none is set.
pub open spec fn eu_birth_year_update(
    year: Option<int>,
    attrs: Seq<(Seq<char>, Seq<char>)>,
) -> Option<int> {
    match crate::xmlscan::spec_get_attr(attrs, "year"@) {
        Option::Some(v) => {
            if year is None {
                match crate::strutil::spec_parse_u32(v, 0, v.len() as int) {
                    Option::Some(y) => {
                        if 1900 <= y < 2100 {
                            Option::Some(y as int)
                        } else {
                            year
                        }
                    },
                    Option::None => year,
                }
            } else {
                year
            }
        },
        Option::None => year,
    }
}

/// A birthdate element's full effect: the year attribute, then the date
/// string with its first plausible year, then the country code.
pub open spec fn eu_birthdate_update(b: EuBuilderM, attrs: Seq<(Seq<char>, Seq<char>)>) -> EuBuilderM {
    let year1 = eu_birth_year_update(b.date_of_birth_year, attrs);
    let bd = crate::xmlscan::spec_get_attr(attrs, "birthdate"@);
    let take_bd = bd matches Option::Some(v) && v.len() > 0 && b.date_of_birth is None;
    let dob2 = if take_bd {
        bd
    } else {
        b.date_of_birth
    };
    let year2 = if take_bd && year1 is None {
        crate::parser_ofac::spec_first_year(bd->Some_0, 0)
    } else {
        year1
    };
    let co = crate::xmlscan::spec_get_attr(attrs, "countryIso2Code"@);
    let country2 = if b.country is None && (co matches Option::Some(v) && v.len() > 0 && v
        != "00"@) {
        Option::Some(crate::strutil::upper_seq(co->Some_0))
    } else {
        b.country
    };
    EuBuilderM { date_of_birth: dob2, date_of_birth_year: year2, country: country2, ..b }
}

/// The full fold state: the open builder, if any, and the subjects
/// emitted so far.
pub ghost struct EuFold {
    pub builder: Option<EuBuilderM>,
    pub out: Seq<SubjectM>,
}

/// Closes the open entity: a named one emits its subject.
pub open spec fn eu_emit(st: EuFold) -> EuFold {
    match st.builder {
        Option::Some(b) => EuFold {
            builder: Option::None,
            out: match eu_build_m(b) {
                Option::Some(sm) => st.out.push(sm),
                Option::None => st.out,
            },
        },
        Option::None => st,
    }
}

/// One event's full effect on the fold.
pub open spec fn eu_full_step(st: EuFold, e: XmlEventM) -> EuFold {
    match e {
        XmlEventM::Start { name, attrs, empty } => {
            if name == "sanctionEntity"@ {
                let opened = EuFold { builder: Option::Some(eu_fresh(attrs)), out: st.out };
                if empty {
                    eu_emit(opened)
                } else {
                    opened
                }
            } else {
                match st.builder {
                    Option::Some(b) => {
                        if name == "subjectType"@ {
                            EuFold {
                                builder: Option::Some(
                                    EuBuilderM { kind: eu_kind_update(b.kind, attrs), ..b },
                                ),
                                ..st
                            }
                        } else if name == "nameAlias"@ {
                            EuFold { builder: Option::Some(eu_alias_update(b, attrs)), ..st }
                        } else if name == "citizenship"@ {
                            EuFold {
                                builder: Option::Some(
                                    EuBuilderM {
                                        nationalities: eu_citizenship_update(
                                            b.nationalities,
                                            attrs,
                                        ),
                                        ..b
                                    },
                                ),
                                ..st
                            }
                        } else if name == "birthdate"@ {
                            EuFold { builder: Option::Some(eu_birthdate_update(b, attrs)), ..st }
                        } else {
                            st
                        }
                    },
                    Option::None => st,
                }
            }
        },
        XmlEventM::End { name } => {
            if name == "sanctionEntity"@ {
                eu_emit(st)
            } else {
                st
            }
        },
        XmlEventM::Text { .. } => st,
    }
}

/// The fold state after the first `i` events.
pub open spec fn eu_fold_at(events: Seq<XmlEventM>, i: int) -> EuFold
    decreases i,
    when 0 <= i <= events.len()
{
    if i <= 0 {
        EuFold { builder: Option::None, out: Seq::empty() }
    } else {
        eu_full_step(eu_fold_at(events, i - 1), events[i - 1])
    }
}

/// The subjects the EU roster text parses to.
pub open spec fn eu_subjects_of(xml: Seq<char>) -> Seq<SubjectM> {
    eu_fold_at(scan_at(xml, 0), scan_at(xml, 0).len() as int).out
}

/// Parses the EU consolidated list: every well-formed `sanctionEntity`
/// yields one canonical subject; malformed entries are skipped, never
/// failing the file.
pub fn parse_eu_xml(xml: &str) -> (r: Vec<ParsedSubject>)
    ensures
        forall|i: int| 0 <= i < r@.len() ==> subject_wf(#[trigger] r@[i]),
        r@.len() == eu_scan(scan_at(xml@, 0), scan_at(xml@, 0).len() as int).count,
        subjects_model(r@) == eu_subjects_of(xml@),
{
    let events = scan_xml(xml);
    let r = parse_eu_events(&events);
    proof {
        assert(events_model(events@).len() == events@.len());
    }
    r
}

/// The scan state over the event stream: inside an entity or not, whether
/// it carried a usable name yet, and how many subjects have been emitted.
pub ghost struct EuScan {
    pub in_entity: bool,
    pub has_name: bool,
    pub count: int,
}

/// One event's effect on the scan: entities open at `sanctionEntity` (an
/// empty one closes at once, nameless), a name alias with a nonempty whole
/// or joined name marks the entity named, and a named entity emits one
/// subject at its end.
pub open spec fn eu_step(st: EuScan, e: XmlEventM) -> EuScan {
    match e {
        XmlEventM::Start { name, attrs, empty } => {
            if name == "sanctionEntity"@ {
                if empty {
                    EuScan { in_entity: false, has_name: false, count: st.count }
                } else {
                    EuScan { in_entity: true, has_name: false, count: st.count }
                }
            } else if st.in_entity && name == "nameAlias"@ && spec_alias_name(attrs).len() > 0 {
                EuScan { has_name: true, ..st }
            } else {
                st
            }
        },
        XmlEventM::End { name } => {
            if name == "sanctionEntity"@ {
                EuScan {
                    in_entity: false,
                    has_name: false,
                    count: st.count + if st.in_entity && st.has_name {
                        1int
                    } else {
                        0int
                    },
                }
            } else {
                st
            }
        },
        XmlEventM::Text { .. } => st,
    }
}

/// The scan state after the first `i` events.
pub open spec fn eu_scan(events: Seq<XmlEventM>, i: int) -> EuScan
    decreases i,
    when 0 <= i <= events.len()
{
    if i <= 0 {
        EuScan { in_entity: false, has_name: false, count: 0 }
    } else {
        eu_step(eu_scan(events, i - 1), events[i - 1])
    }
}

/// Parses the scanned event stream of the EU consolidated list: exactly
/// one subject per named entity, every subject well-formed.
pub fn parse_eu_events(events: &Vec<XmlEvent>) -> (r: Vec<ParsedSubject>)
    requires
        forall|q: int| 0 <= q < events@.len() ==> crate::xmlscan::event_wf(#[trigger] events@[q]),
    ensures
        forall|i: int| 0 <= i < r@.len() ==> subject_wf(#[trigger] r@[i]),
        r@.len() == eu_scan(events_model(events@), events@.len() as int).count,
        subjects_model(r@) == eu_fold_at(events_model(events@), events@.len() as int).out,
{
    let mut subjects: Vec<ParsedSubject> = Vec::new();
    let mut in_entity: bool = false;
    let mut builder: Option<EuBuilder> = None;
    let n: usize = events.len();
    let ghost m = events_model(events@);
    let mut i: usize = 0;
    proof {
        assert(subjects_model(subjects@) =~= Seq::<SubjectM>::empty());
    }
    while i < n
        invariant
            n == events@.len(),
            i <= n,
            m == events_model(events@),
            m.len() == n,
            forall|q: int| 0 <= q < events@.len() ==> crate::xmlscan::event_wf(
                #[trigger] events@[q],
            ),
            forall|q: int| 0 <= q < subjects@.len() ==> subject_wf(#[trigger] subjects@[q]),
            in_entity == (builder is Some),
            match builder {
                Option::Some(b) => eu_builder_wf(b) && ((b.primary_name is Some) == eu_scan(
                    m,
                    i as int,
                ).has_name),
                Option::None => true,
            },
            eu_scan(m, i as int).in_entity == in_entity,
            eu_scan(m, i as int).count == subjects@.len(),
            match builder {
                Option::Some(b) => eu_fold_at(m, i as int).builder == Option::Some(
                    builder_model(b),
                ),
                Option::None => eu_fold_at(m, i as int).builder is None,
            },
            subjects_model(subjects@) == eu_fold_at(m, i as int).out,
        decreases n - i,
    {
        proof {
            assert(m[i as int] == event_model(events@[i as int]));
            assert(eu_scan(m, i as int + 1) == eu_step(eu_scan(m, i as int), m[i as int]));
            assert(eu_fold_at(m, i as int + 1) == eu_full_step(eu_fold_at(m, i as int), m[i as int]));
            reveal_strlit("sanctionEntity");
            reveal_strlit("subjectType");
            reveal_strlit("nameAlias");
            reveal_strlit("citizenship");
            reveal_strlit("birthdate");
            assert("sanctionEntity"@.len() == 14 && "subjectType"@.len() == 11
                && "nameAlias"@.len() == 9 && "citizenship"@.len() == 11 && "birthdate"@.len()
                == 9);
            assert("nameAlias"@[0] == 'n' && "birthdate"@[0] == 'b');
        }
        match &events[i] {
            XmlEvent::Start { name, attrs, empty } => {
                if chars_eq_str(name, "sanctionEntity") {
                    in_entity = true;
                    let mut b = EuBuilder::new();
                    match get_attr(attrs, "logicalId") {
                        Option::Some(v) => {
                            b.source_ref = Option::Some(chars_to_string(&v));
                        },
                        Option::None => {
                            match get_attr(attrs, "euReferenceNumber") {
                                Option::Some(v) => {
                                    b.source_ref = Option::Some(chars_to_string(&v));
                                },
                                Option::None => {},
                            }
                        },
                    }
                    builder = Option::Some(b);
                    proof {
                        assert(alias_names(builder->Some_0.aliases@) =~= Seq::<Seq<char>>::empty());
                        assert(nat_names(builder->Some_0.nationalities@) =~= Seq::<
                            Seq<char>,
                        >::empty());
                        assert(builder_model(builder->Some_0) == eu_fresh(
                            attrs_model(attrs@),
                        ));
                    }
                    if *empty {
                        in_entity = false;
                        let taken = builder;
                        builder = Option::None;
                        match taken {
                            Option::Some(bb) => {
                                let ghost bbm = builder_model(bb);
                                let ghost pre_s = subjects@;
                                match bb.build() {
                                    Option::Some(s) => {
                                        proof {
                                            assert(subject_model(s).aliases == bbm.aliases);
                                            assert(subject_model(s).nationalities == bbm.nationalities);
                                            if bbm.country is None && bbm.nationalities.len() > 0 {
                                                assert(bbm.nationalities[0] == bb.nationalities@[0]@);
                                            }
                                            assert(eu_build_m(bbm) == Option::Some(subject_model(s)));
                                        }
                                        subjects.push(s);
                                        proof {
                                            assert(subjects_model(subjects@) =~= subjects_model(pre_s)
                                                + seq![subject_model(s)]);
                                        }
                                    },
                                    Option::None => {
                                        proof {
                                            assert(eu_build_m(bbm) is None);
                                        }
                                    },
                                }
                            },
                            Option::None => {},
                        }
                    }
                } else if in_entity && chars_eq_str(name, "subjectType") {
                    match &mut builder {
                        Option::Some(b) => {
                            let ghost bm0 = builder_model(*b);
                            let code = match get_attr(attrs, "code") {
                                Option::Some(v) => Option::Some(v),
                                Option::None => get_attr(attrs, "classificationCode"),
                            };
                            match code {
                                Option::Some(v) => {
                                    if chars_eq_str(&v, "person") || chars_eq_str(&v, "P")
                                        || chars_eq_str(&v, "p") {
                                        b.kind = Option::Some(SubjectKind::Person);
                                    } else if chars_eq_str(&v, "enterprise") || chars_eq_str(
                                        &v,
                                        "E",
                                    ) || chars_eq_str(&v, "e") {
                                        b.kind = Option::Some(SubjectKind::Entity);
                                    }
                                },
                                Option::None => {},
                            }
                            proof {
                                assert(builder_model(*b) == EuBuilderM {
                                    kind: eu_kind_update(bm0.kind, attrs_model(attrs@)),
                                    ..bm0
                                });
                            }
                        },
                        Option::None => {},
                    }
                } else if in_entity && chars_eq_str(name, "nameAlias") {
                    match &mut builder {
                        Option::Some(b) => {
                            let ghost bm0 = builder_model(*b);
                            let whole = get_attr(attrs, "wholeName");
                            let nm: Vec<char> = match whole {
                                Option::Some(w) => {
                                    if w.len() > 0 {
                                        w
                                    } else {
                                        join_first_last(attrs)
                                    }
                                },
                                Option::None => join_first_last(attrs),
                            };
                            proof {
                                assert(nm@ == spec_alias_name(attrs_model(attrs@)));
                            }
                            if nm.len() > 0 {
                                let ns = chars_to_string(&nm);
                                match &b.primary_name {
                                    Option::Some(_) => {
                                        let ghost pal = b.aliases@;
                                        let ghost nsv = ns@;
                                        b.aliases.push(
                                            ParsedAlias {
                                                name: ns,
                                                alias_type: String::from_str("aka"),
                                            },
                                        );
                                        proof {
                                            assert(alias_names(b.aliases@) =~= alias_names(pal)
                                                + seq![nsv]);
                                            assert(alias_names(b.aliases@) =~= alias_names(
                                                pal,
                                            ).push(nsv));
                                        }
                                    },
                                    Option::None => {
                                        b.primary_name = Option::Some(ns);
                                    },
                                }
                            }
                            proof {
                                assert(builder_model(*b) == eu_alias_update(
                                    bm0,
                                    attrs_model(attrs@),
                                ));
                            }
                        },
                        Option::None => {},
                    }
                } else if in_entity && chars_eq_str(name, "citizenship") {
                    match &mut builder {
                        Option::Some(b) => {
                            let ghost bm0 = builder_model(*b);
                            match get_attr(attrs, "countryIso2Code") {
                                Option::Some(v) => {
                                    if v.len() > 0 && !chars_eq_str(&v, "00") {
                                        let up = ascii_upper_chars(&v);
                                        let ghost pn = b.nationalities@;
                                        b.nationalities.push(chars_to_string(&up));
                                        proof {
                                            assert(nat_names(b.nationalities@) =~= nat_names(pn)
                                                + seq![crate::strutil::upper_seq(v@)]);
                                            assert(nat_names(b.nationalities@) =~= nat_names(
                                                pn,
                                            ).push(crate::strutil::upper_seq(v@)));
                                        }
                                    }
                                },
                                Option::None => {},
                            }
                            proof {
                                assert(builder_model(*b) == EuBuilderM {
                                    nationalities: eu_citizenship_update(
                                        bm0.nationalities,
                                        attrs_model(attrs@),
                                    ),
                                    ..bm0
                                });
                            }
                        },
                        Option::None => {},
                    }
                } else if in_entity && chars_eq_str(name, "birthdate") {
                    match &mut builder {
                        Option::Some(b) => {
                            let ghost bm0 = builder_model(*b);
                            match get_attr(attrs, "year") {
                                Option::Some(v) => {
                                    if b.date_of_birth_year.is_none() {
                                        match parse_u32_chars(&v, 0, v.len()) {
                                            Option::Some(y) => {
                                                if 1900 <= y && y < 2100 {
                                                    b.date_of_birth_year = Option::Some(y as i32);
                                                }
                                            },
                                            Option::None => {},
                                        }
                                    }
                                },
                                Option::None => {},
                            }
                            match get_attr(attrs, "birthdate") {
                                Option::Some(v) => {
                                    if v.len() > 0 && b.date_of_birth.is_none() {
                                        let ds = chars_to_string(&v);
                                        if b.date_of_birth_year.is_none() {
                                            match extract_year(ds.as_str()) {
                                                Option::Some(y) => {
                                                    b.date_of_birth_year = Option::Some(y);
                                                },
                                                Option::None => {},
                                            }
                                        }
                                        b.date_of_birth = Option::Some(ds);
                                    }
                                },
                                Option::None => {},
                            }
                            match get_attr(attrs, "countryIso2Code") {
                                Option::Some(v) => {
                                    if b.country.is_none() && v.len() > 0 && !chars_eq_str(
                                        &v,
                                        "00",
                                    ) {
                                        let up = ascii_upper_chars(&v);
                                        b.country = Option::Some(chars_to_string(&up));
                                    }
                                },
                                Option::None => {},
                            }
                            proof {
                                assert(builder_model(*b) == eu_birthdate_update(
                                    bm0,
                                    attrs_model(attrs@),
                                ));
                            }
                        },
                        Option::None => {},
                    }
                }
            },
            XmlEvent::End { name } => {
                if chars_eq_str(name, "sanctionEntity") {
                    in_entity = false;
                    let taken = builder;
                    builder = Option::None;
                    match taken {
                        Option::Some(bb) => {
                            let ghost bbm = builder_model(bb);
                            let ghost pre_s = subjects@;
                            match bb.build() {
                                Option::Some(s) => {
                                    proof {
                                        assert(subject_model(s).aliases == bbm.aliases);
                                        assert(subject_model(s).nationalities == bbm.nationalities);
                                        if bbm.country is None && bbm.nationalities.len() > 0 {
                                            assert(bbm.nationalities[0] == bb.nationalities@[0]@);
                                        }
                                        assert(eu_build_m(bbm) == Option::Some(subject_model(s)));
                                    }
                                    subjects.push(s);
                                    proof {
                                        assert(subjects_model(subjects@) =~= subjects_model(pre_s)
                                            + seq![subject_model(s)]);
                                    }
                                },
                                Option::None => {
                                    proof {
                                        assert(eu_build_m(bbm) is None);
                                    }
                                },
                            }
                        },
                        Option::None => {},
                    }
                }
            },
            XmlEvent::Text { .. } => {},
        }
        i = i + 1;
    }
    subjects
}

/// The name composed of the first and last name attributes: both when both
/// are present, either alone otherwise.
pub open spec fn spec_join_name(attrs: Seq<(Seq<char>, Seq<char>)>) -> Seq<char> {
    let f = match crate::xmlscan::spec_get_attr(attrs, "firstName"@) {
        Option::Some(v) => v,
        Option::None => Seq::empty(),
    };
    let l = match crate::xmlscan::spec_get_attr(attrs, "lastName"@) {
        Option::Some(v) => v,
        Option::None => Seq::empty(),
    };
    if l.len() == 0 {
        f
    } else if f.len() > 0 {
        f + seq![' '] + l
    } else {
        l
    }
}

/// The alias name an attribute list carries: the whole name when nonempty,
/// the joined first and last names otherwise.
pub open spec fn spec_alias_name(attrs: Seq<(Seq<char>, Seq<char>)>) -> Seq<char> {
    match crate::xmlscan::spec_get_attr(attrs, "wholeName"@) {
        Option::Some(w) => if w.len() > 0 {
            w
        } else {
            spec_join_name(attrs)
        },
        Option::None => spec_join_name(attrs),
    }
}

/// Composes a name out of the first and last name attributes.
fn join_first_last(attrs: &Vec<(Vec<char>, Vec<char>)>) -> (r: Vec<char>)
    ensures
        r@ == spec_join_name(attrs_model(attrs@)),
{
    let first = get_attr(attrs, "firstName");
    let last = get_attr(attrs, "lastName");
    let ghost fv: Seq<char> = if first is Some {
        first->Some_0@
    } else {
        Seq::empty()
    };
    let ghost lv: Seq<char> = if last is Some {
        last->Some_0@
    } else {
        Seq::empty()
    };
    let mut out: Vec<char> = Vec::new();
    match &first {
        Option::Some(f) => {
            let mut i: usize = 0;
            while i < f.len()
                invariant
                    fv == f@,
                    i <= f@.len(),
                    out@ == fv.take(i as int),
                decreases f@.len() - i,
            {
                out.push(f[i]);
                i = i + 1;
                proof {
                    assert(out@ =~= fv.take(i as int));
                }
            }
            proof {
                assert(out@ =~= fv);
            }
        },
        Option::None => {},
    }
    proof {
        assert(out@ =~= fv);
    }
    match &last {
        Option::Some(l) => {
            if l.len() > 0 {
                if out.len() > 0 {
                    out.push(' ');
                }
                let ghost pre = out@;
                let mut i: usize = 0;
                while i < l.len()
                    invariant
                        lv == l@,
                        i <= l@.len(),
                        out@ == pre + lv.take(i as int),
                    decreases l@.len() - i,
                {
                    out.push(l[i]);
                    i = i + 1;
                    proof {
                        assert(out@ =~= pre + lv.take(i as int));
                    }
                }
                proof {
                    assert(out@ =~= pre + lv);
                    if fv.len() > 0 {
                        assert(pre =~= fv + seq![' ']);
                        assert(out@ =~= fv + seq![' '] + lv);
                    } else {
                        assert(out@ =~= lv);
                    }
                }
            }
        },
        Option::None => {},
    }
    proof {
        if lv.len() == 0 {
            assert(out@ =~= fv);
        }
        assert(out@ == spec_join_name(attrs_model(attrs@)));
    }
    out
}

} // verus!
