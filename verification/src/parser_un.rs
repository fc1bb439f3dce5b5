//! Parser for the UN Security Council consolidated roster: text-driven
//! entries under `INDIVIDUAL` and `ENTITY` elements.

use vstd::prelude::*;
use vstd::string::StringExecFns;
use crate::subject::{ParsedAlias, ParsedSubject, SubjectKind, subject_wf};
use crate::xmlscan::{scan_xml, XmlEvent, XmlEventM, events_model, event_model, scan_at};
use crate::strutil::{chars_eq_str, chars_to_string, to_chars, ascii_upper_chars, parse_u32_chars, clone_chars, str_views};
use crate::parser_eu::{name_slug, spec_name_slug, alias_names, SubjectM, subjects_model, subject_model};
use crate::monitoring::opt_string_view;
use crate::parser_ofac::prefixed_ref;

verus! {

/// The name the collected fragments join to: fragments separated by
/// single spaces, an empty fragment adding only its separator.
pub open spec fn join_parts(parts: Seq<Seq<char>>, i: int) -> Seq<char>
    decreases i,
    when 0 <= i <= parts.len()
{
    if i <= 0 {
        Seq::empty()
    } else {
        let prev = join_parts(parts, i - 1);
        if prev.len() > 0 {
            prev + seq![' '] + parts[i - 1]
        } else {
            parts[i - 1]
        }
    }
}

/// An empty joined name means every fragment was empty.
proof fn lemma_join_empty(parts: Seq<Seq<char>>, i: int)
    requires
        0 <= i <= parts.len(),
    ensures
        (join_parts(parts, i).len() == 0) <==> (forall|k: int|
            0 <= k < i ==> (#[trigger] parts[k]).len() == 0),
    decreases i,
{
    if i > 0 {
        lemma_join_empty(parts, i - 1);
    }
}

/// Builder collecting one UN entry.
pub struct SubjectBuilder {
    pub source_ref: Option<String>,
    pub kind: SubjectKind,
    pub name_parts: Vec<String>,
    pub aliases: Vec<String>,
    pub date_of_birth: Option<String>,
    pub date_of_birth_year: Option<i32>,
    pub country: Option<String>,
    pub nationalities: Vec<String>,
}

/// Years in the builder stay plausible.
pub open spec fn un_builder_wf(b: SubjectBuilder) -> bool {
    match b.date_of_birth_year {
        Option::Some(y) => 1900 <= y < 2100,
        Option::None => true,
    }
}

impl SubjectBuilder {
    pub fn new(kind: SubjectKind) -> (r: SubjectBuilder)
        ensures
            un_builder_wf(r),
            r.source_ref is None,
            r.kind == kind,
            r.name_parts@.len() == 0,
            r.aliases@.len() == 0,
            r.date_of_birth is None,
            r.date_of_birth_year is None,
            r.country is None,
            r.nationalities@.len() == 0,
    {
        SubjectBuilder {
            source_ref: Option::None,
            kind,
            name_parts: Vec::new(),
            aliases: Vec::new(),
            date_of_birth: Option::None,
            date_of_birth_year: Option::None,
            country: Option::None,
            nationalities: Vec::new(),
        }
    }

    /// Keeps a nonempty name fragment.
    pub fn add_name_part(&mut self, part: &str)
        ensures
            final (self).date_of_birth_year == old(self).date_of_birth_year,
            part@.len() > 0 ==> final (self).name_parts@.len() == old(self).name_parts@.len() + 1
                && final (self).name_parts@.last()@ == part@,
            part@.len() == 0 ==> final (self).name_parts@ == old(self).name_parts@,
            forall|k: int|
                0 <= k < old(self).name_parts@.len() ==> #[trigger] final (self).name_parts@[k]
                    == old(self).name_parts@[k],
            str_views(final (self).name_parts@) == (if part@.len() > 0 {
                str_views(old(self).name_parts@).push(part@)
            } else {
                str_views(old(self).name_parts@)
            }),
            final (self).source_ref == old(self).source_ref,
            final (self).kind == old(self).kind,
            final (self).aliases == old(self).aliases,
            final (self).date_of_birth == old(self).date_of_birth,
            final (self).country == old(self).country,
            final (self).nationalities == old(self).nationalities,
    {
        if part.unicode_len() > 0 {
            let ghost pre = self.name_parts@;
            self.name_parts.push(String::from_str(part));
            proof {
                assert(str_views(self.name_parts@) =~= str_views(pre).push(part@));
            }
        }
    }

    /// Keeps a nonempty alias.
    pub fn add_alias(&mut self, alias: &str)
        ensures
            final (self).date_of_birth_year == old(self).date_of_birth_year,
            final (self).name_parts@ == old(self).name_parts@,
            str_views(final (self).aliases@) == (if alias@.len() > 0 {
                str_views(old(self).aliases@).push(alias@)
            } else {
                str_views(old(self).aliases@)
            }),
            final (self).source_ref == old(self).source_ref,
            final (self).kind == old(self).kind,
            final (self).name_parts == old(self).name_parts,
            final (self).date_of_birth == old(self).date_of_birth,
            final (self).country == old(self).country,
            final (self).nationalities == old(self).nationalities,
    {
        if alias.unicode_len() > 0 {
            let ghost pre = self.aliases@;
            self.aliases.push(String::from_str(alias));
            proof {
                assert(str_views(self.aliases@) =~= str_views(pre).push(alias@));
            }
        }
    }

    /// Keeps a nonempty nationality; the first one doubles as country.
    pub fn add_nationality(&mut self, code: &str)
        ensures
            final (self).date_of_birth_year == old(self).date_of_birth_year,
            final (self).name_parts@ == old(self).name_parts@,
            opt_string_view(final (self).country) == (if code@.len() > 0 && old(
                self,
            ).country is None {
                Option::Some(code@)
            } else {
                opt_string_view(old(self).country)
            }),
            str_views(final (self).nationalities@) == (if code@.len() > 0 {
                str_views(old(self).nationalities@).push(code@)
            } else {
                str_views(old(self).nationalities@)
            }),
            final (self).source_ref == old(self).source_ref,
            final (self).kind == old(self).kind,
            final (self).name_parts == old(self).name_parts,
            final (self).aliases == old(self).aliases,
            final (self).date_of_birth == old(self).date_of_birth,
    {
        if code.unicode_len() > 0 {
            if self.country.is_none() {
                self.country = Option::Some(String::from_str(code));
            }
            let ghost pre = self.nationalities@;
            self.nationalities.push(String::from_str(code));
            proof {
                assert(str_views(self.nationalities@) =~= str_views(pre).push(code@));
            }
        }
    }

    /// Produces the canonical subject exactly when some name fragment is
    /// nonempty; the reference carries the given source prefix.
    pub fn build(self, prefix: &str) -> (r: Option<ParsedSubject>)
        requires
            un_builder_wf(self),
        ensures
            r is None <==> (forall|k: int|
                0 <= k < self.name_parts@.len() ==> (#[trigger] self.name_parts@[k])@.len() == 0),
            match r {
                Option::Some(s) => subject_wf(s),
                Option::None => true,
            },
            ({
                let joined = join_parts(
                    str_views(self.name_parts@),
                    self.name_parts@.len() as int,
                );
                match r {
                    Option::Some(s) => joined.len() > 0 && s.primary_name@ == joined && s.kind
                        == self.kind && s.source_ref@ == prefix@ + seq!['_'] + (
                    match self.source_ref {
                        Option::Some(id) => id@,
                        Option::None => spec_name_slug(joined, joined.len() as int),
                    }) && alias_names(s.aliases@) == str_views(self.aliases@) && s.date_of_birth
                        == self.date_of_birth && s.date_of_birth_year == self.date_of_birth_year
                        && s.country == self.country && s.nationalities@ == self.nationalities@,
                    Option::None => joined.len() == 0,
                }
            }),
    {
        let ghost sv = str_views(self.name_parts@);
        let mut name: Vec<char> = Vec::new();
        let mut i: usize = 0;
        proof {
            lemma_join_empty(sv, sv.len() as int);
            assert forall|k: int| 0 <= k < self.name_parts@.len() implies #[trigger] sv[k]
                == (self.name_parts@[k])@ by {}
        }
        while i < self.name_parts.len()
            invariant
                sv == str_views(self.name_parts@),
                i <= self.name_parts@.len(),
                name@ == join_parts(sv, i as int),
            decreases self.name_parts@.len() - i,
        {
            if name.len() > 0 {
                name.push(' ');
            }
            let ghost base = name@;
            let pc = to_chars(self.name_parts[i].as_str());
            let mut j: usize = 0;
            while j < pc.len()
                invariant
                    pc@ == self.name_parts@[i as int]@,
                    i < self.name_parts@.len(),
                    j <= pc@.len(),
                    name@ == base + pc@.take(j as int),
                decreases pc@.len() - j,
            {
                name.push(pc[j]);
                proof {
                    assert(name@ =~= base + pc@.take(j + 1));
                }
                j = j + 1;
            }
            proof {
                assert(pc@.take(pc@.len() as int) =~= pc@);
                assert(sv[i as int] == pc@);
                if join_parts(sv, i as int).len() > 0 {
                    assert(name@ =~= join_parts(sv, i as int) + seq![' '] + sv[i as int]);
                } else {
                    assert(name@ =~= sv[i as int]);
                }
                assert(name@ == join_parts(sv, i + 1));
            }
            i = i + 1;
        }
        proof {
            lemma_join_empty(sv, sv.len() as int);
            assert forall|k: int| 0 <= k < self.name_parts@.len() implies ((
            #[trigger] self.name_parts@[k])@.len() == 0) == (sv[k].len() == 0) by {}
        }
        if name.len() == 0 {
            return Option::None;
        }
        let primary_name = chars_to_string(&name);
        let source_ref = match &self.source_ref {
            Option::Some(id) => prefixed_ref(prefix, to_chars(id.as_str())),
            Option::None => prefixed_ref(prefix, name_slug(primary_name.as_str())),
        };
        let mut aliases: Vec<ParsedAlias> = Vec::new();
        let mut k: usize = 0;
        proof {
            assert(alias_names(aliases@) =~~= str_views(self.aliases@).take(0));
        }
        while k < self.aliases.len()
            invariant
                k <= self.aliases@.len(),
                alias_names(aliases@) == str_views(self.aliases@).take(k as int),
            decreases self.aliases@.len() - k,
        {
            let next_alias = ParsedAlias {
                name: self.aliases[k].clone(),
                alias_type: String::from_str("aka"),
            };
            proof {
                assert(next_alias.name@ == self.aliases@[k as int]@);
            }
            let ghost pre = aliases@;
            aliases.push(next_alias);
            k = k + 1;
            proof {
                assert(alias_names(pre).len() == pre.len());
                assert(pre.len() == k - 1);
                assert(aliases@.len() == k);
                assert(aliases@.last().name@ == self.aliases@[k - 1]@);
                assert forall|t: int| 0 <= t < k implies alias_names(aliases@)[t] == str_views(
                    self.aliases@,
                ).take(k as int)[t] by {
                    if t < k - 1 {
                        assert(aliases@[t] == pre[t]);
                        assert(alias_names(pre)[t] == pre[t].name@);
                        assert(alias_names(pre)[t] == str_views(self.aliases@).take(k - 1)[t]);
                        assert(str_views(self.aliases@).take(k - 1)[t] == str_views(
                            self.aliases@,
                        )[t]);
                    } else {
                        assert(aliases@[t] == aliases@.last());
                    }
                    assert(str_views(self.aliases@).take(k as int)[t] == str_views(
                        self.aliases@,
                    )[t]);
                    assert(str_views(self.aliases@)[t] == self.aliases@[t]@);
                }
                assert(alias_names(aliases@) =~= str_views(self.aliases@).take(k as int));
            }
        }
        proof {
            assert(str_views(self.aliases@).take(self.aliases@.len() as int) =~~= str_views(
                self.aliases@,
            ));
        }
        Option::Some(
            ParsedSubject {
                source_ref,
                kind: self.kind,
                primary_name,
                aliases,
                date_of_birth: self.date_of_birth,
                date_of_birth_year: self.date_of_birth_year,
                country: self.country,
                nationalities: self.nationalities,
            },
        )
    }
}


/// The builder's mathematical shape while an entry is open.
pub ghost struct UnB {
    pub source_ref: Option<Seq<char>>,
    pub kind: SubjectKind,
    pub parts: Seq<Seq<char>>,
    pub aliases: Seq<Seq<char>>,
    pub dob: Option<Seq<char>>,
    pub year: Option<int>,
    pub country: Option<Seq<char>>,
    pub nats: Seq<Seq<char>>,
}

/// The mathematical shape of the executable builder.
pub open spec fn un_bm(b: SubjectBuilder) -> UnB {
    UnB {
        source_ref: opt_string_view(b.source_ref),
        kind: b.kind,
        parts: str_views(b.name_parts@),
        aliases: str_views(b.aliases@),
        dob: opt_string_view(b.date_of_birth),
        year: (match b.date_of_birth_year {
            Option::Some(y) => Option::Some(y as int),
            Option::None => Option::None,
        }),
        country: opt_string_view(b.country),
        nats: str_views(b.nationalities@),
    }
}

/// A fresh builder for an entry of the given kind.
pub open spec fn un_fresh(kind: SubjectKind) -> UnB {
    UnB {
        source_ref: Option::None,
        kind,
        parts: Seq::empty(),
        aliases: Seq::empty(),
        dob: Option::None,
        year: Option::None,
        country: Option::None,
        nats: Seq::empty(),
    }
}

/// The subject a closed entry emits: exactly when the joined name is
/// nonempty, with the reference and alias shape of [`SubjectBuilder::build`].
pub open spec fn un_build_m(b: UnB, prefix: Seq<char>) -> Option<SubjectM> {
    let joined = join_parts(b.parts, b.parts.len() as int);
    if joined.len() == 0 {
        Option::None
    } else {
        Option::Some(
            SubjectM {
                source_ref: prefix + seq!['_'] + (match b.source_ref {
                    Option::Some(id) => id,
                    Option::None => spec_name_slug(joined, joined.len() as int),
                }),
                kind: b.kind,
                primary_name: joined,
                aliases: b.aliases,
                date_of_birth: b.dob,
                date_of_birth_year: b.year,
                country: b.country,
                nationalities: b.nats,
            },
        )
    }
}

/// One text run's effect on the open entry, keyed by the enclosing
/// element.
pub open spec fn un_text_step(b: UnB, cur: Seq<char>, text: Seq<char>) -> UnB {
    if cur == "DATAID"@ {
        UnB { source_ref: Option::Some(text), ..b }
    } else if cur == "FIRST_NAME"@ || cur == "SECOND_NAME"@ || cur == "THIRD_NAME"@ || cur
        == "FOURTH_NAME"@ {
        if text.len() > 0 {
            UnB { parts: b.parts.push(text), ..b }
        } else {
            b
        }
    } else if cur == "NAME_ORIGINAL_SCRIPT"@ || cur == "ALIAS_NAME"@ {
        if text.len() > 0 {
            UnB { aliases: b.aliases.push(text), ..b }
        } else {
            b
        }
    } else if cur == "NATIONALITY"@ {
        if text.len() == 2 {
            let code = crate::strutil::upper_seq(text);
            UnB {
                country: (if b.country is None {
                    Option::Some(code)
                } else {
                    b.country
                }),
                nats: b.nats.push(code),
                ..b
            }
        } else {
            b
        }
    } else if cur == "DATE_OF_BIRTH"@ {
        let e = crate::xmlscan::find_char(text, 0, '-');
        let year2 = match crate::strutil::spec_parse_u32(text, 0, e) {
            Option::Some(y) => if 1900 <= y < 2100 {
                Option::Some(y as int)
            } else {
                b.year
            },
            Option::None => b.year,
        };
        UnB { dob: Option::Some(text), year: year2, ..b }
    } else if cur == "YEAR_OF_BIRTH"@ {
        match crate::strutil::spec_parse_u32(text, 0, text.len() as int) {
            Option::Some(y) => if 1900 <= y < 2100 {
                UnB { year: Option::Some(y as int), ..b }
            } else {
                b
            },
            Option::None => b,
        }
    } else {
        b
    }
}

/// The full fold state: the element whose text is next, the open entry,
/// and the subjects emitted so far.
pub ghost struct UnFold {
    pub cur: Seq<char>,
    pub builder: Option<UnB>,
    pub out: Seq<SubjectM>,
}

/// One event's full effect on the fold.
pub open spec fn un_full_step(st: UnFold, e: XmlEventM) -> UnFold {
    match e {
        XmlEventM::Start { name, .. } => {
            if name == "INDIVIDUAL"@ {
                UnFold { cur: name, builder: Option::Some(un_fresh(SubjectKind::Person)), out: st.out }
            } else if name == "ENTITY"@ {
                UnFold { cur: name, builder: Option::Some(un_fresh(SubjectKind::Entity)), out: st.out }
            } else {
                UnFold { cur: name, ..st }
            }
        },
        XmlEventM::End { name } => {
            if name == "INDIVIDUAL"@ || name == "ENTITY"@ {
                UnFold {
                    cur: Seq::empty(),
                    builder: Option::None,
                    out: match st.builder {
                        Option::Some(b) => match un_build_m(b, "un"@) {
                            Option::Some(sm) => st.out.push(sm),
                            Option::None => st.out,
                        },
                        Option::None => st.out,
                    },
                }
            } else {
                UnFold { cur: Seq::empty(), ..st }
            }
        },
        XmlEventM::Text { text } => {
            match st.builder {
                Option::Some(b) => UnFold {
                    builder: Option::Some(un_text_step(b, st.cur, text)),
                    ..st
                },
                Option::None => st,
            }
        },
    }
}

/// The fold state after the first `i` events.
pub open spec fn un_fold_at(events: Seq<XmlEventM>, i: int) -> UnFold
    decreases i,
    when 0 <= i <= events.len()
{
    if i <= 0 {
        UnFold { cur: Seq::empty(), builder: Option::None, out: Seq::empty() }
    } else {
        un_full_step(un_fold_at(events, i - 1), events[i - 1])
    }
}

/// The subjects the UN consolidated list text parses to.
pub open spec fn un_subjects_of(xml: Seq<char>) -> Seq<SubjectM> {
    un_fold_at(scan_at(xml, 0), scan_at(xml, 0).len() as int).out
}

/// The scan state over the event stream: inside an entry or not, the
/// element whose text is next, whether the entry collected a name
/// fragment, and how many subjects have been emitted.
pub ghost struct UnScan {
    pub in_entry: bool,
    pub cur: Seq<char>,
    pub has_name: bool,
    pub count: int,
}

/// One event's effect on the scan: entries open at `INDIVIDUAL` or
/// `ENTITY`, a nonempty name-fragment text marks the entry named, and a
/// named entry emits one subject at its end.
pub open spec fn un_step(st: UnScan, e: XmlEventM) -> UnScan {
    match e {
        XmlEventM::Start { name, .. } => {
            if name == "INDIVIDUAL"@ || name == "ENTITY"@ {
                UnScan { in_entry: true, cur: name, has_name: false, count: st.count }
            } else {
                UnScan { cur: name, ..st }
            }
        },
        XmlEventM::End { name } => {
            if name == "INDIVIDUAL"@ || name == "ENTITY"@ {
                UnScan {
                    in_entry: false,
                    cur: Seq::empty(),
                    has_name: false,
                    count: st.count + if st.in_entry && st.has_name {
                        1int
                    } else {
                        0int
                    },
                }
            } else {
                UnScan { cur: Seq::empty(), ..st }
            }
        },
        XmlEventM::Text { text } => {
            if st.in_entry && (st.cur == "FIRST_NAME"@ || st.cur == "SECOND_NAME"@ || st.cur
                == "THIRD_NAME"@ || st.cur == "FOURTH_NAME"@) && text.len() > 0 {
                UnScan { has_name: true, ..st }
            } else {
                st
            }
        },
    }
}

/// The scan state after the first `i` events.
pub open spec fn un_scan(events: Seq<XmlEventM>, i: int) -> UnScan
    decreases i,
    when 0 <= i <= events.len()
{
    if i <= 0 {
        UnScan { in_entry: false, cur: Seq::empty(), has_name: false, count: 0 }
    } else {
        un_step(un_scan(events, i - 1), events[i - 1])
    }
}

/// Parses the UN consolidated list: every well-formed `INDIVIDUAL` or
/// `ENTITY` yields one canonical subject; malformed entries are skipped.
pub fn parse_un_xml(xml: &str) -> (r: Vec<ParsedSubject>)
    ensures
        forall|i: int| 0 <= i < r@.len() ==> subject_wf(#[trigger] r@[i]),
        r@.len() == un_scan(scan_at(xml@, 0), scan_at(xml@, 0).len() as int).count,
        subjects_model(r@) == un_subjects_of(xml@),
{
    let events = scan_xml(xml);
    let r = parse_un_events(&events);
    proof {
        assert(events_model(events@).len() == events@.len());
    }
    r
}

/// Parses the scanned event stream of the UN consolidated list: exactly
/// one subject per named entry, every subject well-formed.
pub fn parse_un_events(events: &Vec<XmlEvent>) -> (r: Vec<ParsedSubject>)
    requires
        forall|q: int| 0 <= q < events@.len() ==> crate::xmlscan::event_wf(#[trigger] events@[q]),
    ensures
        forall|i: int| 0 <= i < r@.len() ==> subject_wf(#[trigger] r@[i]),
        r@.len() == un_scan(events_model(events@), events@.len() as int).count,
        subjects_model(r@) == un_fold_at(events_model(events@), events@.len() as int).out,
{
    let mut subjects: Vec<ParsedSubject> = Vec::new();
    let mut builder: Option<SubjectBuilder> = None;
    let mut current: Vec<char> = Vec::new();
    let n: usize = events.len();
    let ghost m = events_model(events@);
    let mut i: usize = 0;
    proof {
        assert(subjects_model(subjects@) =~= Seq::<SubjectM>::empty());
    }
    while i < n
        invariant
            n == events@.len(),
            i <= n,
            m == events_model(events@),
            m.len() == n,
            forall|q: int| 0 <= q < events@.len() ==> crate::xmlscan::event_wf(
                #[trigger] events@[q],
            ),
            forall|q: int| 0 <= q < subjects@.len() ==> subject_wf(#[trigger] subjects@[q]),
            match builder {
                Option::Some(b) => un_builder_wf(b) && (forall|k: int|
                    0 <= k < b.name_parts@.len() ==> (#[trigger] b.name_parts@[k])@.len() > 0),
                Option::None => true,
            },
            un_scan(m, i as int).in_entry == (builder is Some),
            un_scan(m, i as int).cur == current@,
            un_scan(m, i as int).has_name == (match builder {
                Option::Some(b) => b.name_parts@.len() > 0,
                Option::None => false,
            }),
            un_scan(m, i as int).count == subjects@.len(),
            un_fold_at(m, i as int).cur == current@,
            match builder {
                Option::Some(b) => un_fold_at(m, i as int).builder == Option::Some(un_bm(b)),
                Option::None => un_fold_at(m, i as int).builder is None,
            },
            subjects_model(subjects@) == un_fold_at(m, i as int).out,
        decreases n - i,
    {
        proof {
            assert(m[i as int] == event_model(events@[i as int]));
            assert(un_scan(m, i as int + 1) == un_step(un_scan(m, i as int), m[i as int]));
            assert(un_fold_at(m, i as int + 1) == un_full_step(un_fold_at(m, i as int), m[i as int]));
            reveal_strlit("INDIVIDUAL");
            reveal_strlit("ENTITY");
            reveal_strlit("DATAID");
            reveal_strlit("FIRST_NAME");
            reveal_strlit("SECOND_NAME");
            reveal_strlit("THIRD_NAME");
            reveal_strlit("FOURTH_NAME");
            reveal_strlit("NAME_ORIGINAL_SCRIPT");
            reveal_strlit("ALIAS_NAME");
            reveal_strlit("NATIONALITY");
            reveal_strlit("DATE_OF_BIRTH");
            reveal_strlit("YEAR_OF_BIRTH");
            assert(crate::xmlscan::event_wf(events@[i as int]));
            assert("INDIVIDUAL"@.len() == 10 && "ENTITY"@.len() == 6 && "DATAID"@.len() == 6
                && "FIRST_NAME"@.len() == 10 && "SECOND_NAME"@.len() == 11
                && "THIRD_NAME"@.len() == 10 && "FOURTH_NAME"@.len() == 11
                && "NAME_ORIGINAL_SCRIPT"@.len() == 20 && "ALIAS_NAME"@.len() == 10
                && "NATIONALITY"@.len() == 11 && "DATE_OF_BIRTH"@.len() == 13
                && "YEAR_OF_BIRTH"@.len() == 13);
        }
        match &events[i] {
            XmlEvent::Start { name, .. } => {
                current = clone_chars(name);
                if chars_eq_str(name, "INDIVIDUAL") {
                    builder = Option::Some(SubjectBuilder::new(SubjectKind::Person));
                    proof {
                        assert(str_views(builder->Some_0.name_parts@) =~= Seq::<Seq<char>>::empty());
                        assert(str_views(builder->Some_0.aliases@) =~= Seq::<Seq<char>>::empty());
                        assert(str_views(builder->Some_0.nationalities@) =~= Seq::<
                            Seq<char>,
                        >::empty());
                        assert(un_bm(builder->Some_0) == un_fresh(SubjectKind::Person));
                    }
                } else if chars_eq_str(name, "ENTITY") {
                    builder = Option::Some(SubjectBuilder::new(SubjectKind::Entity));
                    proof {
                        assert(str_views(builder->Some_0.name_parts@) =~= Seq::<Seq<char>>::empty());
                        assert(str_views(builder->Some_0.aliases@) =~= Seq::<Seq<char>>::empty());
                        assert(str_views(builder->Some_0.nationalities@) =~= Seq::<
                            Seq<char>,
                        >::empty());
                        assert(un_bm(builder->Some_0) == un_fresh(SubjectKind::Entity));
                    }
                }
            },
            XmlEvent::End { name } => {
                if chars_eq_str(name, "INDIVIDUAL") || chars_eq_str(name, "ENTITY") {
                    let taken = builder;
                    builder = Option::None;
                    proof {
                        if taken is Some {
                            let ghost b = taken->Some_0;
                            if b.name_parts@.len() > 0 {
                                assert(b.name_parts@[0]@.len() > 0);
                            }
                        }
                    }
                    match taken {
                        Option::Some(b) => {
                            let ghost bbm = un_bm(b);
                            let ghost pre_s = subjects@;
                            proof {
                                reveal_strlit("un");
                            }
                            match b.build("un") {
                                Option::Some(s) => {
                                    proof {
                                        assert(subject_model(s).aliases == bbm.aliases);
                                        assert(subject_model(s).nationalities == bbm.nats);
                                        assert(un_build_m(bbm, "un"@) == Option::Some(
                                            subject_model(s),
                                        ));
                                    }
                                    subjects.push(s);
                                    proof {
                                        assert(subjects_model(subjects@) =~= subjects_model(pre_s)
                                            + seq![subject_model(s)]);
                                    }
                                },
                                Option::None => {
                                    proof {
                                        assert(un_build_m(bbm, "un"@) is None);
                                    }
                                },
                            }
                        },
                        Option::None => {},
                    }
                }
                current = Vec::new();
            },
            XmlEvent::Text { text } => {
                match &mut builder {
                    Option::Some(b) => {
                        let ghost bm0 = un_bm(*b);
                        let ts = chars_to_string(text);
                        if chars_eq_str(&current, "DATAID") {
                            b.source_ref = Option::Some(ts);
                        } else if chars_eq_str(&current, "FIRST_NAME") || chars_eq_str(
                            &current,
                            "SECOND_NAME",
                        ) || chars_eq_str(&current, "THIRD_NAME") || chars_eq_str(
                            &current,
                            "FOURTH_NAME",
                        ) {
                            b.add_name_part(ts.as_str());
                        } else if chars_eq_str(&current, "NAME_ORIGINAL_SCRIPT") || chars_eq_str(
                            &current,
                            "ALIAS_NAME",
                        ) {
                            b.add_alias(ts.as_str());
                        } else if chars_eq_str(&current, "NATIONALITY") {
                            if text.len() == 2 {
                                let up = ascii_upper_chars(text);
                                let us = chars_to_string(&up);
                                b.add_nationality(us.as_str());
                            }
                        } else if chars_eq_str(&current, "DATE_OF_BIRTH") {
                            // The leading dash-separated field as a year.
                            let mut end: usize = 0;
                            while end < text.len() && text[end] != '-'
                                invariant
                                    end <= text@.len(),
                                    crate::xmlscan::find_char(text@, 0, '-')
                                        == crate::xmlscan::find_char(text@, end as int, '-'),
                                decreases text@.len() - end,
                            {
                                proof {
                                    assert(crate::xmlscan::find_char(text@, end as int, '-')
                                        == crate::xmlscan::find_char(text@, end + 1, '-'));
                                }
                                end = end + 1;
                            }
                            proof {
                                assert(crate::xmlscan::find_char(text@, end as int, '-')
                                    == end as int);
                            }
                            match parse_u32_chars(text, 0, end) {
                                Option::Some(y) => {
                                    if 1900 <= y && y < 2100 {
                                        b.date_of_birth_year = Option::Some(y as i32);
                                    }
                                },
                                Option::None => {},
                            }
                            b.date_of_birth = Option::Some(ts);
                        } else if chars_eq_str(&current, "YEAR_OF_BIRTH") {
                            match parse_u32_chars(text, 0, text.len()) {
                                Option::Some(y) => {
                                    if 1900 <= y && y < 2100 {
                                        b.date_of_birth_year = Option::Some(y as i32);
                                    }
                                },
                                Option::None => {},
                            }
                        }
                        proof {
                            assert(un_bm(*b) == un_text_step(bm0, current@, text@));
                        }
                    },
                    Option::None => {},
                }
            },
        }
        i = i + 1;
    }
    subjects
}

} // verus!
