//! Parser for the OFAC SDN roster: text-driven entries under `sdnEntry`
//! elements.

use vstd::prelude::*;
use vstd::string::StringExecFns;
use crate::subject::{ParsedAlias, ParsedSubject, SubjectKind, subject_wf};
use crate::xmlscan::{scan_xml, XmlEvent, XmlEventM, events_model, event_model, scan_at};
use crate::strutil::{
    chars_eq_str, chars_to_string, to_chars, ascii_lower_chars, str_equals, clone_chars,
};
use crate::parser_eu::{name_slug, spec_name_slug, alias_names, SubjectM, subjects_model, subject_model};
use crate::strutil::str_views;
use crate::monitoring::opt_string_view;

verus! {

/// Whether a character is a decimal digit, and its value.
pub open spec fn digit_val(c: char) -> int {
    c as int - 0x30
}

pub open spec fn is_digit(c: char) -> bool {
    0x30 <= c as int <= 0x39
}

/// Four digits starting at `i` reading as a year in the plausible
/// range: at least 1900 and below 2100.
pub open spec fn year_window(s: Seq<char>, i: int) -> bool {
    &&& 0 <= i
    &&& i + 4 <= s.len()
    &&& is_digit(s[i]) && is_digit(s[i + 1]) && is_digit(s[i + 2]) && is_digit(s[i + 3])
    &&& 1900 <= window_val(s, i) < 2100
}

pub open spec fn window_val(s: Seq<char>, i: int) -> int {
    1000 * digit_val(s[i]) + 100 * digit_val(s[i + 1]) + 10 * digit_val(s[i + 2]) + digit_val(
        s[i + 3],
    )
}

/// The first plausible four-digit window, scanning left to right.
pub open spec fn spec_first_year(s: Seq<char>, i: int) -> Option<int>
    decreases s.len() - i,
    when 0 <= i <= s.len()
{
    if i + 4 > s.len() {
        Option::None
    } else if year_window(s, i) {
        Option::Some(window_val(s, i))
    } else {
        spec_first_year(s, i + 1)
    }
}

/// The numeric value of one digit character.
fn digit_of(c: char) -> (r: u32)
    requires
        is_digit(c),
    ensures
        r as int == digit_val(c),
        r <= 9,
{
    (c as u32) - 0x30
}

/// Reads the window at `i`, when it is a plausible year.
pub fn year_at(v: &Vec<char>, i: usize) -> (r: Option<i32>)
    requires
        i + 4 <= v@.len(),
    ensures
        match r {
            Option::Some(y) => year_window(v@, i as int) && y == window_val(v@, i as int),
            Option::None => !year_window(v@, i as int),
        },
{
    let n: usize = v.len();
    proof {
        assert(i + 4 <= n);
    }
    let c0 = v[i];
    let c1 = v[i + 1];
    let c2 = v[i + 2];
    let c3 = v[i + 3];
    if !crate::strutil::is_ascii_digit_char(c0) || !crate::strutil::is_ascii_digit_char(c1)
        || !crate::strutil::is_ascii_digit_char(c2) || !crate::strutil::is_ascii_digit_char(c3) {
        return Option::None;
    }
    let val: u32 = 1000 * digit_of(c0) + 100 * digit_of(c1) + 10 * digit_of(c2) + digit_of(c3);
    if 1900 <= val && val < 2100 {
        Option::Some(val as i32)
    } else {
        Option::None
    }
}

/// The first plausible year in a free-form date: the earliest four-digit
/// window reading as a year at least 1900 and below 2100.
pub fn extract_year(date_str: &str) -> (r: Option<i32>)
    ensures
        match r {
            Option::Some(y) => 1900 <= y < 2100 && spec_first_year(date_str@, 0) == Option::Some(
                y as int,
            ),
            Option::None => spec_first_year(date_str@, 0) is None,
        },
{
    let v = to_chars(date_str);
    let n: usize = v.len();
    if n < 4 {
        return Option::None;
    }
    let mut i: usize = 0;
    while i <= n - 4
        invariant
            v@ == date_str@,
            4 <= n == v@.len(),
            i <= n,
            spec_first_year(v@, 0) == spec_first_year(v@, i as int),
        decreases n - i,
    {
        match year_at(&v, i) {
            Option::Some(y) => {
                return Option::Some(y);
            },
            Option::None => {},
        }
        i = i + 1;
    }
    Option::None
}

/// The capitals prefix of the fallback code: the first two ASCII
/// capital letters of the given name, in order.
pub open spec fn spec_caps2(s: Seq<char>, i: int) -> Seq<char>
    decreases i,
    when 0 <= i <= s.len()
{
    if i <= 0 {
        Seq::empty()
    } else {
        let prev = spec_caps2(s, i - 1);
        if prev.len() >= 2 {
            prev
        } else if 0x41 <= s[i - 1] as int <= 0x5A {
            prev.push(s[i - 1])
        } else {
            prev
        }
    }
}

/// Once two capitals are collected, later characters change nothing.
proof fn lemma_caps2_stable(s: Seq<char>, i: int, j: int)
    requires
        0 <= i <= j <= s.len(),
        spec_caps2(s, i).len() >= 2,
    ensures
        spec_caps2(s, j) == spec_caps2(s, i),
    decreases j - i,
{
    if i < j {
        lemma_caps2_stable(s, i, j - 1);
    }
}

/// The code a country name maps to: a known sanctioned or common state
/// (case-insensitively, with its formal synonyms) gives its code,
/// anything else its first two ASCII capitals.
pub open spec fn spec_country_code(s: Seq<char>) -> Seq<char> {
    let low = crate::store::ascii_lower_seq(s);
    if low == "russia"@ || low == "russian federation"@ {
        "RU"@
    } else if low == "china"@ || low == "people's republic of china"@ {
        "CN"@
    } else if low == "iran"@ || low == "islamic republic of iran"@ {
        "IR"@
    } else if low == "north korea"@ || low == "democratic people's republic of korea"@ {
        "KP"@
    } else if low == "syria"@ || low == "syrian arab republic"@ {
        "SY"@
    } else if low == "cuba"@ {
        "CU"@
    } else if low == "venezuela"@ {
        "VE"@
    } else if low == "belarus"@ {
        "BY"@
    } else if low == "myanmar"@ || low == "burma"@ {
        "MM"@
    } else if low == "afghanistan"@ {
        "AF"@
    } else if low == "iraq"@ {
        "IQ"@
    } else if low == "libya"@ {
        "LY"@
    } else if low == "sudan"@ {
        "SD"@
    } else if low == "yemen"@ {
        "YE"@
    } else if low == "united states"@ || low == "usa"@ {
        "US"@
    } else if low == "united kingdom"@ || low == "uk"@ {
        "GB"@
    } else {
        spec_caps2(s, s.len() as int)
    }
}

/// Maps a full country name to its two-letter code; unknown names fall
/// back to their first two ASCII capitals: exactly the mapping of
/// [`spec_country_code`].
pub fn country_to_iso(country: &str) -> (r: String)
    ensures
        r@ == spec_country_code(country@),
        r@.len() <= 2,
{
    let lowv = ascii_lower_chars(&to_chars(country));
    let low = chars_to_string(&lowv);
    let code: &'static str = if str_equals(low.as_str(), "russia") || str_equals(
        low.as_str(),
        "russian federation",
    ) {
        "RU"
    } else if str_equals(low.as_str(), "china") || str_equals(
        low.as_str(),
        "people's republic of china",
    ) {
        "CN"
    } else if str_equals(low.as_str(), "iran") || str_equals(
        low.as_str(),
        "islamic republic of iran",
    ) {
        "IR"
    } else if str_equals(low.as_str(), "north korea") || str_equals(
        low.as_str(),
        "democratic people's republic of korea",
    ) {
        "KP"
    } else if str_equals(low.as_str(), "syria") || str_equals(low.as_str(), "syrian arab republic") {
        "SY"
    } else if str_equals(low.as_str(), "cuba") {
        "CU"
    } else if str_equals(low.as_str(), "venezuela") {
        "VE"
    } else if str_equals(low.as_str(), "belarus") {
        "BY"
    } else if str_equals(low.as_str(), "myanmar") || str_equals(low.as_str(), "burma") {
        "MM"
    } else if str_equals(low.as_str(), "afghanistan") {
        "AF"
    } else if str_equals(low.as_str(), "iraq") {
        "IQ"
    } else if str_equals(low.as_str(), "libya") {
        "LY"
    } else if str_equals(low.as_str(), "sudan") {
        "SD"
    } else if str_equals(low.as_str(), "yemen") {
        "YE"
    } else if str_equals(low.as_str(), "united states") || str_equals(low.as_str(), "usa") {
        "US"
    } else if str_equals(low.as_str(), "united kingdom") || str_equals(low.as_str(), "uk") {
        "GB"
    } else {
        // Fall back to the first two ASCII capitals of the given name.
        let v = to_chars(country);
        let mut out: Vec<char> = Vec::new();
        let mut i: usize = 0;
        proof {
            assert(out@ =~= spec_caps2(country@, 0));
        }
        while i < v.len()
            invariant
                v@ == country@,
                i <= v@.len(),
                out@.len() <= 2,
                out@ == spec_caps2(country@, i as int),
            decreases v@.len() - i,
        {
            if out.len() < 2 {
                if crate::strutil::is_ascii_upper_char(v[i]) {
                    out.push(v[i]);
                }
            }
            proof {
                assert(spec_caps2(country@, i as int + 1) == (if spec_caps2(
                    country@,
                    i as int,
                ).len() >= 2 {
                    spec_caps2(country@, i as int)
                } else if 0x41 <= country@[i as int] as int <= 0x5A {
                    spec_caps2(country@, i as int).push(country@[i as int])
                } else {
                    spec_caps2(country@, i as int)
                }));
            }
            i = i + 1;
        }
        return chars_to_string(&out);
    };
    proof {
        reveal_strlit("RU");
        reveal_strlit("CN");
        reveal_strlit("IR");
        reveal_strlit("KP");
        reveal_strlit("SY");
        reveal_strlit("CU");
        reveal_strlit("VE");
        reveal_strlit("BY");
        reveal_strlit("MM");
        reveal_strlit("AF");
        reveal_strlit("IQ");
        reveal_strlit("LY");
        reveal_strlit("SD");
        reveal_strlit("YE");
        reveal_strlit("US");
        reveal_strlit("GB");
    }
    String::from_str(code)
}

/// Builder collecting one `sdnEntry`.
pub struct SubjectBuilder {
    pub source_ref: Option<String>,
    pub sdn_type: Option<String>,
    pub first_name: Option<String>,
    pub last_name: Option<String>,
    pub aliases: Vec<String>,
    pub date_of_birth: Option<String>,
    pub date_of_birth_year: Option<i32>,
    pub country: Option<String>,
    pub nationalities: Vec<String>,
}

/// The primary name the collected fragments join to: the first and last
/// names with a space between them when both are present.
pub open spec fn ofac_name(first: Option<Seq<char>>, last: Option<Seq<char>>) -> Seq<char> {
    let f = match first {
        Option::Some(x) => x,
        Option::None => Seq::empty(),
    };
    match last {
        Option::Some(l) => if f.len() > 0 {
            f + seq![' '] + l
        } else {
            l
        },
        Option::None => f,
    }
}

/// Years in the builder stay plausible.
pub open spec fn builder_wf(b: SubjectBuilder) -> bool {
    match b.date_of_birth_year {
        Option::Some(y) => 1900 <= y < 2100,
        Option::None => true,
    }
}

impl SubjectBuilder {
    pub fn new() -> (r: SubjectBuilder)
        ensures
            builder_wf(r),
            r.first_name is None,
            r.last_name is None,
            r.source_ref is None,
            r.sdn_type is None,
            r.aliases@.len() == 0,
            r.date_of_birth is None,
            r.date_of_birth_year is None,
            r.country is None,
            r.nationalities@.len() == 0,
    {
        SubjectBuilder {
            source_ref: Option::None,
            sdn_type: Option::None,
            first_name: Option::None,
            last_name: Option::None,
            aliases: Vec::new(),
            date_of_birth: Option::None,
            date_of_birth_year: Option::None,
            country: Option::None,
            nationalities: Vec::new(),
        }
    }

    /// Keeps a nonempty alias.
    pub fn add_alias(&mut self, alias: &str)
        ensures
            builder_wf(*final (self)) == builder_wf(*old(self)),
            final (self).date_of_birth_year == old(self).date_of_birth_year,
            final (self).first_name == old(self).first_name,
            final (self).last_name == old(self).last_name,
            str_views(final (self).aliases@) == (if alias@.len() > 0 {
                str_views(old(self).aliases@).push(alias@)
            } else {
                str_views(old(self).aliases@)
            }),
            final (self).source_ref == old(self).source_ref,
            final (self).sdn_type == old(self).sdn_type,
            final (self).date_of_birth == old(self).date_of_birth,
            final (self).country == old(self).country,
            final (self).nationalities == old(self).nationalities,
    {
        if alias.unicode_len() > 0 {
            let ghost pre = self.aliases@;
            self.aliases.push(String::from_str(alias));
            proof {
                assert(str_views(self.aliases@) =~= str_views(pre).push(alias@));
            }
        }
    }

    /// Keeps the first country seen, mapped to its code.
    pub fn add_country(&mut self, country: &str)
        ensures
            builder_wf(*final (self)) == builder_wf(*old(self)),
            final (self).date_of_birth_year == old(self).date_of_birth_year,
            final (self).first_name == old(self).first_name,
            final (self).last_name == old(self).last_name,
            opt_string_view(final (self).country) == (if country@.len() > 0 && old(
                self,
            ).country is None {
                Option::Some(spec_country_code(country@))
            } else {
                opt_string_view(old(self).country)
            }),
            str_views(final (self).nationalities@) == (if country@.len() > 0 && old(
                self,
            ).country is None {
                str_views(old(self).nationalities@).push(spec_country_code(country@))
            } else {
                str_views(old(self).nationalities@)
            }),
            final (self).source_ref == old(self).source_ref,
            final (self).sdn_type == old(self).sdn_type,
            final (self).aliases == old(self).aliases,
            final (self).date_of_birth == old(self).date_of_birth,
    {
        if country.unicode_len() > 0 && self.country.is_none() {
            let iso = country_to_iso(country);
            self.country = Option::Some(iso.clone());
            let ghost pre = self.nationalities@;
            self.nationalities.push(iso);
            proof {
                assert(str_views(self.nationalities@) =~= str_views(pre).push(
                    spec_country_code(country@),
                ));
            }
        }
    }

    /// Produces the canonical subject exactly when a name was collected:
    /// the primary name joins the first and last names, the reference
    /// falls back to a slug of the name.
    pub fn build(self) -> (r: Option<ParsedSubject>)
        requires
            builder_wf(self),
        ensures
            r is None <==> ((match self.first_name {
                Option::Some(f) => f@.len() == 0,
                Option::None => true,
            }) && (match self.last_name {
                Option::Some(l) => l@.len() == 0,
                Option::None => true,
            })),
            match r {
                Option::Some(s) => subject_wf(s),
                Option::None => true,
            },
            ({
                let joined = ofac_name(
                    opt_string_view(self.first_name),
                    opt_string_view(self.last_name),
                );
                match r {
                    Option::Some(s) => joined.len() > 0 && s.primary_name@ == joined && s.kind
                        == (match self.sdn_type {
                        Option::Some(t) => if crate::strutil::upper_seq(t@) == "INDIVIDUAL"@ {
                            SubjectKind::Person
                        } else {
                            SubjectKind::Entity
                        },
                        Option::None => SubjectKind::Entity,
                    }) && s.source_ref@ == "ofac"@ + seq!['_'] + (match self.source_ref {
                        Option::Some(id) => id@,
                        Option::None => spec_name_slug(joined, joined.len() as int),
                    }) && alias_names(s.aliases@) == str_views(self.aliases@) && s.date_of_birth
                        == self.date_of_birth && s.date_of_birth_year == self.date_of_birth_year
                        && s.country == self.country && s.nationalities@ == self.nationalities@,
                    Option::None => joined.len() == 0,
                }
            }),
    {
        let ghost fv: Seq<char> = match opt_string_view(self.first_name) {
            Option::Some(f) => f,
            Option::None => Seq::empty(),
        };
        let mut name: Vec<char> = Vec::new();
        match &self.first_name {
            Option::Some(f) => {
                let fc = to_chars(f.as_str());
                let mut i: usize = 0;
                while i < fc.len()
                    invariant
                        fc@ == f@,
                        i <= fc@.len(),
                        name@ == fc@.take(i as int),
                    decreases fc@.len() - i,
                {
                    name.push(fc[i]);
                    proof {
                        assert(name@ =~= fc@.take(i + 1));
                    }
                    i = i + 1;
                }
                proof {
                    assert(fc@.take(fc@.len() as int) =~= fc@);
                }
            },
            Option::None => {},
        }
        proof {
            assert(name@ =~= fv);
        }
        let ghost head = name@;
        match &self.last_name {
            Option::Some(l) => {
                if name.len() > 0 {
                    name.push(' ');
                }
                let ghost base = name@;
                let lc = to_chars(l.as_str());
                let mut i: usize = 0;
                while i < lc.len()
                    invariant
                        lc@ == l@,
                        i <= lc@.len(),
                        name@ == base + lc@.take(i as int),
                    decreases lc@.len() - i,
                {
                    name.push(lc[i]);
                    proof {
                        assert(name@ =~= base + lc@.take(i + 1));
                    }
                    i = i + 1;
                }
                proof {
                    assert(lc@.take(lc@.len() as int) =~= lc@);
                    if fv.len() > 0 {
                        assert(base =~= fv + seq![' ']);
                        assert(name@ =~= fv + seq![' '] + l@);
                    } else {
                        assert(name@ =~= l@);
                    }
                }
            },
            Option::None => {},
        }
        proof {
            assert(name@ == ofac_name(
                opt_string_view(self.first_name),
                opt_string_view(self.last_name),
            ));
        }
        if name.len() == 0 {
            return Option::None;
        }
        let primary_name = chars_to_string(&name);
        let source_ref = match &self.source_ref {
            Option::Some(id) => prefixed_ref("ofac", to_chars(id.as_str())),
            Option::None => prefixed_ref("ofac", name_slug(primary_name.as_str())),
        };
        let kind = match &self.sdn_type {
            Option::Some(t) => {
                let up = crate::strutil::ascii_upper_chars(&to_chars(t.as_str()));
                if chars_eq_str(&up, "INDIVIDUAL") {
                    SubjectKind::Person
                } else {
                    SubjectKind::Entity
                }
            },
            Option::None => SubjectKind::Entity,
        };
        let mut aliases: Vec<ParsedAlias> = Vec::new();
        let mut i: usize = 0;
        proof {
            assert(alias_names(aliases@) =~= str_views(self.aliases@).take(0));
        }
        while i < self.aliases.len()
            invariant
                i <= self.aliases@.len(),
                alias_names(aliases@) == str_views(self.aliases@).take(i as int),
            decreases self.aliases@.len() - i,
        {
            let ghost pre = aliases@;
            aliases.push(
                ParsedAlias {
                    name: self.aliases[i].clone(),
                    alias_type: String::from_str("aka"),
                },
            );
            i = i + 1;
            proof {
                assert(alias_names(pre).len() == pre.len());
                assert(pre.len() == i - 1);
                assert(aliases@.len() == i);
                assert(aliases@.last().name@ == self.aliases@[i - 1]@);
                assert forall|t: int| 0 <= t < i implies alias_names(aliases@)[t] == str_views(
                    self.aliases@,
                ).take(i as int)[t] by {
                    if t < i - 1 {
                        assert(aliases@[t] == pre[t]);
                        assert(alias_names(pre)[t] == pre[t].name@);
                        assert(alias_names(pre)[t] == str_views(self.aliases@).take(i - 1)[t]);
                        assert(str_views(self.aliases@).take(i - 1)[t] == str_views(
                            self.aliases@,
                        )[t]);
                    } else {
                        assert(aliases@[t] == aliases@.last());
                    }
                    assert(str_views(self.aliases@).take(i as int)[t] == str_views(
                        self.aliases@,
                    )[t]);
                    assert(str_views(self.aliases@)[t] == self.aliases@[t]@);
                }
                assert(alias_names(aliases@) =~= str_views(self.aliases@).take(i as int));
            }
        }
        proof {
            assert(str_views(self.aliases@).take(self.aliases@.len() as int) =~= str_views(
                self.aliases@,
            ));
        }
        Option::Some(
            ParsedSubject {
                source_ref,
                kind,
                primary_name,
                aliases,
                date_of_birth: self.date_of_birth,
                date_of_birth_year: self.date_of_birth_year,
                country: self.country,
                nationalities: self.nationalities,
            },
        )
    }
}

/// Joins a source prefix and a reference with an underscore.
pub fn prefixed_ref(prefix: &str, id: Vec<char>) -> (r: String)
    ensures
        r@ == prefix@ + seq!['_'] + id@,
        r@.len() > 0,
{
    let pc = to_chars(prefix);
    let mut out: Vec<char> = Vec::new();
    let mut i: usize = 0;
    while i < pc.len()
        invariant
            pc@ == prefix@,
            i <= pc@.len(),
            out@ == prefix@.take(i as int),
        decreases pc@.len() - i,
    {
        out.push(pc[i]);
        i = i + 1;
        proof {
            assert(out@ =~= prefix@.take(i as int));
        }
    }
    out.push('_');
    proof {
        assert(prefix@.take(prefix@.len() as int) =~= prefix@);
        assert(out@ =~= prefix@ + seq!['_']);
    }
    let mut j: usize = 0;
    while j < id.len()
        invariant
            j <= id@.len(),
            out@ == prefix@ + seq!['_'] + id@.take(j as int),
        decreases id@.len() - j,
    {
        out.push(id[j]);
        j = j + 1;
        proof {
            assert(out@ =~= prefix@ + seq!['_'] + id@.take(j as int));
        }
    }
    proof {
        assert(id@.take(id@.len() as int) =~= id@);
        assert(out@ =~= prefix@ + seq!['_'] + id@);
    }
    chars_to_string(&out)
}


/// The builder's mathematical shape while an entry is open.
pub ghost struct OfacB {
    pub source_ref: Option<Seq<char>>,
    pub sdn_type: Option<Seq<char>>,
    pub first: Option<Seq<char>>,
    pub last: Option<Seq<char>>,
    pub aliases: Seq<Seq<char>>,
    pub dob: Option<Seq<char>>,
    pub year: Option<int>,
    pub country: Option<Seq<char>>,
    pub nats: Seq<Seq<char>>,
}

/// The mathematical shape of the executable builder.
pub open spec fn ofac_bm(b: SubjectBuilder) -> OfacB {
    OfacB {
        source_ref: opt_string_view(b.source_ref),
        sdn_type: opt_string_view(b.sdn_type),
        first: opt_string_view(b.first_name),
        last: opt_string_view(b.last_name),
        aliases: str_views(b.aliases@),
        dob: opt_string_view(b.date_of_birth),
        year: (match b.date_of_birth_year {
            Option::Some(y) => Option::Some(y as int),
            Option::None => Option::None,
        }),
        country: opt_string_view(b.country),
        nats: str_views(b.nationalities@),
    }
}

/// A fresh, empty builder.
pub open spec fn ofac_fresh() -> OfacB {
    OfacB {
        source_ref: Option::None,
        sdn_type: Option::None,
        first: Option::None,
        last: Option::None,
        aliases: Seq::empty(),
        dob: Option::None,
        year: Option::None,
        country: Option::None,
        nats: Seq::empty(),
    }
}

/// The subject a closed entry emits: exactly when a name fragment was
/// collected, with the joined name, the uppercased-type kind and the
/// prefixed or slugged reference of [`SubjectBuilder::build`].
pub open spec fn ofac_build_m(b: OfacB) -> Option<SubjectM> {
    let joined = ofac_name(b.first, b.last);
    if joined.len() == 0 {
        Option::None
    } else {
        Option::Some(
            SubjectM {
                source_ref: "ofac"@ + seq!['_'] + (match b.source_ref {
                    Option::Some(id) => id,
                    Option::None => spec_name_slug(joined, joined.len() as int),
                }),
                kind: (match b.sdn_type {
                    Option::Some(t) => if crate::strutil::upper_seq(t) == "INDIVIDUAL"@ {
                        SubjectKind::Person
                    } else {
                        SubjectKind::Entity
                    },
                    Option::None => SubjectKind::Entity,
                }),
                primary_name: joined,
                aliases: b.aliases,
                date_of_birth: b.dob,
                date_of_birth_year: b.year,
                country: b.country,
                nationalities: b.nats,
            },
        )
    }
}

/// One text run's effect on the open entry, keyed by the enclosing
/// element.
pub open spec fn ofac_text_step(b: OfacB, cur: Seq<char>, text: Seq<char>) -> OfacB {
    if cur == "uid"@ {
        OfacB { source_ref: Option::Some(text), ..b }
    } else if cur == "sdnType"@ {
        OfacB { sdn_type: Option::Some(text), ..b }
    } else if cur == "firstName"@ {
        OfacB { first: Option::Some(text), ..b }
    } else if cur == "lastName"@ {
        OfacB { last: Option::Some(text), ..b }
    } else if cur == "aka"@ {
        if text.len() > 0 {
            OfacB { aliases: b.aliases.push(text), ..b }
        } else {
            b
        }
    } else if cur == "country"@ {
        if text.len() > 0 && b.country is None {
            OfacB {
                country: Option::Some(spec_country_code(text)),
                nats: b.nats.push(spec_country_code(text)),
                ..b
            }
        } else {
            b
        }
    } else if cur == "dateOfBirth"@ {
        let year2 = match spec_first_year(text, 0) {
            Option::Some(y) => Option::Some(y),
            Option::None => b.year,
        };
        OfacB { dob: Option::Some(text), year: year2, ..b }
    } else {
        b
    }
}

/// The full fold state: the element whose text is next, the open entry,
/// and the subjects emitted so far.
pub ghost struct OfacFold {
    pub cur: Seq<char>,
    pub builder: Option<OfacB>,
    pub out: Seq<SubjectM>,
}

/// One event's full effect on the fold.
pub open spec fn ofac_full_step(st: OfacFold, e: XmlEventM) -> OfacFold {
    match e {
        XmlEventM::Start { name, .. } => {
            if name == "sdnEntry"@ {
                OfacFold { cur: name, builder: Option::Some(ofac_fresh()), out: st.out }
            } else {
                OfacFold { cur: name, ..st }
            }
        },
        XmlEventM::End { name } => {
            if name == "sdnEntry"@ {
                OfacFold {
                    cur: Seq::empty(),
                    builder: Option::None,
                    out: match st.builder {
                        Option::Some(b) => match ofac_build_m(b) {
                            Option::Some(sm) => st.out.push(sm),
                            Option::None => st.out,
                        },
                        Option::None => st.out,
                    },
                }
            } else {
                OfacFold { cur: Seq::empty(), ..st }
            }
        },
        XmlEventM::Text { text } => {
            match st.builder {
                Option::Some(b) => OfacFold {
                    builder: Option::Some(ofac_text_step(b, st.cur, text)),
                    ..st
                },
                Option::None => st,
            }
        },
    }
}

/// The fold state after the first `i` events.
pub open spec fn ofac_fold_at(events: Seq<XmlEventM>, i: int) -> OfacFold
    decreases i,
    when 0 <= i <= events.len()
{
    if i <= 0 {
        OfacFold { cur: Seq::empty(), builder: Option::None, out: Seq::empty() }
    } else {
        ofac_full_step(ofac_fold_at(events, i - 1), events[i - 1])
    }
}

/// The subjects the OFAC SDN list text parses to.
pub open spec fn ofac_subjects_of(xml: Seq<char>) -> Seq<SubjectM> {
    ofac_fold_at(scan_at(xml, 0), scan_at(xml, 0).len() as int).out
}

/// The scan state over the event stream: inside an entry or not, the
/// element whose text is next, whether the entry collected a name, and
/// how many subjects have been emitted.
pub ghost struct OfacScan {
    pub in_entry: bool,
    pub cur: Seq<char>,
    pub has_name: bool,
    pub count: int,
}

/// One event's effect on the scan: entries open at `sdnEntry`, a
/// nonempty first or last name text marks the entry named, and a named
/// entry emits one subject at its end.
pub open spec fn ofac_step(st: OfacScan, e: XmlEventM) -> OfacScan {
    match e {
        XmlEventM::Start { name, .. } => {
            if name == "sdnEntry"@ {
                OfacScan { in_entry: true, cur: name, has_name: false, count: st.count }
            } else {
                OfacScan { cur: name, ..st }
            }
        },
        XmlEventM::End { name } => {
            if name == "sdnEntry"@ {
                OfacScan {
                    in_entry: false,
                    cur: Seq::empty(),
                    has_name: false,
                    count: st.count + if st.in_entry && st.has_name {
                        1int
                    } else {
                        0int
                    },
                }
            } else {
                OfacScan { cur: Seq::empty(), ..st }
            }
        },
        XmlEventM::Text { text } => {
            if st.in_entry && (st.cur == "firstName"@ || st.cur == "lastName"@) && text.len() > 0 {
                OfacScan { has_name: true, ..st }
            } else {
                st
            }
        },
    }
}

/// Whether the collected entry would emit: some name fragment is set
/// and nonempty.
pub open spec fn builder_named(builder: Option<SubjectBuilder>) -> bool {
    match builder {
        Option::Some(b) => !((match b.first_name {
            Option::Some(f) => f@.len() == 0,
            Option::None => true,
        }) && (match b.last_name {
            Option::Some(l) => l@.len() == 0,
            Option::None => true,
        })),
        Option::None => false,
    }
}

/// The scan state after the first `i` events.
pub open spec fn ofac_scan(events: Seq<XmlEventM>, i: int) -> OfacScan
    decreases i,
    when 0 <= i <= events.len()
{
    if i <= 0 {
        OfacScan { in_entry: false, cur: Seq::empty(), has_name: false, count: 0 }
    } else {
        ofac_step(ofac_scan(events, i - 1), events[i - 1])
    }
}

/// Parses the OFAC SDN list: every well-formed `sdnEntry` yields one
/// canonical subject; malformed entries are skipped.
pub fn parse_ofac_xml(xml: &str) -> (r: Vec<ParsedSubject>)
    ensures
        forall|i: int| 0 <= i < r@.len() ==> subject_wf(#[trigger] r@[i]),
        r@.len() == ofac_scan(scan_at(xml@, 0), scan_at(xml@, 0).len() as int).count,
        subjects_model(r@) == ofac_subjects_of(xml@),
{
    let events = scan_xml(xml);
    let r = parse_ofac_events(&events);
    proof {
        assert(events_model(events@).len() == events@.len());
    }
    r
}

/// Parses the scanned event stream of the OFAC SDN list: exactly one
/// subject per named entry, every subject well-formed.
#[verifier::rlimit(80)]
pub fn parse_ofac_events(events: &Vec<XmlEvent>) -> (r: Vec<ParsedSubject>)
    requires
        forall|q: int| 0 <= q < events@.len() ==> crate::xmlscan::event_wf(#[trigger] events@[q]),
    ensures
        forall|i: int| 0 <= i < r@.len() ==> subject_wf(#[trigger] r@[i]),
        r@.len() == ofac_scan(events_model(events@), events@.len() as int).count,
        subjects_model(r@) == ofac_fold_at(events_model(events@), events@.len() as int).out,
{
    let mut subjects: Vec<ParsedSubject> = Vec::new();
    let mut builder: Option<SubjectBuilder> = None;
    let mut current: Vec<char> = Vec::new();
    let n: usize = events.len();
    let ghost m = events_model(events@);
    let mut i: usize = 0;
    proof {
        assert(subjects_model(subjects@) =~= Seq::<SubjectM>::empty());
    }
    while i < n
        invariant
            n == events@.len(),
            i <= n,
            m == events_model(events@),
            m.len() == n,
            forall|q: int| 0 <= q < events@.len() ==> crate::xmlscan::event_wf(
                #[trigger] events@[q],
            ),
            forall|q: int| 0 <= q < subjects@.len() ==> subject_wf(#[trigger] subjects@[q]),
            match builder {
                Option::Some(b) => builder_wf(b),
                Option::None => true,
            },
            ofac_scan(m, i as int).in_entry == (builder is Some),
            ofac_scan(m, i as int).cur == current@,
            ofac_scan(m, i as int).has_name == builder_named(builder),
            ofac_scan(m, i as int).count == subjects@.len(),
            ofac_fold_at(m, i as int).cur == current@,
            match builder {
                Option::Some(b) => ofac_fold_at(m, i as int).builder == Option::Some(ofac_bm(b)),
                Option::None => ofac_fold_at(m, i as int).builder is None,
            },
            subjects_model(subjects@) == ofac_fold_at(m, i as int).out,
        decreases n - i,
    {
        proof {
            assert(m[i as int] == event_model(events@[i as int]));
            assert(ofac_scan(m, i as int + 1) == ofac_step(ofac_scan(m, i as int), m[i as int]));
            assert(ofac_fold_at(m, i as int + 1) == ofac_full_step(
                ofac_fold_at(m, i as int),
                m[i as int],
            ));
            reveal_strlit("sdnEntry");
            reveal_strlit("uid");
            reveal_strlit("sdnType");
            reveal_strlit("firstName");
            reveal_strlit("lastName");
            reveal_strlit("aka");
            reveal_strlit("country");
            reveal_strlit("dateOfBirth");
            assert(crate::xmlscan::event_wf(events@[i as int]));
            assert("uid"@.len() == 3 && "sdnType"@.len() == 7 && "firstName"@.len() == 9
                && "lastName"@.len() == 8 && "aka"@.len() == 3 && "country"@.len() == 7
                && "dateOfBirth"@.len() == 11);
        }
        match &events[i] {
            XmlEvent::Start { name, .. } => {
                current = clone_chars(name);
                if chars_eq_str(name, "sdnEntry") {
                    builder = Option::Some(SubjectBuilder::new());
                    proof {
                        assert(str_views(builder->Some_0.aliases@) =~= Seq::<Seq<char>>::empty());
                        assert(str_views(builder->Some_0.nationalities@) =~= Seq::<
                            Seq<char>,
                        >::empty());
                        assert(ofac_bm(builder->Some_0) == ofac_fresh());
                    }
                }
            },
            XmlEvent::End { name } => {
                if chars_eq_str(name, "sdnEntry") {
                    let taken = builder;
                    builder = Option::None;
                    match taken {
                        Option::Some(b) => {
                            let ghost bbm = ofac_bm(b);
                            let ghost pre_s = subjects@;
                            proof {
                                reveal_strlit("ofac");
                                reveal_strlit("INDIVIDUAL");
                            }
                            match b.build() {
                                Option::Some(s) => {
                                    proof {
                                        assert(subject_model(s).aliases == bbm.aliases);
                                        assert(subject_model(s).nationalities == bbm.nats);
                                        assert(ofac_build_m(bbm) == Option::Some(
                                            subject_model(s),
                                        ));
                                    }
                                    subjects.push(s);
                                    proof {
                                        assert(subjects_model(subjects@) =~= subjects_model(pre_s)
                                            + seq![subject_model(s)]);
                                    }
                                },
                                Option::None => {
                                    proof {
                                        assert(ofac_build_m(bbm) is None);
                                    }
                                },
                            }
                        },
                        Option::None => {},
                    }
                }
                current = Vec::new();
            },
            XmlEvent::Text { text } => {
                match &mut builder {
                    Option::Some(b) => {
                        let ghost bm0 = ofac_bm(*b);
                        let ts = chars_to_string(text);
                        if chars_eq_str(&current, "uid") {
                            b.source_ref = Option::Some(ts);
                        } else if chars_eq_str(&current, "sdnType") {
                            b.sdn_type = Option::Some(ts);
                        } else if chars_eq_str(&current, "firstName") {
                            b.first_name = Option::Some(ts);
                        } else if chars_eq_str(&current, "lastName") {
                            b.last_name = Option::Some(ts);
                        } else if chars_eq_str(&current, "aka") {
                            b.add_alias(ts.as_str());
                        } else if chars_eq_str(&current, "country") {
                            b.add_country(ts.as_str());
                        } else if chars_eq_str(&current, "dateOfBirth") {
                            match extract_year(ts.as_str()) {
                                Option::Some(y) => {
                                    b.date_of_birth_year = Option::Some(y);
                                },
                                Option::None => {},
                            }
                            b.date_of_birth = Option::Some(ts);
                        }
                        proof {
                            assert(ofac_bm(*b) == ofac_text_step(bm0, current@, text@));
                        }
                    },
                    Option::None => {},
                }
            },
        }
        i = i + 1;
    }
    subjects
}

} // verus!
