//! Extraction of United States Congress members from the member listing
//! markup.

use vstd::prelude::*;
use crate::subject::{ParsedSubject, SubjectKind, subject_wf};
use crate::strutil::{to_chars, chars_to_string, str_equals};
use crate::parser_eu::name_slug;
use crate::pep_eu_commission::{split_lines, str_contains};

verus! {

/// The member feed endpoint answers structured data this library does
/// not consume; the markup pass below carries the roster instead.
pub fn parse_congress_api(json: &str, chamber: &str) -> (r: Vec<ParsedSubject>)
    ensures
        r@.len() == 0,
{
    Vec::new()
}

/// A name out of one markup line: the text between the first closing and
/// the next opening bracket, kept when it is a spaced phrase.
pub fn extract_member_name(line: &Vec<char>) -> (r: Option<String>)
    ensures
        match r {
            Option::Some(s) => s@.len() > 5,
            Option::None => true,
        },
{
    let n: usize = line.len();
    let mut i: usize = 0;
    while i < n && line[i] != '>'
        invariant
            n == line@.len(),
            i <= n,
        decreases n - i,
    {
        i = i + 1;
    }
    if i >= n {
        return Option::None;
    }
    let mut out: Vec<char> = Vec::new();
    let mut j: usize = i + 1;
    while j < n && line[j] != '<'
        invariant
            n == line@.len(),
            j <= n,
        decreases n - j,
    {
        out.push(line[j]);
        j = j + 1;
    }
    let trimmed = crate::xmlscan::trim_chars(&out);
    let mut has_space: bool = false;
    let mut k: usize = 0;
    while k < trimmed.len()
        invariant
            k <= trimmed@.len(),
        decreases trimmed@.len() - k,
    {
        if trimmed[k] == ' ' {
            has_space = true;
        }
        k = k + 1;
    }
    if trimmed.len() > 5 && has_space {
        Option::Some(chars_to_string(&trimmed))
    } else {
        Option::None
    }
}

/// One member entry for a chamber.
fn member_subject(name: String, chamber: &str) -> (r: Option<ParsedSubject>)
    ensures
        match r {
            Option::Some(s) => subject_wf(s),
            Option::None => true,
        },
{
    if name.as_str().unicode_len() == 0 {
        return Option::None;
    }
    proof {
        reveal_strlit("pep_us_");
    }
    let mut rc: Vec<char> = to_chars("pep_us_");
    let cc = to_chars(chamber);
    let mut i: usize = 0;
    while i < cc.len()
        invariant
            i <= cc@.len(),
            rc@.len() >= 1,
        decreases cc@.len() - i,
    {
        rc.push(cc[i]);
        i = i + 1;
    }
    rc.push('_');
    let slug = name_slug(name.as_str());
    let mut j: usize = 0;
    while j < slug.len()
        invariant
            j <= slug@.len(),
            rc@.len() >= 1,
        decreases slug@.len() - j,
    {
        rc.push(slug[j]);
        j = j + 1;
    }
    let mut nats: Vec<String> = Vec::new();
    nats.push(chars_to_string(&to_chars("US")));
    Option::Some(
        ParsedSubject {
            source_ref: chars_to_string(&rc),
            kind: SubjectKind::Person,
            primary_name: name,
            aliases: Vec::new(),
            date_of_birth: Option::None,
            date_of_birth_year: Option::None,
            country: Option::Some(chars_to_string(&to_chars("US"))),
            nationalities: nats,
        },
    )
}

/// Scrapes member names out of the listing markup: lines naming members,
/// representatives or senators carry the name in their text content.
pub fn parse_congress_html(html: &str, chamber: &str) -> (r: Vec<ParsedSubject>)
    ensures
        forall|i: int| 0 <= i < r@.len() ==> subject_wf(#[trigger] r@[i]),
{
    let lines = split_lines(html);
    let mut members: Vec<ParsedSubject> = Vec::new();
    let mut li: usize = 0;
    while li < lines.len()
        invariant
            li <= lines@.len(),
            forall|q: int| 0 <= q < members@.len() ==> subject_wf(#[trigger] members@[q]),
        decreases lines@.len() - li,
    {
        let line = &lines[li];
        if str_contains(line, "member") || str_contains(line, "representative") || str_contains(
            line,
            "senator",
        ) {
            match extract_member_name(line) {
                Option::Some(nm) => {
                    // Keep the first occurrence of each name.
                    let mut dup: bool = false;
                    let mut d: usize = 0;
                    while d < members.len()
                        invariant
                            d <= members@.len(),
                            forall|q: int|
                                0 <= q < members@.len() ==> subject_wf(#[trigger] members@[q]),
                        decreases members@.len() - d,
                    {
                        if str_equals(members[d].primary_name.as_str(), nm.as_str()) {
                            dup = true;
                        }
                        d = d + 1;
                    }
                    if !dup {
                        match member_subject(nm, chamber) {
                            Option::Some(s) => {
                                members.push(s);
                            },
                            Option::None => {},
                        }
                    }
                },
                Option::None => {},
            }
        }
        li = li + 1;
    }
    members
}

} // verus!
