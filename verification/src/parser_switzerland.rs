//! Parser for the Swiss sanctions roster: the same name-and-country shape
//! as the Canadian list, with `Person` elements for people.

use vstd::prelude::*;
use crate::subject::{ParsedSubject, subject_wf};
use crate::parser_canada::parse_name_country;

verus! {

/// Parses the Swiss list: every named `Entity` or `Person` yields one
/// canonical subject, keyed by a slug of its name.
pub fn parse_switzerland_sanctions(xml: &str) -> (r: Vec<ParsedSubject>)
    ensures
        forall|i: int| 0 <= i < r@.len() ==> subject_wf(#[trigger] r@[i]),
{
    parse_name_country(xml, "switzerland", "Person")
}

} // verus!
