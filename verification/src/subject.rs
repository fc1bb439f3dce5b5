//! The canonical subject model that every roster normalizes into.

use vstd::prelude::*;

verus! {

#[derive(Clone, Copy, Debug, PartialEq, Eq, Structural)]
pub enum SubjectKind {
    Person,
    Entity,
}

#[derive(Clone, Debug)]
pub struct ParsedAlias {
    pub name: String,
    pub alias_type: String,
}

#[derive(Clone, Debug)]
pub struct ParsedSubject {
    pub source_ref: String,
    pub kind: SubjectKind,
    pub primary_name: String,
    pub aliases: Vec<ParsedAlias>,
    pub date_of_birth: Option<String>,
    pub date_of_birth_year: Option<i32>,
    pub country: Option<String>,
    pub nationalities: Vec<String>,
}

/// The invariants of a canonical subject: a nonempty primary name, a
/// nonempty source reference, and a plausible year of birth when present.
pub open spec fn subject_wf(s: ParsedSubject) -> bool {
    &&& s.primary_name@.len() > 0
    &&& s.source_ref@.len() > 0
    &&& match s.date_of_birth_year {
        Option::Some(y) => 1900 <= y < 2100,
        Option::None => true,
    }
}

/// The kind rendered the way the store and the index carry it.
pub fn kind_str(kind: SubjectKind) -> (r: &'static str)
    ensures
        kind == SubjectKind::Person ==> r@ == "person"@,
        kind == SubjectKind::Entity ==> r@ == "entity"@,
{
    match kind {
        SubjectKind::Person => "person",
        SubjectKind::Entity => "entity",
    }
}

} // verus!
