//! The repository graph as the upstream source reports it, and the records
//! and skills derived from it.
use vstd::prelude::*;

verus! {

/// A language as the upstream graph names it, with its display color if known.
#[derive(Clone, Debug)]
pub struct LanguageNode {
    pub name: String,
    pub color: Option<String>,
}

/// Bytes of one language in one repository.
#[derive(Clone, Debug)]
pub struct LanguageEdge {
    pub node: LanguageNode,
    pub size: u64,
}

/// The language breakdown of a repository; any entry may be absent.
#[derive(Clone, Debug)]
pub struct LanguageBreakdown {
    pub edges: Option<Vec<Option<LanguageEdge>>>,
}

/// One repository: its name and, if reported, its language breakdown.
#[derive(Clone, Debug)]
pub struct RepositoryRecord {
    pub name: String,
    pub languages: Option<LanguageBreakdown>,
}

/// A flat (language name, byte size, color) observation.
#[derive(Clone, Debug)]
pub struct LanguageRecord {
    pub name: String,
    pub size: u64,
    pub color: String,
}

/// An aggregated language: its name, cumulative byte count and display color.
#[derive(Clone, Debug)]
pub struct Skill {
    pub name: String,
    pub code_size: u64,
    pub color: String,
}

/// The mathematical value of a record or a skill: name, size, color.
pub type Triple = (Seq<char>, u64, Seq<char>);

impl View for LanguageRecord {
    type V = Triple;

    open spec fn view(&self) -> Triple {
        (self.name@, self.size, self.color@)
    }
}

impl View for Skill {
    type V = Triple;

    open spec fn view(&self) -> Triple {
        (self.name@, self.code_size, self.color@)
    }
}

pub open spec fn record_views(s: Seq<LanguageRecord>) -> Seq<Triple> {
    s.map_values(|r: LanguageRecord| r@)
}

pub open spec fn skill_views(s: Seq<Skill>) -> Seq<Triple> {
    s.map_values(|k: Skill| k@)
}

/// The color given to a language whose edge reports none: `#000`.
pub open spec fn fallback_color() -> Seq<char> {
    seq!['#', '0', '0', '0']
}

/// A fresh copy of the fallback color.
pub fn default_color() -> (r: String)
    ensures
        r@ == fallback_color(),
{
    let s = String::from_str("#000");
    proof {
        reveal_strlit("#000");
    }
    assert(s@ =~= fallback_color());
    s
}

} // verus!
