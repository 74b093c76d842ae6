//! The two repository collections of the upstream graph, and the skills that
//! they make together.
use vstd::prelude::*;
use crate::aggregate::{aggregate_records, aggregate_spec};
use crate::extract::{SkillSource, extract_languages, present_repos, repos_records};
use crate::model::{RepositoryRecord, Skill, Triple, record_views, skill_views};

verus! {

/// The repositories a person owns.
#[derive(Clone, Debug)]
pub struct OwnedRepositories {
    pub nodes: Option<Vec<Option<RepositoryRecord>>>,
}

/// The repositories a person has contributed to.
#[derive(Clone, Debug)]
pub struct ContributedRepositories {
    pub nodes: Option<Vec<Option<RepositoryRecord>>>,
}

impl SkillSource for OwnedRepositories {
    open spec fn repos(&self) -> Seq<Option<RepositoryRecord>> {
        present_repos(self.nodes)
    }

    fn repository_nodes(&self) -> (r: &Option<Vec<Option<RepositoryRecord>>>) {
        &self.nodes
    }
}

impl SkillSource for ContributedRepositories {
    open spec fn repos(&self) -> Seq<Option<RepositoryRecord>> {
        present_repos(self.nodes)
    }

    fn repository_nodes(&self) -> (r: &Option<Vec<Option<RepositoryRecord>>>) {
        &self.nodes
    }
}

/// What the upstream source reports of one person.
#[derive(Clone, Debug)]
pub struct RepositoryGraph {
    pub repositories: OwnedRepositories,
    pub repositories_contributed_to: ContributedRepositories,
}

/// The records of the whole graph: owned repositories first, then those
/// contributed to, the same exclusions applying to both.
pub open spec fn graph_records(g: RepositoryGraph, exclude: Seq<String>) -> Seq<Triple> {
    repos_records(g.repositories.repos(), exclude) + repos_records(
        g.repositories_contributed_to.repos(),
        exclude,
    )
}

/// The skills of a graph, one per language name, in order of first appearance.
pub open spec fn graph_skills(g: RepositoryGraph, exclude: Seq<String>) -> Seq<Triple> {
    aggregate_spec(graph_records(g, exclude))
}

/// The skills of every non-excluded repository of `data`, owned and
/// contributed to alike: one per language name, with the summed size and the
/// color first seen.
pub fn extract_skills(data: &RepositoryGraph, exclude: &Vec<String>) -> (r: Vec<Skill>)
    ensures
        skill_views(r@) == graph_skills(*data, exclude@),
{
    let mut records = extract_languages(&data.repositories, exclude);
    let mut contributions = extract_languages(&data.repositories_contributed_to, exclude);
    let ghost a = records@;
    let ghost b = contributions@;
    records.append(&mut contributions);
    assert(record_views(records@) =~= record_views(a) + record_views(b));
    aggregate_records(&records)
}

} // verus!
