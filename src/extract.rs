//! Language record extraction: flattens collections of optional repositories
//! into (name, size, color) records, skipping excluded repositories and
//! treating every absent field as contributing nothing.
use vstd::prelude::*;
use crate::model::{
    LanguageEdge, LanguageRecord, RepositoryRecord, Triple, default_color, fallback_color,
    record_views,
};

verus! {

/// Whether `name` is one of the excluded repository names (exact match).
pub open spec fn excluded(exclude: Seq<String>, name: Seq<char>) -> bool {
    exists|i: int| 0 <= i < exclude.len() && #[trigger] exclude[i]@ == name
}

/// The record of one present edge; an edge without color takes the fallback.
pub open spec fn edge_record(e: LanguageEdge) -> Triple {
    (
        e.node.name@,
        e.size,
        match e.node.color {
            Some(c) => c@,
            None => fallback_color(),
        },
    )
}

/// The records of a sequence of edges, absent edges dropped.
pub open spec fn edge_records(edges: Seq<Option<LanguageEdge>>) -> Seq<Triple>
    decreases edges.len(),
{
    if edges.len() == 0 {
        seq![]
    } else {
        let prev = edge_records(edges.drop_last());
        match edges.last() {
            Some(e) => prev.push(edge_record(e)),
            None => prev,
        }
    }
}

/// The records of one repository; an absent breakdown or edge list gives none.
pub open spec fn repo_records(r: RepositoryRecord) -> Seq<Triple> {
    match r.languages {
        Some(b) => match b.edges {
            Some(es) => edge_records(es@),
            None => seq![],
        },
        None => seq![],
    }
}

/// The records of a sequence of repositories, in order, with absent and
/// excluded repositories dropped.
pub open spec fn repos_records(repos: Seq<Option<RepositoryRecord>>, exclude: Seq<String>) -> Seq<
    Triple,
>
    decreases repos.len(),
{
    if repos.len() == 0 {
        seq![]
    } else {
        let prev = repos_records(repos.drop_last(), exclude);
        match repos.last() {
            Some(r) => if excluded(exclude, r.name@) {
                prev
            } else {
                prev + repo_records(r)
            },
            None => prev,
        }
    }
}

/// The repositories of an optional collection; an absent one is empty.
pub open spec fn present_repos(nodes: Option<Vec<Option<RepositoryRecord>>>) -> Seq<
    Option<RepositoryRecord>,
> {
    match nodes {
        Some(v) => v@,
        None => seq![],
    }
}

/// Anything that yields an optional sequence of optional repositories.
pub trait SkillSource {
    /// The repositories this source yields, absent collection as empty.
    spec fn repos(&self) -> Seq<Option<RepositoryRecord>>;

    fn repository_nodes(&self) -> (r: &Option<Vec<Option<RepositoryRecord>>>)
        ensures
            present_repos(*r) == self.repos(),
    ;
}

/// Whether `name` is among `exclude`.
pub fn is_excluded(exclude: &Vec<String>, name: &String) -> (r: bool)
    ensures
        r == excluded(exclude@, name@),
{
    let mut i: usize = 0;
    while i < exclude.len()
        invariant
            i <= exclude@.len(),
            forall|k: int| 0 <= k < i ==> exclude@[k]@ != name@,
        decreases exclude@.len() - i,
    {
        if exclude[i] == *name {
            return true;
        }
        i = i + 1;
    }
    false
}

/// The record of one edge.
pub fn record_of_edge(e: &LanguageEdge) -> (r: LanguageRecord)
    ensures
        r@ == edge_record(*e),
{
    let color = match &e.node.color {
        Some(c) => c.clone(),
        None => default_color(),
    };
    LanguageRecord { name: e.node.name.clone(), size: e.size, color }
}

/// Appends the records of one repository's breakdown to `out`.
pub fn push_repo_records(out: &mut Vec<LanguageRecord>, repo: &RepositoryRecord)
    ensures
        record_views(final(out)@) == record_views(old(out)@) + repo_records(*repo),
{
    let edges = match &repo.languages {
        Some(b) => match &b.edges {
            Some(es) => es,
            None => {
                assert(record_views(out@) =~= record_views(out@) + repo_records(*repo));
                return;
            },
        },
        None => {
            assert(record_views(out@) =~= record_views(out@) + repo_records(*repo));
            return;
        },
    };
    let ghost start = record_views(out@);
    let mut i: usize = 0;
    while i < edges.len()
        invariant
            i <= edges@.len(),
            repo_records(*repo) == edge_records(edges@),
            record_views(out@) == start + edge_records(edges@.subrange(0, i as int)),
        decreases edges@.len() - i,
    {
        assert(edges@.subrange(0, i + 1).drop_last() =~= edges@.subrange(0, i as int));
        let ghost before = out@;
        match &edges[i] {
            Some(e) => {
                let rec = record_of_edge(e);
                out.push(rec);
                assert(record_views(out@) =~= record_views(before).push(rec@));
            },
            None => {},
        }
        assert(edges@.subrange(0, i + 1).last() == edges@[i as int]);
        assert(record_views(out@) =~= start + edge_records(edges@.subrange(0, i + 1)));
        i = i + 1;
    }
    assert(edges@.subrange(0, edges@.len() as int) =~= edges@);
}

/// The records of every present, non-excluded repository of `source`, in order.
pub fn extract_languages<S: SkillSource>(source: &S, exclude: &Vec<String>) -> (r: Vec<
    LanguageRecord,
>)
    ensures
        record_views(r@) == repos_records(source.repos(), exclude@),
{
    let mut out: Vec<LanguageRecord> = Vec::new();
    let nodes = match source.repository_nodes() {
        Some(v) => v,
        None => {
            assert(record_views(out@) =~= seq![]);
            return out;
        },
    };
    let mut i: usize = 0;
    while i < nodes.len()
        invariant
            i <= nodes@.len(),
            source.repos() == nodes@,
            record_views(out@) == repos_records(nodes@.subrange(0, i as int), exclude@),
        decreases nodes@.len() - i,
    {
        assert(nodes@.subrange(0, i + 1).drop_last() =~= nodes@.subrange(0, i as int));
        match &nodes[i] {
            Some(repo) => {
                if !is_excluded(exclude, &repo.name) {
                    push_repo_records(&mut out, repo);
                }
            },
            None => {},
        }
        i = i + 1;
    }
    assert(nodes@.subrange(0, nodes@.len() as int) =~= nodes@);
    out
}

} // verus!
