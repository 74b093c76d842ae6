//! Properties of the aggregation that hold for every input.
use vstd::prelude::*;
use crate::aggregate::{
    aggregate_spec, first_color, has_name, lemma_aggregate_names_unique, lemma_distinct_names,
    names_unique, distinct_names, saturated, size_total,
};
use crate::extract::{SkillSource, edge_record, excluded, repos_records};
use crate::graph::{RepositoryGraph, graph_records, graph_skills};
use crate::model::{LanguageEdge, RepositoryRecord, Triple, fallback_color};

verus! {

pub proof fn lemma_repos_records_concat(
    a: Seq<Option<RepositoryRecord>>,
    b: Seq<Option<RepositoryRecord>>,
    exclude: Seq<String>,
)
    ensures
        repos_records(a + b, exclude) == repos_records(a, exclude) + repos_records(b, exclude),
    decreases b.len(),
{
    if b.len() == 0 {
        assert(a + b =~= a);
        assert(repos_records(a, exclude) + repos_records(b, exclude) =~= repos_records(a, exclude));
    } else {
        assert((a + b).drop_last() =~= a + b.drop_last());
        assert((a + b).last() == b.last());
        lemma_repos_records_concat(a, b.drop_last(), exclude);
        let ra = repos_records(a, exclude);
        let rb = repos_records(b.drop_last(), exclude);
        match b.last() {
            Some(r) => {
                if !excluded(exclude, r.name@) {
                    assert(ra + rb + crate::extract::repo_records(r) =~= ra + (rb
                        + crate::extract::repo_records(r)));
                }
            },
            None => {},
        }
    }
}

pub proof fn lemma_has_name_concat(a: Seq<Triple>, b: Seq<Triple>, name: Seq<char>)
    ensures
        has_name(a + b, name) == (has_name(a, name) || has_name(b, name)),
{
    let s = a + b;
    if has_name(s, name) {
        let i = choose|i: int| 0 <= i < s.len() && #[trigger] s[i].0 == name;
        if i < a.len() {
            assert(a[i].0 == name);
        } else {
            assert(b[i - a.len()].0 == name);
        }
    }
    if has_name(a, name) {
        let i = choose|i: int| 0 <= i < a.len() && #[trigger] a[i].0 == name;
        assert(s[i].0 == name);
    }
    if has_name(b, name) {
        let i = choose|i: int| 0 <= i < b.len() && #[trigger] b[i].0 == name;
        assert(s[a.len() + i].0 == name);
    }
}

pub proof fn lemma_size_total_concat(a: Seq<Triple>, b: Seq<Triple>, name: Seq<char>)
    ensures
        size_total(a + b, name) == size_total(a, name) + size_total(b, name),
    decreases b.len(),
{
    if b.len() == 0 {
        assert(a + b =~= a);
    } else {
        assert((a + b).drop_last() =~= a + b.drop_last());
        assert((a + b).last() == b.last());
        lemma_size_total_concat(a, b.drop_last(), name);
    }
}

/// Once a name has been seen, later records never change its color.
pub proof fn first_color_is_kept(earlier: Seq<Triple>, later: Seq<Triple>, name: Seq<char>)
    requires
        has_name(earlier, name),
    ensures
        first_color(earlier + later, name) == first_color(earlier, name),
    decreases later.len(),
{
    if later.len() == 0 {
        assert(earlier + later =~= earlier);
    } else {
        assert((earlier + later).drop_last() =~= earlier + later.drop_last());
        lemma_has_name_concat(earlier, later.drop_last(), name);
        first_color_is_kept(earlier, later.drop_last(), name);
    }
}

/// The skills of any graph carry pairwise distinct names.
pub proof fn skill_names_unique(g: RepositoryGraph, exclude: Seq<String>)
    ensures
        names_unique(graph_skills(g, exclude)),
{
    lemma_aggregate_names_unique(graph_records(g, exclude));
}

/// Each language seen in a non-excluded repository of either collection has
/// exactly one skill, whose code size is the sum of that language's sizes in
/// the owned repositories plus those in the contributed-to ones (capped at
/// `u64::MAX`); no other name has a skill.
pub proof fn code_size_is_total(g: RepositoryGraph, exclude: Seq<String>, name: Seq<char>)
    ensures
        has_name(graph_records(g, exclude), name) <==> exists|i: int|
            0 <= i < graph_skills(g, exclude).len() && #[trigger] graph_skills(g, exclude)[i].0
                == name,
        forall|i: int|
            0 <= i < graph_skills(g, exclude).len() && #[trigger] graph_skills(g, exclude)[i].0
                == name ==> graph_skills(g, exclude)[i].1 == saturated(
                size_total(repos_records(g.repositories.repos(), exclude), name) + size_total(
                    repos_records(g.repositories_contributed_to.repos(), exclude),
                    name,
                ),
            ),
{
    let recs = graph_records(g, exclude);
    let names = distinct_names(recs);
    let skills = graph_skills(g, exclude);
    lemma_distinct_names(recs);
    lemma_size_total_concat(
        repos_records(g.repositories.repos(), exclude),
        repos_records(g.repositories_contributed_to.repos(), exclude),
        name,
    );
    if has_name(recs, name) {
        let k = choose|k: int| 0 <= k < names.len() && names[k] == name;
        assert(skills[k].0 == name);
    }
    assert forall|i: int| 0 <= i < skills.len() && #[trigger] skills[i].0 == name implies has_name(
        recs,
        name,
    ) by {
        assert(names[i] == name);
        assert(names.contains(name));
    }
}

/// A repository whose name is excluded contributes nothing, wherever it
/// stands among the repositories and whatever languages it reports.
pub proof fn excluded_repository_contributes_nothing(
    before: Seq<Option<RepositoryRecord>>,
    repo: RepositoryRecord,
    after: Seq<Option<RepositoryRecord>>,
    exclude: Seq<String>,
)
    requires
        excluded(exclude, repo.name@),
    ensures
        repos_records(before + seq![Some(repo)] + after, exclude) == repos_records(
            before + after,
            exclude,
        ),
{
    let one = seq![Some(repo)];
    lemma_repos_records_concat(before + one, after, exclude);
    lemma_repos_records_concat(before, one, exclude);
    lemma_repos_records_concat(before, after, exclude);
    assert(one.drop_last() =~= Seq::<Option<RepositoryRecord>>::empty());
    assert(one.last() == Some(repo));
    assert(repos_records(one.drop_last(), exclude) =~= seq![]);
    assert(repos_records(one, exclude) =~= seq![]);
    assert(repos_records(before, exclude) + repos_records(one, exclude) =~= repos_records(
        before,
        exclude,
    ));
}

/// Two graphs that differ only by an excluded repository, in either
/// collection, have the same skills.
pub proof fn excluded_repository_leaves_skills_unchanged(
    g1: RepositoryGraph,
    g2: RepositoryGraph,
    before: Seq<Option<RepositoryRecord>>,
    repo: RepositoryRecord,
    after: Seq<Option<RepositoryRecord>>,
    exclude: Seq<String>,
)
    requires
        excluded(exclude, repo.name@),
        ({
            &&& g1.repositories.repos() == before + seq![Some(repo)] + after
            &&& g2.repositories.repos() == before + after
            &&& g1.repositories_contributed_to.repos() == g2.repositories_contributed_to.repos()
        }) || ({
            &&& g1.repositories_contributed_to.repos() == before + seq![Some(repo)] + after
            &&& g2.repositories_contributed_to.repos() == before + after
            &&& g1.repositories.repos() == g2.repositories.repos()
        }),
    ensures
        graph_skills(g1, exclude) == graph_skills(g2, exclude),
{
    excluded_repository_contributes_nothing(before, repo, after, exclude);
    assert(graph_records(g1, exclude) == graph_records(g2, exclude));
}

/// An edge without a color is recorded with the fallback color.
pub proof fn uncolored_edge_takes_fallback(e: LanguageEdge)
    requires
        e.node.color is None,
    ensures
        edge_record(e).2 == fallback_color(),
{
}

/// A language seen among the owned repositories keeps the color found
/// there first, whatever the contributed-to repositories report.
pub proof fn owned_color_wins(g: RepositoryGraph, exclude: Seq<String>, name: Seq<char>)
    requires
        has_name(repos_records(g.repositories.repos(), exclude), name),
    ensures
        first_color(graph_records(g, exclude), name) == first_color(
            repos_records(g.repositories.repos(), exclude),
            name,
        ),
{
    first_color_is_kept(
        repos_records(g.repositories.repos(), exclude),
        repos_records(g.repositories_contributed_to.repos(), exclude),
        name,
    );
}

/// With both collections absent there are no skills.
pub proof fn absent_collections_give_no_skills(g: RepositoryGraph, exclude: Seq<String>)
    requires
        g.repositories.nodes is None,
        g.repositories_contributed_to.nodes is None,
    ensures
        graph_skills(g, exclude) == Seq::<Triple>::empty(),
{
    let recs = graph_records(g, exclude);
    assert(recs =~= seq![]);
    assert(distinct_names(recs) =~= seq![]);
    assert(aggregate_spec(recs) =~= seq![]);
}

} // verus!
