//! Skill aggregation: folds records into one skill per language name, summing
//! sizes and keeping the color of the first record seen for that name.
use vstd::prelude::*;
use crate::model::{LanguageRecord, Skill, Triple, fallback_color, record_views, skill_views};

verus! {

/// Whether some record carries `name`.
pub open spec fn has_name(recs: Seq<Triple>, name: Seq<char>) -> bool {
    exists|i: int| 0 <= i < recs.len() && #[trigger] recs[i].0 == name
}

/// The sum of the sizes of the records that carry `name`.
pub open spec fn size_total(recs: Seq<Triple>, name: Seq<char>) -> int
    decreases recs.len(),
{
    if recs.len() == 0 {
        0
    } else {
        size_total(recs.drop_last(), name) + if recs.last().0 == name {
            recs.last().1 as int
        } else {
            0
        }
    }
}

/// The color of the first record that carries `name` (the fallback if none does).
pub open spec fn first_color(recs: Seq<Triple>, name: Seq<char>) -> Seq<char>
    decreases recs.len(),
{
    if recs.len() == 0 {
        fallback_color()
    } else if has_name(recs.drop_last(), name) {
        first_color(recs.drop_last(), name)
    } else if recs.last().0 == name {
        recs.last().2
    } else {
        fallback_color()
    }
}

/// The names carried by the records, each once, in order of first appearance.
pub open spec fn distinct_names(recs: Seq<Triple>) -> Seq<Seq<char>>
    decreases recs.len(),
{
    if recs.len() == 0 {
        seq![]
    } else {
        let prev = distinct_names(recs.drop_last());
        if prev.contains(recs.last().0) {
            prev
        } else {
            prev.push(recs.last().0)
        }
    }
}

/// `n` as a `u64`, capped at `u64::MAX`.
pub open spec fn saturated(n: int) -> u64 {
    if n > u64::MAX {
        u64::MAX
    } else if n < 0 {
        0
    } else {
        n as u64
    }
}

/// The skill that the records make of `name`.
pub open spec fn skill_for(recs: Seq<Triple>, name: Seq<char>) -> Triple {
    (name, saturated(size_total(recs, name)), first_color(recs, name))
}

/// One skill per distinct name, in order of first appearance.
pub open spec fn aggregate_spec(recs: Seq<Triple>) -> Seq<Triple> {
    distinct_names(recs).map_values(|n: Seq<char>| skill_for(recs, n))
}

/// Whether no two skills share a name.
pub open spec fn names_unique(skills: Seq<Triple>) -> bool {
    forall|i: int, j: int|
        0 <= i < skills.len() && 0 <= j < skills.len() && i != j ==> #[trigger] skills[i].0
            != #[trigger] skills[j].0
}

pub proof fn lemma_size_total_nonneg(recs: Seq<Triple>, name: Seq<char>)
    ensures
        size_total(recs, name) >= 0,
    decreases recs.len(),
{
    if recs.len() > 0 {
        lemma_size_total_nonneg(recs.drop_last(), name);
    }
}

/// The distinct names are exactly the names carried, with no repeats.
pub proof fn lemma_distinct_names(recs: Seq<Triple>)
    ensures
        distinct_names(recs).no_duplicates(),
        forall|n: Seq<char>| distinct_names(recs).contains(n) <==> has_name(recs, n),
    decreases recs.len(),
{
    if recs.len() > 0 {
        let prev = recs.drop_last();
        lemma_distinct_names(prev);
        assert forall|n: Seq<char>| distinct_names(recs).contains(n) <==> has_name(recs, n) by {
            if has_name(recs, n) {
                let i = choose|i: int| 0 <= i < recs.len() && #[trigger] recs[i].0 == n;
                if i < prev.len() {
                    assert(prev[i].0 == n);
                }
            }
            if has_name(prev, n) {
                let i = choose|i: int| 0 <= i < prev.len() && #[trigger] prev[i].0 == n;
                assert(recs[i].0 == n);
            }
            if recs.last().0 == n {
                assert(recs[recs.len() - 1].0 == n);
            }
            let dp = distinct_names(prev);
            if !dp.contains(recs.last().0) {
                let d = dp.push(recs.last().0);
                assert(d[dp.len() as int] == recs.last().0);
                if dp.contains(n) {
                    let k = choose|k: int| 0 <= k < dp.len() && dp[k] == n;
                    assert(d[k] == n);
                }
                if d.contains(n) {
                    let k = choose|k: int| 0 <= k < d.len() && d[k] == n;
                    if k < dp.len() {
                        assert(dp[k] == n);
                    }
                }
            }
        }
    }
}

/// Appending one record: how names, sums and first colors change.
pub proof fn lemma_push_record(recs: Seq<Triple>, r: Triple, n: Seq<char>)
    ensures
        has_name(recs.push(r), n) == (has_name(recs, n) || r.0 == n),
        size_total(recs.push(r), n) == size_total(recs, n) + if r.0 == n {
            r.1 as int
        } else {
            0
        },
        first_color(recs.push(r), n) == if has_name(recs, n) {
            first_color(recs, n)
        } else if r.0 == n {
            r.2
        } else {
            fallback_color()
        },
{
    let s = recs.push(r);
    assert(s.drop_last() =~= recs);
    if has_name(s, n) {
        let i = choose|i: int| 0 <= i < s.len() && #[trigger] s[i].0 == n;
        if i < recs.len() {
            assert(recs[i].0 == n);
        }
    }
    if has_name(recs, n) {
        let i = choose|i: int| 0 <= i < recs.len() && #[trigger] recs[i].0 == n;
        assert(s[i].0 == n);
    }
    if r.0 == n {
        assert(s[recs.len() as int].0 == n);
    }
}

/// The index of the skill named `name`, if any.
pub fn find_skill(skills: &Vec<Skill>, name: &String) -> (r: Option<usize>)
    ensures
        match r {
            Some(j) => j < skills@.len() && skills@[j as int]@.0 == name@,
            None => forall|k: int| 0 <= k < skills@.len() ==> skills@[k]@.0 != name@,
        },
{
    let mut i: usize = 0;
    while i < skills.len()
        invariant
            i <= skills@.len(),
            forall|k: int| 0 <= k < i ==> skills@[k]@.0 != name@,
        decreases skills@.len() - i,
    {
        if skills[i].name == *name {
            return Some(i);
        }
        i = i + 1;
    }
    None
}

/// Folds `records` into one skill per name, in order of first appearance: each
/// skill sums the sizes of its records (capped at `u64::MAX`) and keeps the
/// color of its first record.
pub fn aggregate_records(records: &Vec<LanguageRecord>) -> (r: Vec<Skill>)
    ensures
        skill_views(r@) == aggregate_spec(record_views(records@)),
{
    let ghost recs = record_views(records@);
    let mut skills: Vec<Skill> = Vec::new();
    let mut i: usize = 0;
    assert(skill_views(skills@) =~= aggregate_spec(recs.subrange(0, 0)));
    while i < records.len()
        invariant
            i <= records@.len(),
            recs == record_views(records@),
            skill_views(skills@) == aggregate_spec(recs.subrange(0, i as int)),
        decreases records@.len() - i,
    {
        let ghost pre = recs.subrange(0, i as int);
        let ghost post = recs.subrange(0, i + 1);
        let ghost names = distinct_names(pre);
        let ghost before = skills@;
        proof {
            assert(post =~= pre.push(recs[i as int]));
            assert(post.drop_last() =~= pre);
            lemma_distinct_names(pre);
            assert(skill_views(before) == aggregate_spec(pre));
            assert(skill_views(before).len() == before.len());
            assert(aggregate_spec(pre).len() == names.len());
            assert forall|k: int| 0 <= k < names.len() implies #[trigger] before[k]@ == skill_for(
                pre,
                names[k],
            ) by {
                assert(skill_views(before)[k] == before[k]@);
                assert(aggregate_spec(pre)[k] == skill_for(pre, names[k]));
            }
        }
        let rec = &records[i];
        assert(rec@ == recs[i as int]);
        match find_skill(&skills, &rec.name) {
            Some(j) => {
                let old_skill = skills.remove(j);
                let updated = Skill {
                    name: old_skill.name,
                    code_size: old_skill.code_size.saturating_add(rec.size),
                    color: old_skill.color,
                };
                skills.insert(j, updated);
                proof {
                    assert(before[j as int]@ == skill_for(pre, names[j as int]));
                    assert(names[j as int] == rec@.0);
                    assert(names.contains(rec@.0));
                    assert(distinct_names(post) == names);
                    assert forall|k: int| 0 <= k < names.len() implies #[trigger] skill_views(
                        skills@,
                    )[k] == skill_for(post, names[k]) by {
                        lemma_push_record(pre, rec@, names[k]);
                        lemma_size_total_nonneg(pre, names[k]);
                        assert(has_name(pre, names[k]));
                        assert(before[k]@ == skill_for(pre, names[k]));
                        if k != j {
                            assert(names[k] != names[j as int]);
                        }
                    }
                    assert(skill_views(skills@) =~= aggregate_spec(post));
                }
            },
            None => {
                let name = rec.name.clone();
                let color = rec.color.clone();
                let fresh = Skill { name, code_size: rec.size, color };
                skills.push(fresh);
                proof {
                    assert(!names.contains(rec@.0)) by {
                        if names.contains(rec@.0) {
                            let k = choose|k: int| 0 <= k < names.len() && names[k] == rec@.0;
                            assert(before[k]@ == skill_for(pre, names[k]));
                        }
                    }
                    assert(distinct_names(post) == names.push(rec@.0));
                    assert forall|k: int| 0 <= k < names.len() + 1 implies #[trigger] skill_views(
                        skills@,
                    )[k] == skill_for(post, names.push(rec@.0)[k]) by {
                        let n = names.push(rec@.0)[k];
                        lemma_push_record(pre, rec@, n);
                        if k < names.len() {
                            assert(has_name(pre, n));
                            assert(before[k]@ == skill_for(pre, n));
                            lemma_size_total_nonneg(pre, n);
                        } else {
                            assert(!has_name(pre, n));
                            lemma_size_total_nonneg(pre, n);
                            assert(size_total(pre, n) == 0) by {
                                lemma_absent_name_sums_to_zero(pre, n);
                            }
                        }
                    }
                    assert(skill_views(skills@) =~= aggregate_spec(post));
                }
            },
        }
        i = i + 1;
    }
    assert(recs.subrange(0, records@.len() as int) =~= recs);
    skills
}

/// A name that no record carries sums to zero.
pub proof fn lemma_absent_name_sums_to_zero(recs: Seq<Triple>, name: Seq<char>)
    requires
        !has_name(recs, name),
    ensures
        size_total(recs, name) == 0,
    decreases recs.len(),
{
    if recs.len() > 0 {
        let prev = recs.drop_last();
        assert(prev =~= recs.drop_last());
        assert(!has_name(prev, name)) by {
            if has_name(prev, name) {
                let i = choose|i: int| 0 <= i < prev.len() && #[trigger] prev[i].0 == name;
                assert(recs[i].0 == name);
            }
        }
        assert(recs[recs.len() - 1].0 != name);
        lemma_absent_name_sums_to_zero(prev, name);
    }
}

} // verus!

verus! {

/// No two aggregated skills share a name.
pub proof fn lemma_aggregate_names_unique(recs: Seq<Triple>)
    ensures
        names_unique(aggregate_spec(recs)),
{
    lemma_distinct_names(recs);
    let names = distinct_names(recs);
    let agg = aggregate_spec(recs);
    assert forall|i: int, j: int|
        0 <= i < agg.len() && 0 <= j < agg.len() && i != j implies #[trigger] agg[i].0
        != #[trigger] agg[j].0 by {
        assert(agg[i].0 == names[i]);
        assert(agg[j].0 == names[j]);
    }
}

} // verus!
