//! The ranking of skills: larger code size first, ties broken by name in
//! ascending lexicographic order.
use vstd::prelude::*;
use crate::aggregate::names_unique;
use crate::model::{Skill, Triple, skill_views};

verus! {

/// Lexicographic order on character sequences, by code point.
pub open spec fn name_lt(a: Seq<char>, b: Seq<char>) -> bool
    decreases a.len(),
{
    if a.len() == 0 {
        b.len() > 0
    } else if b.len() == 0 {
        false
    } else if a[0] != b[0] {
        a[0] < b[0]
    } else {
        name_lt(a.drop_first(), b.drop_first())
    }
}

/// Whether skill `a` ranks before skill `b`.
pub open spec fn skill_before(a: Triple, b: Triple) -> bool {
    a.1 > b.1 || (a.1 == b.1 && name_lt(a.0, b.0))
}

/// Whether the skills are in strictly ascending rank.
pub open spec fn ranked(s: Seq<Triple>) -> bool {
    forall|i: int, j: int| 0 <= i < j < s.len() ==> skill_before(#[trigger] s[i], #[trigger] s[j])
}

pub proof fn lemma_name_lt_total(a: Seq<char>, b: Seq<char>)
    requires
        a != b,
    ensures
        name_lt(a, b) || name_lt(b, a),
    decreases a.len(),
{
    if a.len() > 0 && b.len() > 0 {
        if a[0] == b[0] {
            if a.drop_first() == b.drop_first() {
                assert(a =~= seq![a[0]] + a.drop_first());
                assert(b =~= seq![b[0]] + b.drop_first());
            }
            lemma_name_lt_total(a.drop_first(), b.drop_first());
        }
    } else if a.len() == 0 && b.len() == 0 {
        assert(a =~= b);
    }
}

pub proof fn lemma_name_lt_transitive(a: Seq<char>, b: Seq<char>, c: Seq<char>)
    requires
        name_lt(a, b),
        name_lt(b, c),
    ensures
        name_lt(a, c),
    decreases a.len(),
{
    if a.len() > 0 && b.len() > 0 && c.len() > 0 && a[0] == b[0] && b[0] == c[0] {
        lemma_name_lt_transitive(a.drop_first(), b.drop_first(), c.drop_first());
    }
}

pub proof fn lemma_skill_before_total(a: Triple, b: Triple)
    requires
        a.0 != b.0,
    ensures
        skill_before(a, b) || skill_before(b, a),
{
    lemma_name_lt_total(a.0, b.0);
}

pub proof fn lemma_skill_before_transitive(a: Triple, b: Triple, c: Triple)
    requires
        skill_before(a, b),
        skill_before(b, c),
    ensures
        skill_before(a, c),
{
    if a.1 == b.1 && b.1 == c.1 {
        lemma_name_lt_transitive(a.0, b.0, c.0);
    }
}

/// Whether `a` precedes `b` in lexicographic order.
pub fn name_less(a: &String, b: &String) -> (r: bool)
    ensures
        r == name_lt(a@, b@),
{
    let sa = a.as_str();
    let sb = b.as_str();
    let la = sa.unicode_len();
    let lb = sb.unicode_len();
    let mut i: usize = 0;
    assert(a@.skip(0) =~= a@);
    assert(b@.skip(0) =~= b@);
    while i < la && i < lb
        invariant
            la == a@.len(),
            lb == b@.len(),
            sa@ == a@,
            sb@ == b@,
            i <= la,
            i <= lb,
            name_lt(a@, b@) == name_lt(a@.skip(i as int), b@.skip(i as int)),
        decreases la - i,
    {
        let ca = sa.get_char(i);
        let cb = sb.get_char(i);
        assert(a@.skip(i as int)[0] == ca);
        assert(b@.skip(i as int)[0] == cb);
        if ca != cb {
            return ca < cb;
        }
        assert(a@.skip(i as int).drop_first() =~= a@.skip(i + 1));
        assert(b@.skip(i as int).drop_first() =~= b@.skip(i + 1));
        i = i + 1;
    }
    i == la && i < lb
}

/// Whether skill `a` ranks before skill `b`.
pub fn skill_precedes(a: &Skill, b: &Skill) -> (r: bool)
    ensures
        r == skill_before(a@, b@),
{
    if a.code_size != b.code_size {
        a.code_size > b.code_size
    } else {
        name_less(&a.name, &b.name)
    }
}

/// Puts skills with distinct names in rank order.
pub fn sort_skills(skills: Vec<Skill>) -> (r: Vec<Skill>)
    requires
        names_unique(skill_views(skills@)),
    ensures
        r@.len() == skills@.len(),
        forall|i: int| 0 <= i < r@.len() ==> skill_views(skills@).contains(#[trigger] r@[i]@),
        ranked(skill_views(r@)),
        names_unique(skill_views(r@)),
{
    let ghost orig = skill_views(skills@);
    let mut rest = skills;
    let mut out: Vec<Skill> = Vec::new();
    while rest.len() > 0
        invariant
            orig.len() == skills@.len(),
            names_unique(orig),
            rest@.len() + out@.len() == orig.len(),
            forall|j: int| 0 <= j < rest@.len() ==> #[trigger] rest@[j]@ == orig[j],
            forall|i: int|
                0 <= i < out@.len() ==> exists|j: int|
                    rest@.len() <= j < orig.len() && orig[j] == #[trigger] out@[i]@,
            ranked(skill_views(out@)),
            names_unique(skill_views(out@)),
        decreases rest@.len(),
    {
        let x = rest.pop().unwrap();
        let ghost k = rest@.len() as int;
        assert(x@ == orig[k]);
        let mut p: usize = 0;
        while p < out.len()
            invariant
                p <= out@.len(),
                forall|i: int| 0 <= i < p ==> !skill_before(x@, #[trigger] out@[i]@),
            ensures
                p <= out@.len(),
                p < out@.len() ==> skill_before(x@, out@[p as int]@),
                forall|i: int| 0 <= i < p ==> !skill_before(x@, #[trigger] out@[i]@),
            decreases out@.len() - p,
        {
            if skill_precedes(&x, &out[p]) {
                break;
            }
            p = p + 1;
        }
        let ghost before = out@;
        proof {
            assert forall|i: int| 0 <= i < before.len() implies #[trigger] before[i]@.0 != x@.0 by {
                let j = choose|j: int| k + 1 <= j < orig.len() && orig[j] == before[i]@;
                assert(orig[j].0 != orig[k].0);
            }
        }
        out.insert(p, x);
        proof {
            let sv = skill_views(out@);
            assert forall|i: int, j: int| 0 <= i < j < sv.len() implies skill_before(
                #[trigger] sv[i],
                #[trigger] sv[j],
            ) by {
                assert(sv[i] == out@[i]@);
                assert(sv[j] == out@[j]@);
                if i < p && j < p {
                    assert(skill_views(before)[i] == before[i]@);
                    assert(skill_views(before)[j] == before[j]@);
                } else if i < p && j == p {
                    lemma_skill_before_total(x@, before[i]@);
                } else if i < p {
                    assert(skill_views(before)[i] == before[i]@);
                    assert(skill_views(before)[j - 1] == before[j - 1]@);
                } else if i == p {
                    if j - 1 > p {
                        assert(skill_views(before)[p as int] == before[p as int]@);
                        assert(skill_views(before)[j - 1] == before[j - 1]@);
                        lemma_skill_before_transitive(x@, before[p as int]@, before[j - 1]@);
                    }
                } else {
                    assert(skill_views(before)[i - 1] == before[i - 1]@);
                    assert(skill_views(before)[j - 1] == before[j - 1]@);
                }
            }
            assert forall|i: int, j: int|
                0 <= i < sv.len() && 0 <= j < sv.len() && i != j implies #[trigger] sv[i].0
                != #[trigger] sv[j].0 by {
                assert(sv[i] == out@[i]@);
                assert(sv[j] == out@[j]@);
                let bi = if i < p { i } else { i - 1 };
                let bj = if j < p { j } else { j - 1 };
                if i != p && j != p {
                    assert(skill_views(before)[bi] == before[bi]@);
                    assert(skill_views(before)[bj] == before[bj]@);
                }
            }
            assert forall|i: int| 0 <= i < out@.len() implies exists|j: int|
                rest@.len() <= j < orig.len() && orig[j] == #[trigger] out@[i]@ by {
                if i < p {
                    assert(out@[i] == before[i]);
                } else if i == p {
                    assert(orig[k] == out@[i]@);
                } else {
                    assert(out@[i] == before[i - 1]);
                }
            }
        }
    }
    proof {
        assert forall|i: int| 0 <= i < out@.len() implies orig.contains(#[trigger] out@[i]@) by {
            let j = choose|j: int| 0 <= j < orig.len() && orig[j] == out@[i]@;
        }
    }
    out
}

} // verus!
