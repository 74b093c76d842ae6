use github_skills::extract::{extract_languages, is_excluded};
use github_skills::graph::{extract_skills, ContributedRepositories, OwnedRepositories, RepositoryGraph};
use github_skills::handler::{
    complete_request, plan_request, upstream_result, APIRequest, SkillsError, DEFAULT_TOP,
};
use github_skills::model::{
    default_color, LanguageBreakdown, LanguageEdge, LanguageNode, RepositoryRecord, Skill,
};
use github_skills::order::{name_less, skill_precedes, sort_skills};

fn edge(name: &str, size: u64, color: Option<&str>) -> Option<LanguageEdge> {
    Some(LanguageEdge {
        node: LanguageNode { name: name.to_string(), color: color.map(|c| c.to_string()) },
        size,
    })
}

fn repo(name: &str, edges: Vec<Option<LanguageEdge>>) -> Option<RepositoryRecord> {
    Some(RepositoryRecord {
        name: name.to_string(),
        languages: Some(LanguageBreakdown { edges: Some(edges) }),
    })
}

fn graph(
    owned: Option<Vec<Option<RepositoryRecord>>>,
    contributed: Option<Vec<Option<RepositoryRecord>>>,
) -> RepositoryGraph {
    RepositoryGraph {
        repositories: OwnedRepositories { nodes: owned },
        repositories_contributed_to: ContributedRepositories { nodes: contributed },
    }
}

fn go_example() -> RepositoryGraph {
    graph(
        Some(vec![repo("A", vec![edge("Go", 100, Some("#00ADD8"))])]),
        Some(vec![repo("B", vec![edge("Go", 50, None)])]),
    )
}

fn names(v: &[&str]) -> Vec<String> {
    v.iter().map(|s| s.to_string()).collect()
}

fn skill(name: &str, code_size: u64, color: &str) -> (String, u64, String) {
    (name.to_string(), code_size, color.to_string())
}

fn triples(skills: &[Skill]) -> Vec<(String, u64, String)> {
    skills.iter().map(|s| (s.name.clone(), s.code_size, s.color.clone())).collect()
}

fn respond(exclude: &[&str], g: RepositoryGraph) -> Vec<(String, u64, String)> {
    let resp = complete_request(&names(exclude), Ok(g)).unwrap();
    triples(&resp.skills)
}

#[test]
fn handler_returns_ok_with_argument() {
    let req = APIRequest { top: Some(2), exclude: None };
    let plan = plan_request(req).unwrap();
    assert_eq!(plan.top, 2);
    let result = complete_request(&plan.exclude, Ok(go_example()));
    assert!(result.is_ok());
}

#[test]
fn handler_returns_ok_without_argument() {
    let req = APIRequest { top: None, exclude: None };
    let plan = plan_request(req).unwrap();
    assert_eq!(plan.top, DEFAULT_TOP);
    assert_eq!(plan.top, 50);
    assert!(plan.exclude.is_empty());
    let result = complete_request(&plan.exclude, Ok(go_example()));
    assert!(result.is_ok());
}

#[test]
fn handler_returns_error_with_zero_argument() {
    let req = APIRequest { top: Some(0), exclude: None };
    let result = plan_request(req);
    assert!(result.is_err());
}

#[test]
fn zero_top_is_a_validation_error_and_nothing_is_fetched() {
    let mut fetches = 0;
    let req = APIRequest { top: Some(0), exclude: Some(names(&["A"])) };
    let outcome = match plan_request(req) {
        Ok(plan) => {
            fetches += 1;
            complete_request(&plan.exclude, Ok(go_example())).map(|_| ())
        }
        Err(e) => Err(e),
    };
    assert_eq!(fetches, 0);
    match outcome {
        Err(SkillsError::Validation(m)) => assert_eq!(m, "No skills requested."),
        other => panic!("unexpected outcome {:?}", other),
    }
}

#[test]
fn exclusions_are_passed_through_the_plan() {
    let req = APIRequest { top: Some(7), exclude: Some(names(&["x", "y"])) };
    let plan = plan_request(req).unwrap();
    assert_eq!(plan.top, 7);
    assert_eq!(plan.exclude, names(&["x", "y"]));
}

#[test]
fn owned_and_contributed_go_edges_combine() {
    assert_eq!(respond(&[], go_example()), vec![skill("Go", 150, "#00ADD8")]);
}

#[test]
fn excluding_the_owned_repository_leaves_the_fallback_color() {
    assert_eq!(respond(&["A"], go_example()), vec![skill("Go", 50, "#000")]);
}

#[test]
fn sizes_sum_across_repositories_and_sources() {
    let g = graph(
        Some(vec![
            repo("r1", vec![edge("Rust", 10, Some("#dea584")), edge("C", 3, Some("#555555"))]),
            repo("r2", vec![edge("Rust", 20, None)]),
        ]),
        Some(vec![repo("r3", vec![edge("Rust", 5, Some("#ffffff")), edge("C", 4, None)])]),
    );
    assert_eq!(
        respond(&[], g),
        vec![skill("Rust", 35, "#dea584"), skill("C", 7, "#555555")]
    );
}

#[test]
fn exclusion_removes_every_contribution_of_the_repository() {
    let g = graph(
        Some(vec![
            repo("keep", vec![edge("Rust", 10, Some("#dea584"))]),
            repo("drop", vec![edge("Rust", 1000, None), edge("Shell", 40, Some("#89e051"))]),
        ]),
        Some(vec![repo("drop", vec![edge("Rust", 7, None)])]),
    );
    assert_eq!(respond(&["drop"], g), vec![skill("Rust", 10, "#dea584")]);
}

#[test]
fn exclusion_matches_names_exactly() {
    let g = graph(Some(vec![repo("Repo", vec![edge("Go", 1, None)])]), None);
    assert_eq!(respond(&["repo", "Rep"], g), vec![skill("Go", 1, "#000")]);
}

#[test]
fn later_color_does_not_override_an_earlier_one() {
    let g = graph(
        Some(vec![
            repo("a", vec![edge("Go", 1, None)]),
            repo("b", vec![edge("Go", 1, Some("#00ADD8"))]),
        ]),
        Some(vec![repo("c", vec![edge("Go", 1, Some("#123456"))])]),
    );
    assert_eq!(respond(&[], g), vec![skill("Go", 3, "#000")]);
}

#[test]
fn owned_color_beats_contributed_color() {
    let g = graph(
        Some(vec![repo("a", vec![edge("Go", 1, Some("#111111"))])]),
        Some(vec![repo("b", vec![edge("Go", 1, Some("#222222"))])]),
    );
    assert_eq!(respond(&[], g), vec![skill("Go", 2, "#111111")]);
}

#[test]
fn absent_collections_give_an_empty_response() {
    let resp = complete_request(&Vec::new(), Ok(graph(None, None))).unwrap();
    assert!(resp.skills.is_empty());
}

#[test]
fn absent_entries_at_every_level_contribute_nothing() {
    let g = graph(
        Some(vec![
            None,
            Some(RepositoryRecord { name: "no-languages".to_string(), languages: None }),
            Some(RepositoryRecord {
                name: "no-edges".to_string(),
                languages: Some(LanguageBreakdown { edges: None }),
            }),
            repo("holes", vec![None, edge("Go", 9, None), None]),
        ]),
        Some(vec![None]),
    );
    assert_eq!(respond(&[], g), vec![skill("Go", 9, "#000")]);
}

#[test]
fn names_are_case_sensitive() {
    let g = graph(
        Some(vec![repo("a", vec![edge("go", 5, None), edge("Go", 5, None)])]),
        None,
    );
    assert_eq!(respond(&[], g), vec![skill("Go", 5, "#000"), skill("go", 5, "#000")]);
}

#[test]
fn skills_are_ranked_by_size_then_name() {
    let g = graph(
        Some(vec![repo(
            "a",
            vec![
                edge("b", 5, None),
                edge("a", 5, None),
                edge("big", 100, None),
                edge("ab", 5, None),
                edge("tiny", 0, None),
            ],
        )]),
        None,
    );
    assert_eq!(
        respond(&[], g),
        vec![
            skill("big", 100, "#000"),
            skill("a", 5, "#000"),
            skill("ab", 5, "#000"),
            skill("b", 5, "#000"),
            skill("tiny", 0, "#000"),
        ]
    );
}

#[test]
fn aggregated_names_are_unique() {
    let g = graph(
        Some(vec![
            repo("a", vec![edge("Go", 1, None), edge("Rust", 2, None), edge("Go", 3, None)]),
            repo("b", vec![edge("Rust", 4, None)]),
        ]),
        Some(vec![repo("c", vec![edge("Go", 5, None), edge("C", 6, None)])]),
    );
    let skills = extract_skills(&g, &Vec::new());
    assert_eq!(skills.len(), 3);
    for i in 0..skills.len() {
        for j in 0..skills.len() {
            if i != j {
                assert_ne!(skills[i].name, skills[j].name);
            }
        }
    }
    assert_eq!(
        triples(&skills),
        vec![skill("Go", 9, "#000"), skill("Rust", 6, "#000"), skill("C", 6, "#000")]
    );
}

#[test]
fn sizes_saturate_at_the_largest_u64() {
    let g = graph(
        Some(vec![repo("a", vec![edge("Go", u64::MAX, None)])]),
        Some(vec![repo("b", vec![edge("Go", 1, None)])]),
    );
    assert_eq!(respond(&[], g), vec![skill("Go", u64::MAX, "#000")]);
}

#[test]
fn extraction_applies_fallback_and_exclusion() {
    let owned = OwnedRepositories {
        nodes: Some(vec![
            repo("x", vec![edge("Go", 1, Some("#00ADD8")), edge("C", 2, None)]),
            repo("y", vec![edge("Zig", 3, None)]),
        ]),
    };
    let records = extract_languages(&owned, &names(&["y"]));
    let got: Vec<(String, u64, String)> =
        records.iter().map(|r| (r.name.clone(), r.size, r.color.clone())).collect();
    assert_eq!(got, vec![skill("Go", 1, "#00ADD8"), skill("C", 2, "#000")]);
    let absent = ContributedRepositories { nodes: None };
    assert!(extract_languages(&absent, &Vec::new()).is_empty());
}

#[test]
fn upstream_failure_is_carried_verbatim() {
    let r = complete_request(&Vec::new(), Err("connection refused".to_string()));
    match r {
        Err(SkillsError::Upstream(m)) => assert_eq!(m, "connection refused"),
        other => panic!("unexpected outcome {:?}", other),
    }
}

#[test]
fn upstream_reply_is_read() {
    assert_eq!(
        upstream_result(true, Some(go_example())).unwrap_err(),
        "Error while fetching github API."
    );
    assert_eq!(upstream_result(false, None).unwrap_err(), "missing response data");
    let g = upstream_result(false, Some(go_example())).unwrap();
    assert_eq!(g.repositories.nodes.unwrap().len(), 1);
}

#[test]
fn error_message_is_exposed() {
    let e = SkillsError::Upstream("boom".to_string());
    assert_eq!(e.message(), "boom");
    let v = SkillsError::Validation("no".to_string());
    assert_eq!(v.message(), "no");
}

#[test]
fn name_order_is_lexicographic() {
    let s = |x: &str| x.to_string();
    assert!(name_less(&s("a"), &s("b")));
    assert!(name_less(&s("ab"), &s("b")));
    assert!(name_less(&s("a"), &s("ab")));
    assert!(name_less(&s(""), &s("a")));
    assert!(!name_less(&s("a"), &s("a")));
    assert!(!name_less(&s("b"), &s("ab")));
    assert!(name_less(&s("C"), &s("c")));
}

#[test]
fn precedence_and_sorting() {
    let mk = |n: &str, c: u64| Skill { name: n.to_string(), code_size: c, color: "#000".to_string() };
    assert!(skill_precedes(&mk("z", 2), &mk("a", 1)));
    assert!(skill_precedes(&mk("a", 1), &mk("b", 1)));
    assert!(!skill_precedes(&mk("b", 1), &mk("a", 1)));
    let sorted = sort_skills(vec![mk("c", 1), mk("a", 1), mk("b", 9)]);
    let got: Vec<&str> = sorted.iter().map(|s| s.name.as_str()).collect();
    assert_eq!(got, vec!["b", "a", "c"]);
    assert!(sort_skills(Vec::new()).is_empty());
}

#[test]
fn membership_in_exclusions() {
    assert!(is_excluded(&names(&["a", "b"]), &"b".to_string()));
    assert!(!is_excluded(&names(&["a", "b"]), &"c".to_string()));
    assert!(!is_excluded(&Vec::new(), &"a".to_string()));
}

#[test]
fn fallback_color_is_black() {
    assert_eq!(default_color(), "#000");
}
