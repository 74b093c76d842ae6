//! Request handling: validation and defaults before the fetch, and the shaping
//! of the response after it.
use vstd::prelude::*;
use crate::aggregate::{lemma_aggregate_names_unique, names_unique};
use crate::graph::{RepositoryGraph, extract_skills, graph_skills};
use crate::model::{Skill, skill_views};
use crate::order::{ranked, sort_skills};

verus! {

/// How many repositories are requested when the caller does not say.
pub const DEFAULT_TOP: u16 = 50;

/// An inbound request: how many repositories to query, which to leave out.
#[derive(Clone, Debug)]
pub struct APIRequest {
    pub top: Option<u16>,
    pub exclude: Option<Vec<String>>,
}

/// The outbound response: the ranked skills.
#[derive(Clone, Debug)]
pub struct APIResponse {
    pub skills: Vec<Skill>,
}

/// Why a request failed.
#[derive(Clone, Debug)]
pub enum SkillsError {
    /// The request asked for nothing; no fetch was made.
    Validation(String),
    /// The fetch failed; the message is the collaborator's own.
    Upstream(String),
}

impl SkillsError {
    /// The message carried by the error.
    pub fn message(&self) -> (r: &String)
        ensures
            match self {
                SkillsError::Validation(m) => r == m,
                SkillsError::Upstream(m) => r == m,
            },
    {
        match self {
            SkillsError::Validation(m) => m,
            SkillsError::Upstream(m) => m,
        }
    }
}

/// A validated request: the repository count to fetch and the exclusions.
#[derive(Clone, Debug)]
pub struct FetchPlan {
    pub top: u16,
    pub exclude: Vec<String>,
}

pub open spec fn resolved_top(top: Option<u16>) -> u16 {
    match top {
        Some(t) => t,
        None => DEFAULT_TOP,
    }
}

pub open spec fn resolved_exclude(exclude: Option<Vec<String>>) -> Seq<String> {
    match exclude {
        Some(e) => e@,
        None => seq![],
    }
}

/// Validates a request and applies its defaults. A request for zero
/// repositories fails with a validation error, and no plan to fetch is made.
pub fn plan_request(req: APIRequest) -> (r: Result<FetchPlan, SkillsError>)
    ensures
        r is Err <==> req.top == Some(0u16),
        match r {
            Ok(p) => p.top == resolved_top(req.top) && p.exclude@ == resolved_exclude(req.exclude),
            Err(e) => e matches SkillsError::Validation(m) && m@ == "No skills requested."@,
        },
{
    let top = match req.top {
        Some(t) => t,
        None => DEFAULT_TOP,
    };
    if top == 0 {
        return Err(SkillsError::Validation(String::from_str("No skills requested.")));
    }
    let exclude = match req.exclude {
        Some(e) => e,
        None => Vec::new(),
    };
    Ok(FetchPlan { top, exclude })
}

/// Reads the upstream reply: reported errors, then absent data, are failures.
pub fn upstream_result(errors_reported: bool, data: Option<RepositoryGraph>) -> (r: Result<
    RepositoryGraph,
    String,
>)
    ensures
        errors_reported ==> (r matches Err(m) && m@ == "Error while fetching github API."@),
        !errors_reported && data is None ==> (r matches Err(m) && m@ == "missing response data"@),
        !errors_reported && data is Some ==> r == Ok::<RepositoryGraph, String>(data->Some_0),
{
    if errors_reported {
        Err(String::from_str("Error while fetching github API."))
    } else {
        match data {
            Some(g) => Ok(g),
            None => Err(String::from_str("missing response data")),
        }
    }
}

/// Turns the outcome of the fetch into the response: the collaborator's
/// failure as an upstream error, or every skill of the graph, ranked.
pub fn complete_request(exclude: &Vec<String>, fetched: Result<RepositoryGraph, String>) -> (r:
    Result<APIResponse, SkillsError>)
    ensures
        match fetched {
            Err(m) => r matches Err(SkillsError::Upstream(n)) && n@ == m@,
            Ok(g) => r matches Ok(resp) && {
                let s = skill_views(resp.skills@);
                &&& s.len() == graph_skills(g, exclude@).len()
                &&& forall|i: int| 0 <= i < s.len() ==> graph_skills(g, exclude@).contains(#[trigger] s[i])
                &&& ranked(s)
                &&& names_unique(s)
            },
        },
{
    match fetched {
        Err(m) => Err(SkillsError::Upstream(m)),
        Ok(g) => {
            let skills = extract_skills(&g, exclude);
            proof {
                lemma_aggregate_names_unique(crate::graph::graph_records(g, exclude@));
            }
            let sorted = sort_skills(skills);
            proof {
                assert forall|i: int| 0 <= i < sorted@.len() implies #[trigger] skill_views(sorted@)[i]
                    == sorted@[i]@ by {}
            }
            Ok(APIResponse { skills: sorted })
        },
    }
}

} // verus!
