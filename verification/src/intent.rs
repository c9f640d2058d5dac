//! The intent classifier and the agent plan it returns. The classification
//! itself is a deliberate placeholder — a keyword containment check — but
//! its contract is firm: every input yields exactly one plan, with a stable
//! id, an action from the closed set, and a confidence within range.
use vstd::prelude::*;
use vstd::string::*;

use crate::text::contains_seq;
use crate::text::str_contains;

verus! {

/// The closed set of actions an agent plan can ask for.
#[derive(Clone, Debug)]
pub enum AgentAction {
    OpenFolder { name: String },
    OpenFile { name: String },
    WebSearch { query: String },
}

/// One disambiguation option offered when the classifier cannot commit.
#[derive(Clone, Debug)]
pub struct Candidate {
    pub name: String,
    pub path: String,
    pub icon: Option<String>,
}

/// The classifier's answer: one action, optional candidates, and a
/// confidence in hundredths (100 stands for certainty).
#[derive(Clone, Debug)]
pub struct AgentPlan {
    pub id: String,
    pub action: AgentAction,
    pub candidates: Vec<Candidate>,
    pub confidence: u8,
}

impl AgentPlan {
    /// Every plan handed out has a non-empty id and a confidence within range.
    pub open spec fn wf(self) -> bool {
        &&& self.id@.len() > 0
        &&& self.confidence <= 100
    }
}

/// Maps a free-text instruction to one agent plan. Placeholder logic: an
/// instruction mentioning "folder" opens the downloads folder, anything else
/// becomes a web search for the instruction itself; no candidates, fixed
/// high confidence. Never refuses.
pub fn classify(input: &str) -> (p: AgentPlan)
    ensures
        p.wf(),
        p.id@ == "plan_1"@,
        p.candidates@.len() == 0,
        p.confidence == 90,
        contains_seq(input@, "folder"@) ==> (p.action matches AgentAction::OpenFolder { name }
            && name@ == "Downloads"@),
        !contains_seq(input@, "folder"@) ==> (p.action matches AgentAction::WebSearch { query }
            && query@ == input@),
{
    let action = if str_contains(input, "folder") {
        AgentAction::OpenFolder { name: String::from_str("Downloads") }
    } else {
        AgentAction::WebSearch { query: String::from_str(input) }
    };
    let p = AgentPlan {
        id: String::from_str("plan_1"),
        action,
        candidates: Vec::new(),
        confidence: 90,
    };
    proof {
        reveal_strlit("plan_1");
    }
    p
}

} // verus!

