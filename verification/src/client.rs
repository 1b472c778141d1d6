//! Agents as the herdr server's `agent.list` request reports them.
//!
//! The server speaks newline-delimited JSON over a Unix socket: one request
//! per line, e.g. `{"id":"wayherdr","method":"agent.list","params":{}}`.
//! Success responses carry the same `id` and a `result` object; errors carry
//! an `error` object with `code` and `message`. This module turns a decoded
//! response into the list of agents, or into the error to report.
use vstd::prelude::*;

use crate::status::{AgentStatus, Counts};
use crate::text::concat;

verus! {

broadcast use vstd::string::group_string_axioms;

/// A single agent entry from the `agent.list` response.
#[derive(Debug, Clone, PartialEq, Eq)]
pub struct Agent {
    /// Agent label (e.g. `pi`, `codex`).
    pub name: String,
    /// Lifecycle status as classified by herdr.
    pub status: AgentStatus,
    pub pane_id: Option<String>,
    pub workspace_id: Option<String>,
    pub cwd: Option<String>,
}

/// An agent entry as the server writes it; every field may be missing.
#[derive(Debug, Clone, PartialEq, Eq)]
pub struct AgentRaw {
    pub agent: Option<String>,
    pub agent_status: Option<String>,
    pub pane_id: Option<String>,
    pub workspace_id: Option<String>,
    pub cwd: Option<String>,
}

/// The `error` object of a response.
#[derive(Debug, Clone, PartialEq, Eq)]
pub struct ErrorBody {
    pub code: String,
    pub message: String,
}

/// The agent that a raw entry describes: a missing name is empty, and a
/// missing or unrecognized status is `Unknown`.
pub open spec fn agent_matches(raw: AgentRaw, a: Agent) -> bool {
    &&& a.name@ == (match raw.agent {
        Some(n) => n@,
        None => Seq::empty(),
    })
    &&& a.status == (match raw.agent_status {
        Some(s) => crate::status::status_of_wire(s@),
        None => AgentStatus::Unknown,
    })
    &&& a.pane_id == raw.pane_id
    &&& a.workspace_id == raw.workspace_id
    &&& a.cwd == raw.cwd
}

/// The agent that a raw entry describes.
pub fn agent_from_raw(raw: AgentRaw) -> (r: Agent)
    ensures
        agent_matches(raw, r),
{
    let name = match raw.agent {
        Some(n) => n,
        None => String::new(),
    };
    let status = match &raw.agent_status {
        Some(s) => AgentStatus::from_raw(s.as_str()),
        None => AgentStatus::Unknown,
    };
    Agent { name, status, pane_id: raw.pane_id, workspace_id: raw.workspace_id, cwd: raw.cwd }
}

/// The outcome of an `agent.list` request, from the response's `error`
/// object and its `result`: `None` when the response has no result (or a
/// `null` one), otherwise the agent entries or why they could not be read.
pub fn agents_from_response(
    error: Option<ErrorBody>,
    result: Option<Result<Vec<AgentRaw>, String>>,
) -> (r: Result<Vec<Agent>, String>)
    ensures
        match error {
            Some(e) => r matches Err(m) && m@ == e.code@ + ": "@ + e.message@,
            None => match result {
                None => r matches Err(m) && m@ == "response missing result"@,
                Some(Err(why)) => r matches Err(m) && m@ == "parse result: "@ + why@,
                Some(Ok(raws)) => r matches Ok(agents) && agents@.len() == raws@.len() && forall|
                    i: int,
                | 0 <= i < raws@.len() ==> agent_matches(raws@[i], #[trigger] agents@[i]),
            },
        },
{
    if let Some(e) = error {
        let head = concat(e.code.as_str(), ": ");
        return Err(concat(head.as_str(), e.message.as_str()));
    }
    match result {
        None => Err("response missing result".to_string()),
        Some(Err(why)) => Err(concat("parse result: ", why.as_str())),
        Some(Ok(raws)) => {
            let mut agents: Vec<Agent> = Vec::new();
            for raw in it: raws
                invariant
                    agents@.len() == it.index(),
                    forall|i: int|
                        0 <= i < it.index() ==> agent_matches(it.seq()[i], #[trigger] agents@[i]),
            {
                agents.push(agent_from_raw(raw));
            }
            Ok(agents)
        },
    }
}

} // verus!

verus! {

/// How many of `agents` have `status`.
pub open spec fn status_tally(agents: Seq<Agent>, status: AgentStatus) -> nat
    decreases agents.len(),
{
    if agents.len() == 0 {
        0
    } else {
        status_tally(agents.drop_last(), status) + if agents.last().status == status {
            1nat
        } else {
            0nat
        }
    }
}

/// The per-status counts of `agents`.
pub fn count_agents(agents: &Vec<Agent>) -> (r: Counts)
    ensures
        forall|s: AgentStatus| #[trigger] r.count_of(s) == status_tally(agents@, s),
        r.sum() == agents@.len(),
{
    let mut counts = Counts::default();
    let mut i: usize = 0;
    while i < agents.len()
        invariant
            i <= agents@.len(),
            forall|s: AgentStatus| #[trigger] counts.count_of(s) == status_tally(agents@.take(i as int), s),
            counts.sum() == i,
        decreases agents.len() - i,
    {
        let ghost before = counts;
        assert(agents@.take(i + 1).drop_last() =~= agents@.take(i as int));
        assert(counts.count_of(agents@[i as int].status) <= counts.sum());
        counts.add(agents[i].status);
        assert forall|s: AgentStatus| #[trigger] counts.count_of(s) == status_tally(agents@.take(i + 1), s) by {
            assert(agents@.take(i + 1).last() == agents@[i as int]);
            assert(before.count_of(s) == status_tally(agents@.take(i as int), s));
        }
        i = i + 1;
    }
    assert(agents@.take(i as int) =~= agents@);
    counts
}

} // verus!
