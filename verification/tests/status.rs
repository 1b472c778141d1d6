use waybar_toys::client::{agents_from_response, count_agents, Agent, AgentRaw, ErrorBody};
use waybar_toys::status::{AgentStatus, Counts};

#[test]
fn parses_known_statuses() {
    assert_eq!(AgentStatus::from_raw("working"), AgentStatus::Working);
    assert_eq!(AgentStatus::from_raw("blocked"), AgentStatus::Blocked);
    assert_eq!(AgentStatus::from_raw("done"), AgentStatus::Done);
    assert_eq!(AgentStatus::from_raw("idle"), AgentStatus::Idle);
}

#[test]
fn unknown_values_fall_back_to_unknown() {
    assert_eq!(AgentStatus::from_raw("napping"), AgentStatus::Unknown);
    assert_eq!(AgentStatus::from_raw(""), AgentStatus::Unknown);
}

#[test]
fn as_str_round_trips() {
    for status in AgentStatus::ALL {
        assert_eq!(AgentStatus::from_raw(status.as_str()), status);
    }
}

#[test]
fn counts_accumulate_and_total() {
    let mut counts = Counts::default();
    for status in [
        AgentStatus::Working,
        AgentStatus::Working,
        AgentStatus::Blocked,
        AgentStatus::Idle,
        AgentStatus::Done,
        AgentStatus::Unknown,
    ] {
        counts.add(status);
    }
    assert_eq!(counts.working, 2);
    assert_eq!(counts.blocked, 1);
    assert_eq!(counts.done, 1);
    assert_eq!(counts.idle, 1);
    assert_eq!(counts.unknown, 1);
    assert_eq!(counts.total(), 6);
}

#[test]
fn render_substitutes_tokens() {
    let mut counts = Counts::default();
    counts.add(AgentStatus::Working);
    counts.add(AgentStatus::Idle);
    counts.add(AgentStatus::Blocked);
    counts.add(AgentStatus::Done);

    let text = counts.render("{working}w {blocked}b {done}d {idle}i");
    assert_eq!(text, "1w 1b 1d 1i");
}

#[test]
fn render_includes_total_and_preserves_unknown_tokens() {
    let counts = Counts {
        working: 2,
        idle: 3,
        ..Default::default()
    };
    assert_eq!(counts.render("{total} total"), "5 total");
    assert_eq!(counts.render("{nope} {working}"), "{nope} 2");
}

#[test]
fn counts_cover_all_states() {
    let mut counts = Counts::default();
    for status in AgentStatus::ALL {
        counts.add(status);
    }
    assert_eq!(counts.total(), 5);
}

#[test]
fn wire_names() {
    assert_eq!(AgentStatus::Working.as_str(), "working");
    assert_eq!(AgentStatus::Unknown.as_str(), "unknown");
    // The catch-all's own wire name is not a recognized status.
    assert_eq!(AgentStatus::from_raw("unknown"), AgentStatus::Unknown);
    assert_eq!(AgentStatus::from_raw("Working"), AgentStatus::Unknown);
}

#[test]
fn render_counts_unknown_and_large_values() {
    let counts = Counts { working: 0, blocked: 12, done: 0, idle: 0, unknown: 1005 };
    assert_eq!(counts.render("{unknown}/{blocked}/{total}"), "1005/12/1017");
    assert_eq!(counts.render("{working}{working}"), "00");
    assert_eq!(counts.render(""), "");
    assert_eq!(counts.render("no tokens here"), "no tokens here");
}

fn raw(agent: Option<&str>, status: Option<&str>, pane: Option<&str>, cwd: Option<&str>) -> AgentRaw {
    AgentRaw {
        agent: agent.map(str::to_string),
        agent_status: status.map(str::to_string),
        pane_id: pane.map(str::to_string),
        workspace_id: None,
        cwd: cwd.map(str::to_string),
    }
}

#[test]
fn lists_agents_with_statuses() {
    let agents = agents_from_response(
        None,
        Some(Ok(vec![
            raw(Some("pi"), Some("working"), Some("w1:p1"), Some("/a")),
            raw(Some("codex"), Some("blocked"), Some("w1:p2"), None),
            raw(Some("amp"), Some("idle"), Some("w2:p1"), None),
            raw(Some("gemini"), Some("done"), Some("w2:p2"), None),
            raw(Some("cursor"), Some("weird-future-state"), Some("w3:p1"), None),
        ])),
    )
    .expect("list_agents should succeed");

    assert_eq!(agents.len(), 5);
    assert_eq!(agents[0].name, "pi");
    assert_eq!(agents[0].status, AgentStatus::Working);
    assert_eq!(agents[0].pane_id.as_deref(), Some("w1:p1"));
    assert_eq!(agents[0].cwd.as_deref(), Some("/a"));
    assert_eq!(agents[1].status, AgentStatus::Blocked);
    assert_eq!(agents[2].status, AgentStatus::Idle);
    assert_eq!(agents[3].status, AgentStatus::Done);
    // Unrecognized statuses map to Unknown rather than failing.
    assert_eq!(agents[4].status, AgentStatus::Unknown);
}

#[test]
fn empty_agent_list() {
    let agents = agents_from_response(None, Some(Ok(vec![]))).expect("list_agents should succeed");
    assert!(agents.is_empty());
}

#[test]
fn server_error_surfaces_as_err() {
    let err = agents_from_response(None, None).expect_err("missing result should be an error");
    assert!(err.contains("result"), "unexpected error: {err}");
    assert_eq!(err, "response missing result");
}

#[test]
fn error_object_is_reported() {
    let err = agents_from_response(
        Some(ErrorBody { code: "bad_request".to_string(), message: "nope".to_string() }),
        Some(Ok(vec![])),
    )
    .expect_err("an error object wins");
    assert_eq!(err, "bad_request: nope");
    let err = agents_from_response(None, Some(Err("expected a sequence".to_string())))
        .expect_err("an unreadable result is an error");
    assert_eq!(err, "parse result: expected a sequence");
}

#[test]
fn missing_fields_default() {
    let agents = agents_from_response(None, Some(Ok(vec![raw(None, None, None, None)]))).unwrap();
    assert_eq!(
        agents[0],
        Agent {
            name: String::new(),
            status: AgentStatus::Unknown,
            pane_id: None,
            workspace_id: None,
            cwd: None,
        }
    );
}

#[test]
fn counts_agents_by_status() {
    let agents = agents_from_response(
        None,
        Some(Ok(vec![
            raw(Some("a"), Some("working"), None, None),
            raw(Some("b"), Some("working"), None, None),
            raw(Some("c"), Some("done"), None, None),
            raw(Some("d"), Some("zzz"), None, None),
        ])),
    )
    .unwrap();
    let counts = count_agents(&agents);
    assert_eq!(counts, Counts { working: 2, blocked: 0, done: 1, idle: 0, unknown: 1 });
    assert_eq!(counts.render("{working}w {blocked}b {done}d {idle}i"), "2w 0b 1d 0i");
}
