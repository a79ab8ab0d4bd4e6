use client_shell::agent_groups::{
    agent_rank, agents_only, displayed_agent_pane_ids, displayed_agent_targets, endpoint_group, endpoint_rank,
    render_group_header, group_items, grouping_enabled, merge_lone_icon_rows, workspace_group, AgentPanelItem,
    AggregateAgentTarget, GroupKey, HeaderCell, ResolvedToken, ResolvedTokenKind,
};
use client_shell::model::{
    AgentInfo, AgentPanelSort, Color, ClientShellEndpoint, ClientEndpointId, PaneInfo, Palette, Rect, ClientShellConfig, ClientShellSnapshot, TabInfo,
    WorkspaceInfo,
};

fn config(group_by_space: bool, sort: AgentPanelSort) -> ClientShellConfig {
    ClientShellConfig {
        group_by_space,
        agent_panel_sort: sort,
        navigation_preview: false,
        palette: Palette {
            overlay0: Color::DarkGray,
            overlay1: Color::Gray,
            active_row_bg: Color::Indexed(236),
            selection_bg: Color::Reset,
        },
    }
}

fn agent(pane_id: &str, workspace_id: &str, priority: u8, seq: u64) -> AgentInfo {
    AgentInfo {
        pane_id: pane_id.into(),
        workspace_id: workspace_id.into(),
        status_priority: priority,
        state_change_seq: seq,
    }
}

fn workspace(id: &str, label: &str) -> WorkspaceInfo {
    WorkspaceInfo { workspace_id: id.into(), label: label.into() }
}

/// ws_1 "client-shell" with pane_1 and ws_2 "second" with pane_2.
fn two_spaces() -> ClientShellSnapshot {
    ClientShellSnapshot {
        focused_workspace_id: Some("ws_1".into()),
        focused_tab_id: Some("tab_1".into()),
        focused_pane_id: Some("pane_1".into()),
        workspaces: vec![workspace("ws_1", "client-shell"), workspace("ws_2", "second")],
        tabs: vec![
            TabInfo { tab_id: "tab_1".into(), workspace_id: "ws_1".into() },
            TabInfo { tab_id: "tab_2".into(), workspace_id: "ws_2".into() },
        ],
        panes: vec![PaneInfo { pane_id: "pane_1".into() }, PaneInfo { pane_id: "pane_2".into() }],
        agents: vec![agent("pane_1", "ws_1", 1, 1), agent("pane_2", "ws_2", 1, 1)],
    }
}

/// The local panel's items for the snapshot's agents, in snapshot order.
fn local_items(snapshot: &ClientShellSnapshot, config: &ClientShellConfig) -> Vec<AgentPanelItem<String>> {
    let rows: Vec<String> = snapshot.agents.iter().map(|a| a.pane_id.clone()).collect();
    group_items(
        rows,
        config,
        |pane_id: &String| {
            workspace_group(snapshot, pane_id).map(|(workspace_id, label)| {
                (GroupKey { endpoint_id: ClientEndpointId::Local, workspace_id }, label)
            })
        },
        |pane_id: &String| agent_rank(snapshot, pane_id),
    )
}

/// Panel body lines: header labels, blank lines and agent panes, one per row.
fn body_lines(items: &[AgentPanelItem<String>]) -> Vec<String> {
    let mut lines = Vec::new();
    for item in items {
        match item {
            AgentPanelItem::Header { label, leading_blank } => {
                if *leading_blank {
                    lines.push(String::new());
                }
                lines.push(label.clone());
            }
            AgentPanelItem::Agent(pane_id) => lines.push(pane_id.clone()),
        }
        assert_eq!(item.lines(|_| 1), if matches!(item, AgentPanelItem::Header { leading_blank: true, .. }) { 2 } else { 1 });
    }
    lines
}

#[test]
fn group_by_space_adds_a_header_row_per_space() {
    let snapshot = two_spaces();
    let items = local_items(&snapshot, &config(true, AgentPanelSort::Spaces));
    let lines = body_lines(&items);
    assert_eq!(&lines[..5], ["client-shell", "pane_1", "", "second", "pane_2"], "{lines:?}");
    let agent_rows: Vec<(usize, &str)> = lines
        .iter()
        .enumerate()
        .filter(|(_, l)| l.starts_with("pane_"))
        .map(|(y, l)| (y, l.as_str()))
        .collect();
    assert_eq!(agent_rows, [(1, "pane_1"), (4, "pane_2")]);
}

#[test]
fn group_by_space_off_keeps_flat_rows() {
    let snapshot = two_spaces();
    let items = local_items(&snapshot, &config(false, AgentPanelSort::Spaces));
    let lines = body_lines(&items);
    assert_eq!(lines, ["pane_1", "pane_2"], "{lines:?}");
    assert_eq!(agents_only(items).len(), 2);
}

#[test]
fn group_by_space_is_ignored_in_priority_sort() {
    let snapshot = two_spaces();
    let config = config(true, AgentPanelSort::Priority);
    assert!(!grouping_enabled(&config));
    let lines = body_lines(&local_items(&snapshot, &config));
    assert_eq!(lines, ["pane_1", "pane_2"], "{lines:?}");
}

#[test]
fn groups_keep_first_appearance_and_rows_sort_by_rank() {
    // ws_1 appears first; inside ws_1 the more urgent pane_3 leads;
    // pane_2 and pane_4 tie and keep their order.
    let mut snapshot = two_spaces();
    snapshot.agents = vec![
        agent("pane_1", "ws_1", 1, 5),
        agent("pane_2", "ws_2", 3, 1),
        agent("pane_3", "ws_1", 3, 2),
        agent("pane_4", "ws_2", 3, 1),
    ];
    let items = local_items(&snapshot, &config(true, AgentPanelSort::Spaces));
    let lines = body_lines(&items);
    assert_eq!(lines, ["client-shell", "pane_3", "pane_1", "", "second", "pane_2", "pane_4"]);
}

#[test]
fn a_later_space_with_a_more_urgent_agent_stays_after() {
    let mut snapshot = two_spaces();
    snapshot.agents = vec![agent("pane_1", "ws_1", 1, 1), agent("pane_2", "ws_2", 9, 9)];
    let items = local_items(&snapshot, &config(true, AgentPanelSort::Spaces));
    let lines = body_lines(&items);
    assert_eq!(lines, ["client-shell", "pane_1", "", "second", "pane_2"]);
}

#[test]
fn a_row_without_a_space_keeps_its_place_among_the_groups() {
    let mut snapshot = two_spaces();
    snapshot.agents = vec![
        agent("pane_1", "ws_1", 1, 1),
        agent("pane_9", "ws_gone", 9, 9),
        agent("pane_2", "ws_2", 1, 1),
        agent("pane_3", "ws_1", 5, 5),
    ];
    let items = local_items(&snapshot, &config(true, AgentPanelSort::Spaces));
    let lines = body_lines(&items);
    assert_eq!(lines, ["client-shell", "pane_3", "pane_1", "pane_9", "", "second", "pane_2"]);
}

#[test]
fn rows_without_a_space_stay_without_header() {
    let mut snapshot = two_spaces();
    snapshot.agents = vec![agent("pane_1", "ws_1", 1, 1), agent("pane_9", "ws_gone", 1, 1)];
    let items = local_items(&snapshot, &config(true, AgentPanelSort::Spaces));
    let lines = body_lines(&items);
    assert_eq!(lines, ["client-shell", "pane_1", "pane_9"]);
}

#[test]
fn agent_rank_is_status_then_state_change() {
    let snapshot = two_spaces();
    assert_eq!(agent_rank(&snapshot, &"pane_2".to_string()), (1, 1));
    assert_eq!(agent_rank(&snapshot, &"missing".to_string()), (0, 0));
    assert_eq!(
        workspace_group(&snapshot, &"pane_2".to_string()),
        Some(("ws_2".to_string(), "second".to_string()))
    );
    assert_eq!(workspace_group(&snapshot, &"missing".to_string()), None);
}

fn endpoints(federated: bool) -> Vec<ClientShellEndpoint> {
    let mut endpoints = vec![ClientShellEndpoint {
        endpoint_id: ClientEndpointId::Local,
        label: "laptop".into(),
        snapshot: Some(two_spaces()),
        stale: false,
    }];
    if federated {
        endpoints.push(ClientShellEndpoint {
            endpoint_id: ClientEndpointId::Remote(7),
            label: "server".into(),
            snapshot: Some(two_spaces()),
            stale: false,
        });
    }
    endpoints
}

#[test]
fn endpoint_group_prefixes_machine_label_when_federated() {
    let single = endpoints(false);
    let (key, label) = endpoint_group(&single, ClientEndpointId::Local, &"pane_1".to_string(), false).unwrap();
    assert_eq!(key.endpoint_id, ClientEndpointId::Local);
    assert_eq!(key.workspace_id, "ws_1");
    assert_eq!(label, "client-shell");
    let several = endpoints(true);
    let (key, label) = endpoint_group(&several, ClientEndpointId::Remote(7), &"pane_2".to_string(), true).unwrap();
    assert_eq!(key.endpoint_id, ClientEndpointId::Remote(7));
    assert_eq!(label, "server · second");
    assert!(endpoint_group(&several, ClientEndpointId::Remote(8), &"pane_2".to_string(), true).is_none());
    assert_eq!(endpoint_rank(&several, ClientEndpointId::Remote(7), &"pane_2".to_string()), (1, 1));
    assert_eq!(endpoint_rank(&several, ClientEndpointId::Remote(8), &"pane_2".to_string()), (0, 0));
}

#[test]
fn displayed_pane_ids_follow_the_grouped_panel() {
    let mut snapshot = two_spaces();
    snapshot.agents.push(agent("pane_3", "ws_1", 1, 1));
    let ids = vec!["pane_1".to_string(), "pane_2".to_string(), "pane_3".to_string()];
    let grouped = displayed_agent_pane_ids(&snapshot, &config(true, AgentPanelSort::Spaces), ids.clone());
    assert_eq!(grouped, ["pane_1", "pane_3", "pane_2"]);
    let flat = displayed_agent_pane_ids(&snapshot, &config(false, AgentPanelSort::Spaces), ids);
    assert_eq!(flat, ["pane_1", "pane_2", "pane_3"]);
}

#[test]
fn displayed_targets_group_by_machine_and_space() {
    let several = endpoints(true);
    let targets = vec![
        AggregateAgentTarget { endpoint_id: ClientEndpointId::Local, pane_id: "pane_1".into() },
        AggregateAgentTarget { endpoint_id: ClientEndpointId::Remote(7), pane_id: "pane_1".into() },
        AggregateAgentTarget { endpoint_id: ClientEndpointId::Local, pane_id: "pane_2".into() },
    ];
    let shown = displayed_agent_targets(&several, &config(true, AgentPanelSort::Spaces), targets);
    let shown: Vec<(ClientEndpointId, String)> = shown.into_iter().map(|t| (t.endpoint_id, t.pane_id)).collect();
    assert_eq!(
        shown,
        [
            (ClientEndpointId::Local, "pane_1".to_string()),
            (ClientEndpointId::Remote(7), "pane_1".to_string()),
            (ClientEndpointId::Local, "pane_2".to_string()),
        ]
    );
}

#[test]
fn group_header_is_cut_to_the_rect_and_skips_its_blank_line() {
    let rect = Rect { x: 2, y: 5, width: 3, height: 2 };
    let config = config(true, AgentPanelSort::Spaces);
    let cells = render_group_header(rect, &"second".to_string(), true, &config);
    assert_eq!(
        cells,
        [
            HeaderCell { x: 2, y: 6, symbol: 's', fg: Color::Gray, bold: true },
            HeaderCell { x: 3, y: 6, symbol: 'e', fg: Color::Gray, bold: true },
            HeaderCell { x: 4, y: 6, symbol: 'c', fg: Color::Gray, bold: true },
        ]
    );
    let short = Rect { x: 0, y: 5, width: 10, height: 1 };
    assert!(render_group_header(short, &"second".to_string(), true, &config).is_empty());
    assert_eq!(render_group_header(short, &"ab".to_string(), false, &config).len(), 2);
}

fn token(kind: ResolvedTokenKind, text: &str) -> ResolvedToken {
    ResolvedToken { kind, text: text.into() }
}

fn texts(rows: &[Vec<ResolvedToken>]) -> Vec<Vec<String>> {
    rows.iter().map(|r| r.iter().map(|t| t.text.clone()).collect()).collect()
}

#[test]
fn lone_icon_rows_merge_into_the_next_row() {
    let rows = vec![
        vec![token(ResolvedTokenKind::StateIcon, "●")],
        vec![token(ResolvedTokenKind::Text, "coder"), token(ResolvedTokenKind::Text, "idle")],
        vec![token(ResolvedTokenKind::Text, "tokens")],
        vec![token(ResolvedTokenKind::StateIcon, "◐")],
    ];
    let merged = merge_lone_icon_rows(rows);
    assert_eq!(texts(&merged), [vec!["●", "coder", "idle"], vec!["tokens"], vec!["◐"]]);
    assert!(merge_lone_icon_rows(Vec::new()).is_empty());
}
