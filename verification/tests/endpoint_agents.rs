use client_shell::agent_groups::AgentPanelItem;
use client_shell::endpoint_agents::{agent_rows, render_collapsed, render_expanded, AgentRow, AggregateAgentRow, EndpointAgentRow};
use client_shell::model::{
    AgentInfo, AgentPanelSort, ClientEndpointId, ClientShellConfig, ClientShellEndpoint, ClientShellSnapshot, Color,
    PaneInfo, Palette, Rect, TabInfo, WorkspaceInfo,
};

fn config(group_by_space: bool) -> ClientShellConfig {
    ClientShellConfig {
        group_by_space,
        agent_panel_sort: AgentPanelSort::Spaces,
        navigation_preview: false,
        palette: Palette {
            overlay0: Color::DarkGray,
            overlay1: Color::Gray,
            active_row_bg: Color::Indexed(236),
            selection_bg: Color::Reset,
        },
    }
}

fn row(pane_id: &str, focused: bool) -> AgentRow {
    AgentRow {
        pane_id: pane_id.into(),
        focused,
        status_icon: "●".into(),
        status_color: Color::Green,
        line_count: 2,
    }
}

fn aggregate(endpoint_id: ClientEndpointId, label: &str, stale: bool, pane_id: &str) -> AggregateAgentRow {
    AggregateAgentRow { endpoint_id, machine_label: label.into(), stale, pane_id: pane_id.into() }
}

#[test]
fn agent_rows_follow_the_aggregate_order_and_keep_focus_on_the_active_machine() {
    let rendered = vec![
        (ClientEndpointId::Local, row("pane_1", true)),
        (ClientEndpointId::Remote(2), row("pane_1", true)),
        (ClientEndpointId::Local, row("pane_2", false)),
    ];
    let ordered = vec![
        aggregate(ClientEndpointId::Remote(2), "server", true, "pane_1"),
        aggregate(ClientEndpointId::Local, "laptop", false, "pane_2"),
        aggregate(ClientEndpointId::Local, "laptop", false, "pane_1"),
        aggregate(ClientEndpointId::Local, "laptop", false, "pane_9"),
    ];
    let rows = agent_rows(rendered, &ordered, ClientEndpointId::Local);
    let shown: Vec<(ClientEndpointId, &str, bool, bool, &str)> = rows
        .iter()
        .map(|r| (r.endpoint_id, r.agent.pane_id.as_str(), r.agent.focused, r.stale, r.machine_label.as_str()))
        .collect();
    assert_eq!(
        shown,
        [
            (ClientEndpointId::Remote(2), "pane_1", false, true, "server"),
            (ClientEndpointId::Local, "pane_2", false, false, "laptop"),
            (ClientEndpointId::Local, "pane_1", true, false, "laptop"),
        ]
    );
}

#[test]
fn agent_rows_take_the_last_rendered_row_once() {
    let mut second = row("pane_1", false);
    second.line_count = 5;
    let rendered = vec![(ClientEndpointId::Local, row("pane_1", false)), (ClientEndpointId::Local, second)];
    let ordered = vec![
        aggregate(ClientEndpointId::Local, "laptop", false, "pane_1"),
        aggregate(ClientEndpointId::Local, "laptop", false, "pane_1"),
    ];
    let rows = agent_rows(rendered, &ordered, ClientEndpointId::Local);
    assert_eq!(rows.len(), 1);
    assert_eq!(rows[0].agent.line_count, 5);
}

fn endpoint_row(endpoint_id: ClientEndpointId, label: &str, stale: bool, pane_id: &str, focused: bool) -> EndpointAgentRow {
    EndpointAgentRow { endpoint_id, machine_label: label.into(), stale, agent: row(pane_id, focused) }
}

#[test]
fn collapsed_rows_show_machine_initial_and_icon() {
    let area = Rect { x: 1, y: 10, width: 2, height: 2 };
    let rows = vec![
        endpoint_row(ClientEndpointId::Local, "laptop", false, "pane_1", true),
        endpoint_row(ClientEndpointId::Remote(2), "", true, "pane_2", false),
        endpoint_row(ClientEndpointId::Local, "laptop", false, "pane_3", false),
    ];
    let cells = render_collapsed(area, rows, &config(false));
    assert_eq!(cells.len(), 2);
    assert_eq!(cells[0].rect, Rect { x: 1, y: 10, width: 2, height: 1 });
    assert!(cells[0].highlight);
    assert_eq!((cells[0].initial, cells[0].icon.as_str()), ('l', "●"));
    assert_eq!((cells[0].fg, cells[0].dim), (Color::Green, false));
    assert_eq!(cells[1].rect, Rect { x: 1, y: 11, width: 2, height: 1 });
    assert_eq!((cells[1].initial, cells[1].fg, cells[1].dim), ('?', Color::DarkGray, true));
    assert_eq!((cells[1].endpoint_id, cells[1].pane_id.as_str()), (ClientEndpointId::Remote(2), "pane_2"));
}

fn snapshot() -> ClientShellSnapshot {
    ClientShellSnapshot {
        focused_workspace_id: Some("ws_1".into()),
        focused_tab_id: Some("tab_1".into()),
        focused_pane_id: Some("pane_1".into()),
        workspaces: vec![
            WorkspaceInfo { workspace_id: "ws_1".into(), label: "client-shell".into() },
            WorkspaceInfo { workspace_id: "ws_2".into(), label: "second".into() },
        ],
        tabs: vec![TabInfo { tab_id: "tab_1".into(), workspace_id: "ws_1".into() }],
        panes: vec![PaneInfo { pane_id: "pane_1".into() }, PaneInfo { pane_id: "pane_2".into() }],
        agents: vec![
            AgentInfo { pane_id: "pane_1".into(), workspace_id: "ws_1".into(), status_priority: 1, state_change_seq: 1 },
            AgentInfo { pane_id: "pane_2".into(), workspace_id: "ws_2".into(), status_priority: 2, state_change_seq: 1 },
        ],
    }
}

fn labels(items: &[AgentPanelItem<EndpointAgentRow>]) -> Vec<String> {
    items
        .iter()
        .map(|item| match item {
            AgentPanelItem::Header { label, leading_blank } => format!("{}{label}", if *leading_blank { "+" } else { "" }),
            AgentPanelItem::Agent(row) => row.agent.pane_id.clone(),
        })
        .collect()
}

#[test]
fn expanded_panel_groups_by_machine_and_space() {
    let endpoints = vec![
        ClientShellEndpoint { endpoint_id: ClientEndpointId::Local, label: "laptop".into(), snapshot: Some(snapshot()), stale: false },
        ClientShellEndpoint { endpoint_id: ClientEndpointId::Remote(2), label: "server".into(), snapshot: None, stale: true },
    ];
    let rows = vec![
        endpoint_row(ClientEndpointId::Local, "laptop", false, "pane_1", false),
        endpoint_row(ClientEndpointId::Local, "laptop", false, "pane_2", false),
        endpoint_row(ClientEndpointId::Remote(2), "server", true, "pane_1", false),
    ];
    let items = render_expanded(&endpoints, rows, &config(true));
    // Groups in order of first appearance; the server has no snapshot, so its row has no group.
    assert_eq!(labels(&items), ["laptop · client-shell", "pane_1", "+laptop · second", "pane_2", "pane_1"]);
    assert_eq!(items[0].lines(|row| row.agent.line_count), 1);
    assert_eq!(items[2].lines(|row| row.agent.line_count), 2);
    assert_eq!(items[1].lines(|row| row.agent.line_count), 2);

    let rows = vec![endpoint_row(ClientEndpointId::Local, "laptop", false, "pane_1", false)];
    let flat = render_expanded(&endpoints, rows, &config(false));
    assert_eq!(labels(&flat), ["pane_1"]);
}
