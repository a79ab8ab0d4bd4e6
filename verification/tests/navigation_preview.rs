use client_shell::agent_groups::AggregateAgentTarget;
use client_shell::agent_navigation::NavigationKey;
use client_shell::model::{
    AgentInfo, AgentPanelSort, ClientEndpointId, ClientShellConfig, ClientShellEndpoint, ClientShellSnapshot, Color,
    PaneInfo, Palette, Rect, ShellHitMap, TabInfo, WorkspaceHit, WorkspaceInfo,
};
use client_shell::shell::{
    ClientShellAction, ClientShellInput, ClientShellMode, ClientShellState, Method, WorkspaceNavigationTarget,
};

fn config(navigation_preview: bool) -> ClientShellConfig {
    ClientShellConfig {
        group_by_space: false,
        agent_panel_sort: AgentPanelSort::Spaces,
        navigation_preview,
        palette: Palette {
            overlay0: Color::DarkGray,
            overlay1: Color::Gray,
            active_row_bg: Color::Indexed(236),
            selection_bg: Color::Reset,
        },
    }
}

fn agent(pane_id: &str, seq: u64) -> AgentInfo {
    AgentInfo { pane_id: pane_id.into(), workspace_id: "ws_1".into(), status_priority: 1, state_change_seq: seq }
}

fn preview_snapshot() -> ClientShellSnapshot {
    ClientShellSnapshot {
        focused_workspace_id: Some("ws_1".into()),
        focused_tab_id: Some("tab_1".into()),
        focused_pane_id: Some("pane_1".into()),
        workspaces: vec![
            WorkspaceInfo { workspace_id: "ws_1".into(), label: "client-shell".into() },
            WorkspaceInfo { workspace_id: "ws_2".into(), label: "client-shell".into() },
        ],
        tabs: vec![TabInfo { tab_id: "tab_1".into(), workspace_id: "ws_1".into() }],
        panes: vec![PaneInfo { pane_id: "pane_1".into() }, PaneInfo { pane_id: "pane_2".into() }],
        agents: vec![agent("pane_1", 1), agent("pane_2", 2)],
    }
}

fn preview_state(enabled: bool) -> ClientShellState {
    let hits = ShellHitMap {
        agents: vec![
            (Rect { x: 0, y: 3, width: 24, height: 1 }, "pane_1".to_string()),
            (Rect { x: 0, y: 4, width: 24, height: 1 }, "pane_2".to_string()),
        ],
        endpoint_agents: Vec::new(),
        workspaces: vec![
            WorkspaceHit {
                rect: Rect { x: 0, y: 0, width: 24, height: 1 },
                endpoint_id: ClientEndpointId::Local,
                workspace_id: "ws_1".into(),
            },
            WorkspaceHit {
                rect: Rect { x: 0, y: 1, width: 24, height: 1 },
                endpoint_id: ClientEndpointId::Local,
                workspace_id: "ws_2".into(),
            },
        ],
        agent_max_scroll: 0,
    };
    let mut state = ClientShellState::new(config(enabled), ClientEndpointId::Local, hits);
    state.set_snapshot(preview_snapshot());
    state.endpoints = vec![ClientShellEndpoint {
        endpoint_id: ClientEndpointId::Local,
        label: "local".into(),
        snapshot: Some(preview_snapshot()),
        stale: false,
    }];
    state.agent_targets = ["pane_1", "pane_2"]
        .iter()
        .map(|p| AggregateAgentTarget { endpoint_id: ClientEndpointId::Local, pane_id: p.to_string() })
        .collect();
    state
}

fn workspace_focus_ids(outcome: &ClientShellInput) -> Vec<String> {
    outcome
        .actions
        .iter()
        .filter_map(|action| match action {
            ClientShellAction::Endpoint { method: Method::WorkspaceFocus { workspace_id }, .. } => {
                Some(workspace_id.clone())
            }
            _ => None,
        })
        .collect()
}

fn pane_focus_ids(outcome: &ClientShellInput) -> Vec<String> {
    outcome
        .actions
        .iter()
        .filter_map(|action| match action {
            ClientShellAction::Endpoint { method: Method::PaneFocus { pane_id }, .. } => Some(pane_id.clone()),
            _ => None,
        })
        .collect()
}

// Space navigation itself (selecting, moving, leaving) belongs to the shell;
// these helpers play its part around the preview calls of this library.

fn enter_workspace_navigation(state: &mut ClientShellState) {
    state.navigate_workspace_id =
        Some(WorkspaceNavigationTarget { endpoint_id: ClientEndpointId::Local, workspace_id: "ws_1".into() });
    state.begin_workspace_navigation_preview();
    state.mode = ClientShellMode::Navigate;
}

fn move_workspace_down(state: &mut ClientShellState) -> ClientShellInput {
    state.navigate_workspace_id =
        Some(WorkspaceNavigationTarget { endpoint_id: ClientEndpointId::Local, workspace_id: "ws_2".into() });
    let mut outcome = ClientShellInput::new();
    state.preview_navigate_workspace(&mut outcome);
    outcome
}

fn leave_workspace_navigation(state: &mut ClientShellState) -> ClientShellInput {
    let mut outcome = ClientShellInput::new();
    state.cancel_navigation_preview(&mut outcome);
    state.mode = ClientShellMode::Terminal;
    state.navigate_workspace_id = None;
    outcome
}

fn accept_workspace_navigation(state: &mut ClientShellState) -> ClientShellInput {
    let mut outcome = ClientShellInput::new();
    let target = state.navigate_workspace_id.take().unwrap();
    state.focus_or_activate(
        target.endpoint_id,
        client_shell::shell::ClientEndpointFocusTarget::Workspace(target.workspace_id),
        &mut outcome,
    );
    state.commit_navigation_preview();
    state.mode = ClientShellMode::Terminal;
    outcome
}

fn press(state: &mut ClientShellState, key: NavigationKey) -> ClientShellInput {
    let mut outcome = ClientShellInput::new();
    state.route_navigate_agents_key(&key, &mut outcome);
    outcome
}

fn key() -> NavigationKey {
    NavigationKey { leaves: false, up: false, down: false, enter: false, binding: None }
}

fn enter_agent_navigation(state: &mut ClientShellState) {
    let mut outcome = ClientShellInput::new();
    state.enter_agent_navigation(&mut outcome);
}

#[test]
fn workspace_navigation_previews_selection_and_restores_origin_on_escape() {
    let mut state = preview_state(true);
    enter_workspace_navigation(&mut state);
    assert!(state.navigation_preview_origin.is_some());

    let down = move_workspace_down(&mut state);
    assert_eq!(workspace_focus_ids(&down), vec!["ws_2"]);

    let esc = leave_workspace_navigation(&mut state);
    assert_eq!(workspace_focus_ids(&esc), vec!["ws_1"]);
    assert!(state.navigation_preview_origin.is_none());
}

#[test]
fn workspace_navigation_enter_keeps_previewed_focus() {
    let mut state = preview_state(true);
    enter_workspace_navigation(&mut state);
    move_workspace_down(&mut state);

    let enter = accept_workspace_navigation(&mut state);
    assert_eq!(workspace_focus_ids(&enter), vec!["ws_2"]);
    assert!(state.navigation_preview_origin.is_none());
}

#[test]
fn workspace_navigation_does_not_preview_when_disabled() {
    let mut state = preview_state(false);
    enter_workspace_navigation(&mut state);
    let down = move_workspace_down(&mut state);
    assert!(down.actions.is_empty());
    let esc = leave_workspace_navigation(&mut state);
    assert!(esc.actions.is_empty());
}

#[test]
fn workspace_navigation_escape_without_moving_sends_nothing() {
    let mut state = preview_state(true);
    enter_workspace_navigation(&mut state);
    let esc = leave_workspace_navigation(&mut state);
    assert!(esc.actions.is_empty());
}

#[test]
fn agent_navigation_previews_selection_and_restores_origin_on_escape() {
    let mut state = preview_state(true);
    enter_agent_navigation(&mut state);
    assert_eq!(state.mode, ClientShellMode::NavigateAgents);

    let down = press(&mut state, NavigationKey { down: true, ..key() });
    assert_eq!(pane_focus_ids(&down), vec!["pane_2"]);

    let esc = press(&mut state, NavigationKey { leaves: true, ..key() });
    assert_eq!(pane_focus_ids(&esc), vec!["pane_1"]);
    assert_eq!(state.mode, ClientShellMode::Terminal);
}

#[test]
fn agent_navigation_enter_keeps_previewed_focus() {
    let mut state = preview_state(true);
    enter_agent_navigation(&mut state);
    press(&mut state, NavigationKey { down: true, ..key() });

    let enter = press(&mut state, NavigationKey { enter: true, ..key() });
    assert_eq!(pane_focus_ids(&enter), vec!["pane_2"]);
    assert_eq!(state.mode, ClientShellMode::Terminal);
    assert!(state.navigation_preview_origin.is_none());
}

#[test]
fn agent_navigation_does_not_preview_when_disabled() {
    let mut state = preview_state(false);
    enter_agent_navigation(&mut state);
    let down = press(&mut state, NavigationKey { down: true, ..key() });
    assert!(down.actions.is_empty());
}

#[test]
fn preview_origin_row_stays_painted_while_previewing() {
    let mut state = preview_state(true);
    enter_workspace_navigation(&mut state);
    assert_eq!(state.render_navigation_preview_origin(), None);
    move_workspace_down(&mut state);
    assert_eq!(state.render_navigation_preview_origin(), Some(Rect { x: 0, y: 0, width: 24, height: 1 }));
    let overlays = state.render_navigation_overlays();
    assert_eq!(overlays, [(Rect { x: 0, y: 0, width: 24, height: 1 }, Color::Indexed(236))]);
}

#[test]
fn agent_preview_keeps_origin_row_and_selection_painted() {
    let mut state = preview_state(true);
    enter_agent_navigation(&mut state);
    press(&mut state, NavigationKey { down: true, ..key() });
    let overlays = state.render_navigation_overlays();
    assert_eq!(
        overlays,
        [
            (Rect { x: 0, y: 3, width: 24, height: 1 }, Color::Indexed(236)),
            (Rect { x: 0, y: 4, width: 24, height: 1 }, Color::Indexed(236)),
        ]
    );
}

#[test]
fn a_preview_on_another_machine_is_not_sent() {
    let mut state = preview_state(true);
    enter_agent_navigation(&mut state);
    let mut outcome = ClientShellInput::new();
    state.preview_navigation_focus(
        ClientEndpointId::Remote(2),
        client_shell::shell::ClientEndpointFocusTarget::Pane("pane_2".into()),
        &mut outcome,
    );
    assert!(outcome.actions.is_empty());
    assert!(!state.navigation_preview_origin.as_ref().unwrap().previewed);
}

#[test]
fn cancel_does_not_restore_a_pane_that_is_gone() {
    let mut state = preview_state(true);
    enter_agent_navigation(&mut state);
    press(&mut state, NavigationKey { down: true, ..key() });
    let mut snapshot = preview_snapshot();
    snapshot.panes.retain(|p| p.pane_id != "pane_1");
    state.snapshot = Some(snapshot);
    let esc = press(&mut state, NavigationKey { leaves: true, ..key() });
    assert!(esc.actions.is_empty());
}
