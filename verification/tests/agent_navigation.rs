use client_shell::agent_groups::AggregateAgentTarget;
use client_shell::agent_navigation::{status_bar_segments, AgentNavigationTarget, KeybindAction, NavigationKey};
use client_shell::model::{
    AgentInfo, AgentPanelSort, ClientEndpointId, ClientShellConfig, ClientShellEndpoint, ClientShellSnapshot, Color,
    PaneInfo, Palette, Rect, ShellHitMap, TabInfo, WorkspaceInfo,
};
use client_shell::navigation_preview::NavigationPreviewRestore;
use client_shell::shell::{
    ClientShellAction, ClientShellInput, ClientShellMode, ClientShellState, Method,
};

fn config() -> ClientShellConfig {
    ClientShellConfig {
        group_by_space: false,
        agent_panel_sort: AgentPanelSort::Spaces,
        navigation_preview: false,
        palette: Palette {
            overlay0: Color::DarkGray,
            overlay1: Color::Gray,
            active_row_bg: Color::Indexed(236),
            selection_bg: Color::Reset,
        },
    }
}

fn agent(pane_id: &str, seq: u64) -> AgentInfo {
    AgentInfo { pane_id: pane_id.into(), workspace_id: "ws_1".into(), status_priority: 1, state_change_seq: seq }
}

/// One space ws_1 with tab_1 and pane_1 (focused); `agents` name the agents' panes.
fn snapshot(agents: &[(&str, u64)]) -> ClientShellSnapshot {
    let mut panes = vec![PaneInfo { pane_id: "pane_1".into() }];
    for (pane_id, _) in agents {
        if *pane_id != "pane_1" {
            panes.push(PaneInfo { pane_id: (*pane_id).into() });
        }
    }
    ClientShellSnapshot {
        focused_workspace_id: Some("ws_1".into()),
        focused_tab_id: Some("tab_1".into()),
        focused_pane_id: Some("pane_1".into()),
        workspaces: vec![WorkspaceInfo { workspace_id: "ws_1".into(), label: "client-shell".into() }],
        tabs: vec![TabInfo { tab_id: "tab_1".into(), workspace_id: "ws_1".into() }],
        panes,
        agents: agents.iter().map(|(pane_id, seq)| agent(pane_id, *seq)).collect(),
    }
}

fn hits(panes: &[&str]) -> ShellHitMap {
    ShellHitMap {
        agents: panes
            .iter()
            .enumerate()
            .map(|(i, pane_id)| (Rect { x: 0, y: 3 + i as u16, width: 24, height: 1 }, pane_id.to_string()))
            .collect(),
        endpoint_agents: Vec::new(),
        workspaces: Vec::new(),
        agent_max_scroll: 0,
    }
}

fn state_with(agents: &[(&str, u64)]) -> ClientShellState {
    let panes: Vec<&str> = agents.iter().map(|(p, _)| *p).collect();
    let mut state = ClientShellState::new(config(), ClientEndpointId::Local, hits(&panes));
    state.set_snapshot(snapshot(agents));
    state.endpoints = vec![ClientShellEndpoint {
        endpoint_id: ClientEndpointId::Local,
        label: "local".into(),
        snapshot: Some(snapshot(agents)),
        stale: false,
    }];
    state.agent_targets = panes
        .iter()
        .map(|p| AggregateAgentTarget { endpoint_id: ClientEndpointId::Local, pane_id: p.to_string() })
        .collect();
    state
}

fn agent_state() -> ClientShellState {
    state_with(&[("pane_1", 1), ("pane_2", 2)])
}

fn key() -> NavigationKey {
    NavigationKey { leaves: false, up: false, down: false, enter: false, binding: None }
}

fn press(state: &mut ClientShellState, key: NavigationKey) -> (ClientShellInput, Option<KeybindAction>) {
    let mut outcome = ClientShellInput::new();
    let run = state.route_navigate_agents_key(&key, &mut outcome);
    (outcome, run)
}

fn selected_pane(state: &ClientShellState) -> Option<&str> {
    state.navigate_agent.as_ref().map(|target| target.pane_id.as_str())
}

fn agent_rect(state: &ClientShellState, pane_id: &str) -> Rect {
    state.hits.agents.iter().find(|(_, hit)| hit == pane_id).map(|(rect, _)| *rect).expect("visible agent row")
}

fn enter_agent_navigation(state: &mut ClientShellState) {
    let mut outcome = ClientShellInput::new();
    state.enter_agent_navigation(&mut outcome);
    assert!(outcome.actions.is_empty());
    assert!(outcome.repaint);
    assert_eq!(state.mode, ClientShellMode::NavigateAgents);
}

#[test]
fn prefix_a_enters_agent_navigation_and_enter_focuses_selected_agent() {
    let mut state = agent_state();
    enter_agent_navigation(&mut state);
    assert_eq!(selected_pane(&state), Some("pane_1"));

    let (down, _) = press(&mut state, NavigationKey { down: true, ..key() });
    assert!(down.actions.is_empty());
    assert_eq!(selected_pane(&state), Some("pane_2"));

    let segments = status_bar_segments(1u8, 2u8, 3u8);
    assert!(segments.iter().any(|(text, _)| text.contains("AGENTS")));
    let overlays = state.render_navigation_overlays();
    let selected = agent_rect(&state, "pane_2");
    let palette = &state.config.palette;
    let selection = if palette.selection_bg == Color::Reset { palette.active_row_bg } else { palette.selection_bg };
    assert_eq!(overlays, [(selected, selection)]);

    let (focus, _) = press(&mut state, NavigationKey { enter: true, ..key() });
    let [ClientShellAction::Endpoint { method, .. }] = &focus.actions[..] else {
        panic!("selected agent should focus through endpoint API");
    };
    assert!(matches!(method, Method::PaneFocus { pane_id } if pane_id == "pane_2"));
    assert_eq!(state.mode, ClientShellMode::Terminal);
    assert!(state.navigate_agent.is_none());
}

#[test]
fn escape_leaves_agent_navigation_without_focusing() {
    let mut state = agent_state();
    enter_agent_navigation(&mut state);
    let (esc, _) = press(&mut state, NavigationKey { leaves: true, ..key() });
    assert!(esc.actions.is_empty());
    assert_eq!(state.mode, ClientShellMode::Terminal);
    assert!(state.navigate_agent.is_none());
}

#[test]
fn agent_selection_wraps_in_both_directions() {
    let mut state = agent_state();
    enter_agent_navigation(&mut state);
    assert_eq!(selected_pane(&state), Some("pane_1"));
    press(&mut state, NavigationKey { up: true, ..key() });
    assert_eq!(selected_pane(&state), Some("pane_2"));
    press(&mut state, NavigationKey { down: true, ..key() });
    assert_eq!(selected_pane(&state), Some("pane_1"));
}

#[test]
fn other_prefix_bindings_leave_agent_navigation_and_run() {
    // The binding is handed back for the shell to run once agent navigation is left.
    let mut state = agent_state();
    enter_agent_navigation(&mut state);
    let (switch, run) = press(&mut state, NavigationKey { binding: Some(KeybindAction::NavigateWorkspaces), ..key() });
    assert_eq!(run, Some(KeybindAction::NavigateWorkspaces));
    assert!(switch.actions.is_empty());
    assert!(switch.repaint);
    assert_eq!(state.mode, ClientShellMode::Terminal);
    assert!(state.navigate_agent.is_none());
}

#[test]
fn failed_focus_keeps_agent_navigation() {
    let mut state = agent_state();
    state.config.navigation_preview = true;
    enter_agent_navigation(&mut state);
    press(&mut state, NavigationKey { down: true, ..key() });
    let mut outcome = ClientShellInput::new();
    state.accept_navigate_agent_when(false, &mut outcome);
    let [ClientShellAction::Endpoint { method, .. }] = &outcome.actions[..] else {
        panic!("the focus is still requested");
    };
    assert!(matches!(method, Method::PaneFocus { pane_id } if pane_id == "pane_2"));
    assert!(outcome.repaint);
    assert_eq!(state.mode, ClientShellMode::NavigateAgents);
    assert_eq!(selected_pane(&state), Some("pane_2"));
    assert!(state.navigation_preview_origin.is_some());
}

#[test]
fn enter_with_no_agents_exits_without_action() {
    let mut state = state_with(&[]);
    enter_agent_navigation(&mut state);
    assert_eq!(selected_pane(&state), None);
    let (enter, _) = press(&mut state, NavigationKey { enter: true, ..key() });
    assert!(enter.actions.is_empty());
    assert_eq!(state.mode, ClientShellMode::Terminal);
}

#[test]
fn navigation_leaves_to_copy_mode_when_copy_mode_was_active() {
    let mut state = agent_state();
    state.in_copy_mode = true;
    enter_agent_navigation(&mut state);
    press(&mut state, NavigationKey { leaves: true, ..key() });
    assert_eq!(state.mode, ClientShellMode::Copy);
}

#[test]
fn unbound_keys_are_ignored() {
    let mut state = agent_state();
    enter_agent_navigation(&mut state);
    let (outcome, run) = press(&mut state, key());
    assert!(outcome.actions.is_empty());
    assert!(!outcome.repaint);
    assert_eq!(run, None);
    assert_eq!(state.mode, ClientShellMode::NavigateAgents);
    assert_eq!(selected_pane(&state), Some("pane_1"));
}

#[test]
fn enter_focuses_the_agent_in_the_focused_pane() {
    let mut state = state_with(&[("pane_2", 1), ("pane_1", 2)]);
    enter_agent_navigation(&mut state);
    assert_eq!(selected_pane(&state), Some("pane_1"));
}

#[test]
fn a_selection_gone_from_the_panel_is_not_focused() {
    let mut state = agent_state();
    enter_agent_navigation(&mut state);
    state.agent_targets.truncate(1);
    state.navigate_agent = Some(AgentNavigationTarget { endpoint_id: ClientEndpointId::Local, pane_id: "pane_2".into() });
    let (enter, _) = press(&mut state, NavigationKey { enter: true, ..key() });
    assert!(enter.actions.is_empty());
    assert!(enter.repaint);
    assert_eq!(state.mode, ClientShellMode::Terminal);
}

#[test]
fn moving_to_a_hidden_row_scrolls_the_panel() {
    let mut state = state_with(&[("pane_1", 1), ("pane_2", 2), ("pane_3", 3)]);
    state.hits.agents.truncate(1);
    state.hits.agent_max_scroll = 1;
    enter_agent_navigation(&mut state);
    state.move_navigate_agent(1);
    assert_eq!(state.agent_scroll, 1);
    state.move_navigate_agent(1);
    assert_eq!(selected_pane(&state), Some("pane_3"));
    assert_eq!(state.agent_scroll, 1);
    state.move_navigate_agent(-3);
    assert_eq!(selected_pane(&state), Some("pane_3"));
}

#[test]
fn agent_row_rect_falls_back_to_the_machines_panel() {
    let mut state = agent_state();
    let remote_rect = Rect { x: 1, y: 9, width: 2, height: 1 };
    state.hits.endpoint_agents.push((remote_rect, ClientEndpointId::Remote(3), "pane_1".into()));
    let local = AgentNavigationTarget { endpoint_id: ClientEndpointId::Local, pane_id: "pane_1".into() };
    assert_eq!(state.agent_row_rect(&local), Some(Rect { x: 0, y: 3, width: 24, height: 1 }));
    let remote = AgentNavigationTarget { endpoint_id: ClientEndpointId::Remote(3), pane_id: "pane_1".into() };
    assert_eq!(state.agent_row_rect(&remote), Some(remote_rect));
    let missing = AgentNavigationTarget { endpoint_id: ClientEndpointId::Remote(4), pane_id: "pane_1".into() };
    assert_eq!(state.agent_row_rect(&missing), None);
}

#[test]
fn status_bar_shows_the_agent_keys() {
    let segments = status_bar_segments('m', 'b', 'k');
    let texts: Vec<(&str, char)> = segments.iter().map(|(t, s)| (t.as_str(), *s)).collect();
    assert_eq!(
        texts,
        [(" AGENTS ", 'm'), (" esc back  ", 'b'), ("↑/↓", 'k'), (" agent  ", 'b'), ("enter", 'k'), (" focus", 'b')]
    );
}

#[test]
fn preview_origin_starts_unpreviewed() {
    let mut state = agent_state();
    state.config.navigation_preview = true;
    enter_agent_navigation(&mut state);
    let origin = state.navigation_preview_origin.as_ref().unwrap();
    assert!(!origin.previewed);
    assert!(matches!(&origin.restore, NavigationPreviewRestore::Pane(p) if p == "pane_1"));
}
