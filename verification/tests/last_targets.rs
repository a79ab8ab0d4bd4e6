use client_shell::agent_navigation::KeybindAction;
use client_shell::model::{
    AgentPanelSort, ClientEndpointId, ClientShellConfig, ClientShellSnapshot, Color, Palette, ShellHitMap, TabInfo,
    WorkspaceInfo,
};
use client_shell::shell::{ClientShellAction, ClientShellInput, ClientShellState, Method};

fn config() -> ClientShellConfig {
    ClientShellConfig {
        group_by_space: false,
        agent_panel_sort: AgentPanelSort::Spaces,
        navigation_preview: false,
        palette: Palette {
            overlay0: Color::DarkGray,
            overlay1: Color::Gray,
            active_row_bg: Color::Indexed(236),
            selection_bg: Color::Reset,
        },
    }
}

fn workspace_of(tab: &str) -> &'static str {
    if tab == "tab_2" {
        "ws_2"
    } else {
        "ws_1"
    }
}

/// Two spaces: ws_1 (tab_1, tab_1b) and ws_2 (tab_2). `focus` names the focused tab.
fn projected(focus: &str) -> ClientShellSnapshot {
    ClientShellSnapshot {
        focused_workspace_id: Some(workspace_of(focus).into()),
        focused_tab_id: Some(focus.into()),
        focused_pane_id: None,
        workspaces: ["ws_1", "ws_2"]
            .iter()
            .map(|id| WorkspaceInfo { workspace_id: (*id).into(), label: (*id).into() })
            .collect(),
        tabs: ["tab_1", "tab_1b", "tab_2"]
            .iter()
            .map(|id| TabInfo { tab_id: (*id).into(), workspace_id: workspace_of(id).into() })
            .collect(),
        panes: Vec::new(),
        agents: Vec::new(),
    }
}

fn empty_hits() -> ShellHitMap {
    ShellHitMap { agents: Vec::new(), endpoint_agents: Vec::new(), workspaces: Vec::new(), agent_max_scroll: 0 }
}

fn state_focused_on(focus: &str) -> ClientShellState {
    let mut state = ClientShellState::new(config(), ClientEndpointId::Local, empty_hits());
    state.set_snapshot(projected(focus));
    state
}

fn focus(state: &mut ClientShellState, tab: &str) {
    state.set_snapshot(projected(tab));
}

/// Runs a last-target binding the way the shell does: the method, if any,
/// goes to the active machine.
fn run(state: &mut ClientShellState, action: KeybindAction) -> Option<String> {
    let snapshot = state.snapshot.as_ref().unwrap();
    let method = match action {
        KeybindAction::LastWorkspace => state.last_workspace_method(snapshot),
        KeybindAction::LastTab => state.last_tab_method(snapshot),
        other => panic!("unexpected binding {other:?}"),
    };
    let mut outcome = ClientShellInput::new();
    if let Some(method) = method {
        outcome.actions.push(ClientShellAction::Endpoint { endpoint_id: ClientEndpointId::Local, method });
    }
    match outcome.actions.as_slice() {
        [] => None,
        [ClientShellAction::Endpoint { method, .. }] => match method {
            Method::WorkspaceFocus { workspace_id } => Some(format!("workspace:{workspace_id}")),
            Method::TabFocus { tab_id } => Some(format!("tab:{tab_id}")),
            other => panic!("unexpected method {other:?}"),
        },
        other => panic!("unexpected actions {other:?}"),
    }
}

#[test]
fn last_workspace_toggles_between_the_two_most_recent_spaces() {
    let mut state = state_focused_on("tab_1");
    assert_eq!(run(&mut state, KeybindAction::LastWorkspace), None);

    focus(&mut state, "tab_2");
    assert_eq!(run(&mut state, KeybindAction::LastWorkspace), Some("workspace:ws_1".into()));

    focus(&mut state, "tab_1");
    assert_eq!(run(&mut state, KeybindAction::LastWorkspace), Some("workspace:ws_2".into()));
}

#[test]
fn last_workspace_ignores_a_space_that_no_longer_exists() {
    let mut state = state_focused_on("tab_1");
    focus(&mut state, "tab_2");
    let mut without_ws_1 = projected("tab_2");
    without_ws_1.workspaces.retain(|ws| ws.workspace_id != "ws_1");
    without_ws_1.tabs.retain(|tab| tab.workspace_id != "ws_1");
    state.set_snapshot(without_ws_1);
    assert_eq!(run(&mut state, KeybindAction::LastWorkspace), None);
}

#[test]
fn last_tab_toggles_within_the_current_space() {
    let mut state = state_focused_on("tab_1");
    assert_eq!(run(&mut state, KeybindAction::LastTab), None);

    focus(&mut state, "tab_1b");
    assert_eq!(run(&mut state, KeybindAction::LastTab), Some("tab:tab_1".into()));

    focus(&mut state, "tab_1");
    assert_eq!(run(&mut state, KeybindAction::LastTab), Some("tab:tab_1b".into()));
}

#[test]
fn last_tab_is_remembered_per_space() {
    let mut state = state_focused_on("tab_1");
    focus(&mut state, "tab_1b");
    // Switching spaces does not count as a tab change inside ws_1 or ws_2.
    focus(&mut state, "tab_2");
    assert_eq!(run(&mut state, KeybindAction::LastTab), None);
    focus(&mut state, "tab_1b");
    assert_eq!(run(&mut state, KeybindAction::LastTab), Some("tab:tab_1".into()));
}

#[test]
fn reset_forgets_the_history() {
    let mut state = state_focused_on("tab_1");
    focus(&mut state, "tab_1b");
    focus(&mut state, "tab_2");
    state.reset_last_targets();
    assert_eq!(run(&mut state, KeybindAction::LastWorkspace), None);
    focus(&mut state, "tab_1b");
    assert_eq!(run(&mut state, KeybindAction::LastTab), None);
}

#[test]
fn last_tab_is_not_offered_when_it_is_focused_or_gone() {
    let mut state = state_focused_on("tab_1");
    focus(&mut state, "tab_1b");
    let mut without_tab_1 = projected("tab_1b");
    without_tab_1.tabs.retain(|tab| tab.tab_id != "tab_1");
    assert!(state.last_tab_method(&without_tab_1).is_none());
    assert!(state.last_tab_method(&projected("tab_1")).is_none());
}

#[test]
fn the_first_snapshot_records_nothing() {
    let mut state = ClientShellState::new(config(), ClientEndpointId::Local, empty_hits());
    state.track_last_targets(&projected("tab_2"));
    assert!(state.last_workspace_method(&projected("tab_2")).is_none());
}
