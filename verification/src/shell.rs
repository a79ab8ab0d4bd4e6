//! The client shell's state as the navigation, preview and focus-history logic
//! sees it, and what a key press hands back to the caller.
use vstd::prelude::*;
use crate::model::{ClientEndpointId, ClientShellConfig, ShellHitMap, ClientShellSnapshot, ClientShellEndpoint};
use crate::agent_groups::AggregateAgentTarget;
use crate::last_targets::LastTargets;
use crate::navigation_preview::NavigationPreviewOrigin;
use crate::agent_navigation::AgentNavigationTarget;

verus! {

/// What the shell's keys currently drive.
#[derive(PartialEq, Eq, Structural, Clone, Copy, Debug)]
pub enum ClientShellMode {
    /// Keys go to the focused pane.
    Terminal,
    /// Copy mode in the focused pane.
    Copy,
    /// Choosing a space.
    Navigate,
    /// Choosing an agent in the agents panel.
    NavigateAgents,
}

/// A request of the endpoint API.
#[derive(Debug)]
pub enum Method {
    WorkspaceFocus { workspace_id: String },
    TabFocus { tab_id: String },
    PaneFocus { pane_id: String },
}

/// What to focus on a machine.
#[derive(Debug)]
pub enum ClientEndpointFocusTarget {
    Workspace(String),
    Pane(String),
}

/// Something the caller must do for the shell.
#[derive(Debug)]
pub enum ClientShellAction {
    /// Send `method` to the machine `endpoint_id`.
    Endpoint { endpoint_id: ClientEndpointId, method: Method },
}

/// What handling input produced.
#[derive(Debug)]
pub struct ClientShellInput {
    /// The shell must be painted again.
    pub repaint: bool,
    pub actions: Vec<ClientShellAction>,
}

impl ClientShellInput {
    pub fn new() -> (r: ClientShellInput)
        ensures
            !r.repaint,
            r.actions@.len() == 0,
    {
        ClientShellInput { repaint: false, actions: Vec::new() }
    }
}

/// A space on a machine, as chosen in space navigation.
#[derive(Debug)]
pub struct WorkspaceNavigationTarget {
    pub endpoint_id: ClientEndpointId,
    pub workspace_id: String,
}

impl WorkspaceNavigationTarget {
    pub fn matches(&self, endpoint_id: ClientEndpointId, workspace_id: &String) -> (r: bool)
        ensures
            r == (self.endpoint_id == endpoint_id && self.workspace_id@ == workspace_id@),
    {
        self.endpoint_id == endpoint_id && self.workspace_id.eq(workspace_id)
    }
}

/// The client shell.
#[derive(Debug)]
pub struct ClientShellState {
    pub config: ClientShellConfig,
    /// The active machine's snapshot.
    pub snapshot: Option<ClientShellSnapshot>,
    pub active_endpoint_id: ClientEndpointId,
    pub endpoints: Vec<ClientShellEndpoint>,
    /// The online agents of all machines, in the agents panel's sort order.
    pub agent_targets: Vec<AggregateAgentTarget>,
    pub mode: ClientShellMode,
    /// Copy mode is active in the focused pane.
    pub in_copy_mode: bool,
    pub navigate_agent: Option<AgentNavigationTarget>,
    pub navigate_workspace_id: Option<WorkspaceNavigationTarget>,
    pub navigation_preview_origin: Option<NavigationPreviewOrigin>,
    pub last_targets: LastTargets,
    pub hits: ShellHitMap,
    pub agent_scroll: usize,
}

/// The request that focuses `target` on machine `endpoint_id`.
pub open spec fn focus_action(endpoint_id: ClientEndpointId, target: ClientEndpointFocusTarget) -> ClientShellAction {
    match target {
        ClientEndpointFocusTarget::Workspace(workspace_id) => ClientShellAction::Endpoint {
            endpoint_id,
            method: Method::WorkspaceFocus { workspace_id },
        },
        ClientEndpointFocusTarget::Pane(pane_id) => ClientShellAction::Endpoint { endpoint_id, method: Method::PaneFocus { pane_id } },
    }
}

/// The mode that input returns to after leaving a navigation mode.
pub open spec fn resume_mode(in_copy_mode: bool) -> ClientShellMode {
    if in_copy_mode {
        ClientShellMode::Copy
    } else {
        ClientShellMode::Terminal
    }
}

/// The fields that navigation never changes are the same in `a` and `b`.
pub open spec fn keeps_world(a: ClientShellState, b: ClientShellState) -> bool {
    &&& a.config == b.config
    &&& a.snapshot == b.snapshot
    &&& a.active_endpoint_id == b.active_endpoint_id
    &&& a.endpoints == b.endpoints
    &&& a.agent_targets == b.agent_targets
    &&& a.in_copy_mode == b.in_copy_mode
    &&& a.navigate_workspace_id == b.navigate_workspace_id
    &&& a.last_targets == b.last_targets
    &&& a.hits == b.hits
}

impl ClientShellState {
    /// A shell in terminal mode, with no snapshot, machines or history yet.
    pub fn new(config: ClientShellConfig, active_endpoint_id: ClientEndpointId, hits: ShellHitMap) -> (state: ClientShellState)
        ensures
            state.config == config,
            state.snapshot is None,
            state.active_endpoint_id == active_endpoint_id,
            state.endpoints@.len() == 0,
            state.agent_targets@.len() == 0,
            state.mode == ClientShellMode::Terminal,
            !state.in_copy_mode,
            state.navigate_agent is None,
            state.navigate_workspace_id is None,
            state.navigation_preview_origin is None,
            state.last_targets@.0 is None,
            state.last_targets@.1 == Map::<Seq<char>, Seq<char>>::empty(),
            state.hits == hits,
            state.agent_scroll == 0,
    {
        ClientShellState {
            config,
            snapshot: None,
            active_endpoint_id,
            endpoints: Vec::new(),
            agent_targets: Vec::new(),
            mode: ClientShellMode::Terminal,
            in_copy_mode: false,
            navigate_agent: None,
            navigate_workspace_id: None,
            navigation_preview_origin: None,
            last_targets: LastTargets::new(),
            hits,
            agent_scroll: 0,
        }
    }

    /// Focuses `target` on machine `endpoint_id`: the request is handed to the
    /// caller through `outcome`, and the focus counts as issued.
    pub fn focus_or_activate(&self, endpoint_id: ClientEndpointId, target: ClientEndpointFocusTarget, outcome: &mut ClientShellInput) -> (issued: bool)
        ensures
            issued,
            final(outcome).repaint == old(outcome).repaint,
            final(outcome).actions@ == old(outcome).actions@.push(focus_action(endpoint_id, target)),
    {
        let method = match target {
            ClientEndpointFocusTarget::Workspace(workspace_id) => Method::WorkspaceFocus { workspace_id },
            ClientEndpointFocusTarget::Pane(pane_id) => Method::PaneFocus { pane_id },
        };
        outcome.actions.push(ClientShellAction::Endpoint { endpoint_id, method });
        true
    }

    /// The mode to return to when a navigation mode ends.
    pub fn copy_or_terminal_mode(&self) -> (mode: ClientShellMode)
        ensures
            mode == resume_mode(self.in_copy_mode),
    {
        if self.in_copy_mode {
            ClientShellMode::Copy
        } else {
            ClientShellMode::Terminal
        }
    }
}

} // verus!
