//! Plain data the shell logic reads: endpoints, their snapshots, configuration,
//! screen rectangles and the hit map of the last composed frame.
use vstd::prelude::*;

verus! {

/// Which machine a value belongs to.
#[derive(PartialEq, Eq, Structural, Clone, Copy, Debug)]
pub enum ClientEndpointId {
    Local,
    Remote(u64),
}

/// A screen rectangle in terminal cells.
#[derive(PartialEq, Eq, Structural, Clone, Copy, Debug)]
pub struct Rect {
    pub x: u16,
    pub y: u16,
    pub width: u16,
    pub height: u16,
}

/// `a + b`, clamped at `u16::MAX`.
pub open spec fn sat_add_u16(a: int, b: int) -> int {
    if a + b > u16::MAX {
        u16::MAX as int
    } else {
        a + b
    }
}

/// The rectangle at (`x`, `y`) whose size is clamped so that it stays inside
/// the `u16` plane.
pub open spec fn rect_new(x: u16, y: u16, width: u16, height: u16) -> Rect {
    Rect {
        x,
        y,
        width: if width > u16::MAX - x { (u16::MAX - x) as u16 } else { width },
        height: if height > u16::MAX - y { (u16::MAX - y) as u16 } else { height },
    }
}

impl Rect {
    /// A rectangle whose size is clamped so that it stays inside the `u16` plane.
    pub fn new(x: u16, y: u16, width: u16, height: u16) -> (r: Rect)
        ensures
            r == rect_new(x, y, width, height),
    {
        let max_width = u16::MAX - x;
        let max_height = u16::MAX - y;
        let width = if width > max_width { max_width } else { width };
        let height = if height > max_height { max_height } else { height };
        Rect { x, y, width, height }
    }

    /// The first row below the rectangle, clamped at `u16::MAX`.
    pub fn bottom(&self) -> (b: u16)
        ensures
            b == sat_add_u16(self.y as int, self.height as int),
    {
        self.y.saturating_add(self.height)
    }
}

/// A terminal colour, with the variants of the terminal palette.
#[derive(PartialEq, Eq, Structural, Clone, Copy, Debug)]
pub enum Color {
    Reset,
    Black,
    Red,
    Green,
    Yellow,
    Blue,
    Magenta,
    Cyan,
    Gray,
    DarkGray,
    LightRed,
    LightGreen,
    LightYellow,
    LightBlue,
    LightMagenta,
    LightCyan,
    White,
    Rgb(u8, u8, u8),
    Indexed(u8),
}

/// The colours of the shell's palette that this library chooses between.
#[derive(PartialEq, Eq, Structural, Clone, Copy, Debug)]
pub struct Palette {
    pub overlay0: Color,
    pub overlay1: Color,
    pub active_row_bg: Color,
    pub selection_bg: Color,
}

/// How the agents panel orders its agents.
#[derive(PartialEq, Eq, Structural, Clone, Copy, Debug)]
pub enum AgentPanelSort {
    /// Agents in the order of their spaces.
    Spaces,
    /// One flat queue, most urgent first.
    Priority,
}

/// The settings of the shell that the panel and navigation logic read.
#[derive(PartialEq, Eq, Structural, Clone, Copy, Debug)]
pub struct ClientShellConfig {
    /// `ui.sidebar.agents.group_by_space`.
    pub group_by_space: bool,
    /// `ui.agent_panel_sort`.
    pub agent_panel_sort: AgentPanelSort,
    /// `ui.navigation_preview`.
    pub navigation_preview: bool,
    pub palette: Palette,
}

/// An agent running in a pane, as the server reports it.
#[derive(Debug)]
pub struct AgentInfo {
    pub pane_id: String,
    pub workspace_id: String,
    /// Urgency of the agent's status (higher is more urgent).
    pub status_priority: u8,
    /// Sequence number of the agent's last state change.
    pub state_change_seq: u64,
}

/// A space (workspace) with its display label.
#[derive(Debug)]
pub struct WorkspaceInfo {
    pub workspace_id: String,
    pub label: String,
}

/// A tab and the space it belongs to.
#[derive(Debug)]
pub struct TabInfo {
    pub tab_id: String,
    pub workspace_id: String,
}

/// A pane.
#[derive(Debug)]
pub struct PaneInfo {
    pub pane_id: String,
}

/// What one endpoint last reported of its session.
#[derive(Debug)]
pub struct ClientShellSnapshot {
    pub focused_workspace_id: Option<String>,
    pub focused_tab_id: Option<String>,
    pub focused_pane_id: Option<String>,
    pub workspaces: Vec<WorkspaceInfo>,
    pub tabs: Vec<TabInfo>,
    pub panes: Vec<PaneInfo>,
    pub agents: Vec<AgentInfo>,
}

/// A machine the shell is connected to.
#[derive(Debug)]
pub struct ClientShellEndpoint {
    pub endpoint_id: ClientEndpointId,
    pub label: String,
    pub snapshot: Option<ClientShellSnapshot>,
    /// The endpoint's snapshot is out of date.
    pub stale: bool,
}

/// The space row of a machine in the last composed frame.
#[derive(Debug)]
pub struct WorkspaceHit {
    pub rect: Rect,
    pub endpoint_id: ClientEndpointId,
    pub workspace_id: String,
}

/// Where rows were painted in the last composed frame.
#[derive(Debug)]
pub struct ShellHitMap {
    /// Rows of the local agents panel: rect and pane id.
    pub agents: Vec<(Rect, String)>,
    /// Rows of the machines' agents panel: rect, machine and pane id.
    pub endpoint_agents: Vec<(Rect, ClientEndpointId, String)>,
    /// Space rows.
    pub workspaces: Vec<WorkspaceHit>,
    /// Largest scroll offset of the agents panel.
    pub agent_max_scroll: usize,
}

// ----------------------------------------------------------------------------
// Lookups: each gives the index of the first match from `from` on, or the
// length when there is none.
// ----------------------------------------------------------------------------

pub open spec fn agent_index_from(agents: Seq<AgentInfo>, pane: Seq<char>, from: int) -> int
    decreases agents.len() - from,
{
    if from >= agents.len() {
        agents.len() as int
    } else if agents[from].pane_id@ == pane {
        from
    } else {
        agent_index_from(agents, pane, from + 1)
    }
}

pub open spec fn workspace_index_from(workspaces: Seq<WorkspaceInfo>, id: Seq<char>, from: int) -> int
    decreases workspaces.len() - from,
{
    if from >= workspaces.len() {
        workspaces.len() as int
    } else if workspaces[from].workspace_id@ == id {
        from
    } else {
        workspace_index_from(workspaces, id, from + 1)
    }
}

pub open spec fn endpoint_index_from(endpoints: Seq<ClientShellEndpoint>, id: ClientEndpointId, from: int) -> int
    decreases endpoints.len() - from,
{
    if from >= endpoints.len() {
        endpoints.len() as int
    } else if endpoints[from].endpoint_id == id {
        from
    } else {
        endpoint_index_from(endpoints, id, from + 1)
    }
}

pub open spec fn tab_index_from(tabs: Seq<TabInfo>, id: Seq<char>, from: int) -> int
    decreases tabs.len() - from,
{
    if from >= tabs.len() {
        tabs.len() as int
    } else if tabs[from].tab_id@ == id {
        from
    } else {
        tab_index_from(tabs, id, from + 1)
    }
}

pub open spec fn agent_index(agents: Seq<AgentInfo>, pane: Seq<char>) -> int {
    agent_index_from(agents, pane, 0)
}

pub open spec fn workspace_index(workspaces: Seq<WorkspaceInfo>, id: Seq<char>) -> int {
    workspace_index_from(workspaces, id, 0)
}

pub open spec fn endpoint_index(endpoints: Seq<ClientShellEndpoint>, id: ClientEndpointId) -> int {
    endpoint_index_from(endpoints, id, 0)
}

pub open spec fn tab_index(tabs: Seq<TabInfo>, id: Seq<char>) -> int {
    tab_index_from(tabs, id, 0)
}

/// Some space has this id.
pub open spec fn has_workspace(workspaces: Seq<WorkspaceInfo>, id: Seq<char>) -> bool {
    exists|i: int| 0 <= i < workspaces.len() && #[trigger] workspaces[i].workspace_id@ == id
}

/// Some pane has this id.
pub open spec fn has_pane(panes: Seq<PaneInfo>, id: Seq<char>) -> bool {
    exists|i: int| 0 <= i < panes.len() && #[trigger] panes[i].pane_id@ == id
}

pub fn find_agent(agents: &Vec<AgentInfo>, pane_id: &String) -> (r: usize)
    ensures
        r == agent_index(agents@, pane_id@),
        r <= agents.len(),
{
    let mut i: usize = 0;
    while i < agents.len()
        invariant
            i <= agents.len(),
            agent_index(agents@, pane_id@) == agent_index_from(agents@, pane_id@, i as int),
        decreases agents.len() - i,
    {
        if agents[i].pane_id.eq(pane_id) {
            return i;
        }
        i = i + 1;
    }
    i
}

pub fn find_workspace(workspaces: &Vec<WorkspaceInfo>, id: &String) -> (r: usize)
    ensures
        r == workspace_index(workspaces@, id@),
        r <= workspaces.len(),
{
    let mut i: usize = 0;
    while i < workspaces.len()
        invariant
            i <= workspaces.len(),
            workspace_index(workspaces@, id@) == workspace_index_from(workspaces@, id@, i as int),
        decreases workspaces.len() - i,
    {
        if workspaces[i].workspace_id.eq(id) {
            return i;
        }
        i = i + 1;
    }
    i
}

pub fn find_endpoint(endpoints: &Vec<ClientShellEndpoint>, id: ClientEndpointId) -> (r: usize)
    ensures
        r == endpoint_index(endpoints@, id),
        r <= endpoints.len(),
{
    let mut i: usize = 0;
    while i < endpoints.len()
        invariant
            i <= endpoints.len(),
            endpoint_index(endpoints@, id) == endpoint_index_from(endpoints@, id, i as int),
        decreases endpoints.len() - i,
    {
        if endpoints[i].endpoint_id == id {
            return i;
        }
        i = i + 1;
    }
    i
}

pub fn find_tab(tabs: &Vec<TabInfo>, id: &String) -> (r: usize)
    ensures
        r == tab_index(tabs@, id@),
        r <= tabs.len(),
{
    let mut i: usize = 0;
    while i < tabs.len()
        invariant
            i <= tabs.len(),
            tab_index(tabs@, id@) == tab_index_from(tabs@, id@, i as int),
        decreases tabs.len() - i,
    {
        if tabs[i].tab_id.eq(id) {
            return i;
        }
        i = i + 1;
    }
    i
}

/// Whether some space has this id.
pub fn any_workspace(workspaces: &Vec<WorkspaceInfo>, id: &String) -> (r: bool)
    ensures
        r == has_workspace(workspaces@, id@),
{
    let mut i: usize = 0;
    while i < workspaces.len()
        invariant
            i <= workspaces.len(),
            forall|j: int| 0 <= j < i ==> #[trigger] workspaces@[j].workspace_id@ != id@,
        decreases workspaces.len() - i,
    {
        if workspaces[i].workspace_id.eq(id) {
            return true;
        }
        i = i + 1;
    }
    false
}

/// Whether some pane has this id.
pub fn any_pane(panes: &Vec<PaneInfo>, id: &String) -> (r: bool)
    ensures
        r == has_pane(panes@, id@),
{
    let mut i: usize = 0;
    while i < panes.len()
        invariant
            i <= panes.len(),
            forall|j: int| 0 <= j < i ==> #[trigger] panes@[j].pane_id@ != id@,
        decreases panes.len() - i,
    {
        if panes[i].pane_id.eq(id) {
            return true;
        }
        i = i + 1;
    }
    false
}

} // verus!
