//! Agent navigation (`NavigateAgents` mode): choosing an agent of the agents
//! panel with the keys, previewing it, and focusing it on Enter.
use vstd::prelude::*;
use crate::model::{Color, ClientEndpointId, Rect, ShellHitMap, ClientShellSnapshot};
use crate::agent_groups::{AggregateAgentTarget, displayed_agent_targets, panel_targets};
use crate::last_targets::opt_view;
use crate::navigation_preview::{pane_restore, preview_actions, preview_origin_for, preview_origin_row, previewed_origin, restore_actions};
use crate::shell::{ClientEndpointFocusTarget, ClientShellAction, ClientShellInput, ClientShellMode, ClientShellState, focus_action, keeps_world, resume_mode};

verus! {

/// Client-only agents-panel selection for `NavigateAgents` mode.
#[derive(Debug)]
pub struct AgentNavigationTarget {
    pub endpoint_id: ClientEndpointId,
    pub pane_id: String,
}

impl Clone for AgentNavigationTarget {
    fn clone(&self) -> (r: Self)
        ensures
            r == *self,
    {
        AgentNavigationTarget { endpoint_id: self.endpoint_id, pane_id: self.pane_id.clone() }
    }
}

/// Status bar segments shown while `NavigateAgents` mode is active.
pub fn status_bar_segments<S: Copy>(mode_style: S, base: S, key: S) -> (segments: [(String, S); 6])
    ensures
        segments@[0].0@ == " AGENTS "@ && segments@[0].1 == mode_style,
        segments@[1].0@ == " esc back  "@ && segments@[1].1 == base,
        segments@[2].0@ == "↑/↓"@ && segments@[2].1 == key,
        segments@[3].0@ == " agent  "@ && segments@[3].1 == base,
        segments@[4].0@ == "enter"@ && segments@[4].1 == key,
        segments@[5].0@ == " focus"@ && segments@[5].1 == base,
{
    [
        (String::from_str(" AGENTS "), mode_style),
        (String::from_str(" esc back  "), base),
        (String::from_str("↑/↓"), key),
        (String::from_str(" agent  "), base),
        (String::from_str("enter"), key),
        (String::from_str(" focus"), base),
    ]
}

/// A key press in `NavigateAgents` mode, as the shell's keybindings classify it.
#[derive(Debug)]
pub struct NavigationKey {
    /// Esc, or the prefix combo.
    pub leaves: bool,
    /// Matches the `workspace_up` navigation key.
    pub up: bool,
    /// Matches the `workspace_down` navigation key.
    pub down: bool,
    /// Enter without modifiers.
    pub enter: bool,
    /// The prefix binding the key runs, if any.
    pub binding: Option<KeybindAction>,
}

/// A prefix binding's action.
#[derive(PartialEq, Eq, Structural, Clone, Copy, Debug)]
pub enum KeybindAction {
    NavigateWorkspaces,
    NavigateAgents,
    LastWorkspace,
    LastTab,
    Other(u32),
}

// ----------------------------------------------------------------------------
// Specifications
// ----------------------------------------------------------------------------

/// The agents panel's targets, in the order the panel shows them.
pub open spec fn nav_targets(s: ClientShellState) -> Seq<AgentNavigationTarget> {
    let shown = panel_targets(s.endpoints@, s.config, s.agent_targets@);
    Seq::new(shown.len(), |i: int| AgentNavigationTarget { endpoint_id: shown[i].endpoint_id, pane_id: shown[i].pane_id })
}

/// Both name the same agent.
pub open spec fn same_target(a: AgentNavigationTarget, b: AgentNavigationTarget) -> bool {
    a.endpoint_id == b.endpoint_id && a.pane_id@ == b.pane_id@
}

/// The first position of `t` in `targets` from `from` on, or the length.
pub open spec fn target_position_from(targets: Seq<AgentNavigationTarget>, t: AgentNavigationTarget, from: int) -> int
    decreases targets.len() - from,
{
    if from >= targets.len() {
        targets.len() as int
    } else if same_target(targets[from], t) {
        from
    } else {
        target_position_from(targets, t, from + 1)
    }
}

/// The position of the selection among the targets, or their count.
pub open spec fn selection_position(targets: Seq<AgentNavigationTarget>, selected: Option<AgentNavigationTarget>) -> int {
    match selected {
        Some(t) => target_position_from(targets, t, 0),
        None => targets.len() as int,
    }
}

/// The first position from `from` on of the agent in the focused pane of the
/// active machine, or the length.
pub open spec fn focused_position_from(targets: Seq<AgentNavigationTarget>, active: ClientEndpointId, focused: Option<Seq<char>>, from: int) -> int
    decreases targets.len() - from,
{
    if from >= targets.len() {
        targets.len() as int
    } else if targets[from].endpoint_id == active && focused == Some(targets[from].pane_id@) {
        from
    } else {
        focused_position_from(targets, active, focused, from + 1)
    }
}

pub open spec fn focused_pane(snapshot: Option<ClientShellSnapshot>) -> Option<Seq<char>> {
    match snapshot {
        Some(s) => opt_view(s.focused_pane_id),
        None => None,
    }
}

/// The agent selected when agent navigation starts: the focused agent, else
/// the first one, else none.
pub open spec fn initial_selection(s: ClientShellState) -> Option<AgentNavigationTarget> {
    let targets = nav_targets(s);
    let i = focused_position_from(targets, s.active_endpoint_id, focused_pane(s.snapshot), 0);
    if i < targets.len() {
        Some(targets[i])
    } else if targets.len() > 0 {
        Some(targets[0])
    } else {
        None
    }
}

/// The position after moving `delta` rows from `current` among `len` rows,
/// wrapping around; from no selection, up goes to the last row and down to
/// the first.
pub open spec fn moved_position(current: int, delta: int, len: int) -> int {
    if 0 <= current < len {
        (current + delta) % len
    } else if delta < 0 {
        len - 1
    } else {
        0
    }
}

pub open spec fn moved_index(s: ClientShellState, delta: int) -> int {
    let targets = nav_targets(s);
    moved_position(selection_position(targets, s.navigate_agent), delta, targets.len() as int)
}

/// The selection after moving `delta` rows.
pub open spec fn moved_selection(s: ClientShellState, delta: int) -> Option<AgentNavigationTarget> {
    let targets = nav_targets(s);
    if targets.len() == 0 {
        None
    } else {
        Some(targets[moved_index(s, delta)])
    }
}

/// The panel's scroll offset after moving `delta` rows: scrolled to the new
/// selection, as far as the panel scrolls, when its row is not visible.
pub open spec fn moved_scroll(s: ClientShellState, delta: int) -> usize {
    let targets = nav_targets(s);
    if targets.len() == 0 {
        s.agent_scroll
    } else {
        let next = moved_index(s, delta);
        if agent_row_rect_of(s.hits, s.active_endpoint_id, targets[next].endpoint_id, targets[next].pane_id@) is None {
            if next < s.hits.agent_max_scroll {
                next as usize
            } else {
                s.hits.agent_max_scroll
            }
        } else {
            s.agent_scroll
        }
    }
}

/// The first local panel row showing `pane` from `from` on, or the length.
pub open spec fn agent_hit_index_from(hits: Seq<(Rect, String)>, pane: Seq<char>, from: int) -> int
    decreases hits.len() - from,
{
    if from >= hits.len() {
        hits.len() as int
    } else if hits[from].1@ == pane {
        from
    } else {
        agent_hit_index_from(hits, pane, from + 1)
    }
}

/// The first machines' panel row showing `pane` of `endpoint_id` from `from`
/// on, or the length.
pub open spec fn endpoint_hit_index_from(hits: Seq<(Rect, ClientEndpointId, String)>, endpoint_id: ClientEndpointId, pane: Seq<char>, from: int) -> int
    decreases hits.len() - from,
{
    if from >= hits.len() {
        hits.len() as int
    } else if hits[from].1 == endpoint_id && hits[from].2@ == pane {
        from
    } else {
        endpoint_hit_index_from(hits, endpoint_id, pane, from + 1)
    }
}

/// Rect of the agents-panel row of `pane` on `endpoint_id` in the last
/// composed frame: the local panel's row for an agent of the active machine,
/// else the machines' panel's row.
pub open spec fn agent_row_rect_of(hits: ShellHitMap, active: ClientEndpointId, endpoint_id: ClientEndpointId, pane: Seq<char>) -> Option<Rect> {
    let i = agent_hit_index_from(hits.agents@, pane, 0);
    let j = endpoint_hit_index_from(hits.endpoint_agents@, endpoint_id, pane, 0);
    if endpoint_id == active && i < hits.agents@.len() {
        Some(hits.agents@[i].0)
    } else if j < hits.endpoint_agents@.len() {
        Some(hits.endpoint_agents@[j].0)
    } else {
        None
    }
}

/// What leaving agent navigation does to the state and the requests.
pub open spec fn left_agent_navigation(a: ClientShellState, b: ClientShellState, before: Seq<ClientShellAction>, after: Seq<ClientShellAction>) -> bool {
    &&& keeps_world(a, b)
    &&& b.agent_scroll == a.agent_scroll
    &&& b.navigation_preview_origin is None
    &&& b.mode == resume_mode(a.in_copy_mode)
    &&& b.navigate_agent is None
    &&& after == before + restore_actions(a.navigation_preview_origin, a.active_endpoint_id, a.snapshot)
}

/// What moving the selection `delta` rows and previewing it does.
pub open spec fn moved_and_previewed(a: ClientShellState, b: ClientShellState, delta: int, before: Seq<ClientShellAction>, after: Seq<ClientShellAction>) -> bool {
    &&& keeps_world(a, b)
    &&& b.mode == a.mode
    &&& b.navigate_agent == moved_selection(a, delta)
    &&& b.agent_scroll == moved_scroll(a, delta)
    &&& match moved_selection(a, delta) {
        Some(t) => {
            &&& b.navigation_preview_origin == previewed_origin(a.navigation_preview_origin, t.endpoint_id)
            &&& after == before + preview_actions(a.navigation_preview_origin, t.endpoint_id, ClientEndpointFocusTarget::Pane(t.pane_id))
        },
        None => {
            &&& b.navigation_preview_origin == a.navigation_preview_origin
            &&& after == before
        },
    }
}

/// The selection is still one of the panel's agents.
pub open spec fn selection_shown(s: ClientShellState) -> bool {
    s.navigate_agent is Some && selection_position(nav_targets(s), s.navigate_agent) < nav_targets(s).len()
}

/// What Enter in agent navigation does when focusing succeeds or not
/// (`issued`): the selected agent's focus is requested; once it is issued,
/// the preview is kept and input returns to the terminal, otherwise agent
/// navigation goes on with the same selection and origin. Without a shown
/// selection, Enter leaves.
pub open spec fn accepted_agent_when(a: ClientShellState, b: ClientShellState, issued: bool, before: Seq<ClientShellAction>, after: Seq<ClientShellAction>) -> bool {
    if selection_shown(a) {
        &&& keeps_world(a, b)
        &&& b.agent_scroll == a.agent_scroll
        &&& after == before.push(focus_action(a.navigate_agent->0.endpoint_id, ClientEndpointFocusTarget::Pane(a.navigate_agent->0.pane_id)))
        &&& if issued {
            &&& b.navigation_preview_origin is None
            &&& b.mode == ClientShellMode::Terminal
            &&& b.navigate_agent is None
        } else {
            &&& b.navigation_preview_origin == a.navigation_preview_origin
            &&& b.mode == a.mode
            &&& b.navigate_agent == a.navigate_agent
        }
    } else {
        left_agent_navigation(a, b, before, after)
    }
}

/// What Enter in agent navigation does, with the focus issued.
pub open spec fn accepted_agent(a: ClientShellState, b: ClientShellState, before: Seq<ClientShellAction>, after: Seq<ClientShellAction>) -> bool {
    accepted_agent_when(a, b, true, before, after)
}

// ----------------------------------------------------------------------------
// Wrapping arithmetic
// ----------------------------------------------------------------------------

/// The row `delta` rows from `current` among `len` rows, wrapping around.
fn wrap_index(current: usize, delta: isize, len: usize) -> (next: usize)
    requires
        current < len,
    ensures
        next == (current + delta) % (len as int),
        next < len,
{
    // `mag` is |delta|; its remainder is computed without forming |isize::MIN|.
    let step: usize = if delta < 0 {
        let below: isize = -(delta + 1);
        assert(isize::MAX <= usize::MAX);
        let below_mag = below as usize;
        proof {
            vstd::arithmetic::div_mod::lemma_mod_pos_bound(below_mag as int, len as int);
            vstd::arithmetic::div_mod::lemma_add_mod_noop(below_mag as int, 1, len as int);
            if len > 1 {
                vstd::arithmetic::div_mod::lemma_small_mod(1, len as nat);
            } else {
                assert(1int % 1int == 0) by (nonlinear_arith);
            }
        }
        (below_mag % len + 1) % len
    } else {
        (delta as usize) % len
    };
    let ghost mag: int = if delta < 0 { -delta } else { delta as int };
    proof {
        vstd::arithmetic::div_mod::lemma_mod_pos_bound(mag, len as int);
        assert(step == mag % (len as int));
    }
    if delta >= 0 {
        let next = if step < len - current {
            current + step
        } else {
            step - (len - current)
        };
        proof {
            vstd::arithmetic::div_mod::lemma_add_mod_noop_right(current as int, mag, len as int);
            if step < len - current {
                vstd::arithmetic::div_mod::lemma_small_mod((current + step) as nat, len as nat);
            } else {
                vstd::arithmetic::div_mod::lemma_fundamental_div_mod_converse(current + step, len as int, 1, next as int);
            }
        }
        next
    } else {
        let next = if step <= current {
            current - step
        } else {
            len - (step - current)
        };
        proof {
            vstd::arithmetic::div_mod::lemma_sub_mod_noop_right(current as int, mag, len as int);
            assert(current + delta == current - mag);
            if step <= current {
                vstd::arithmetic::div_mod::lemma_small_mod((current - step) as nat, len as nat);
            } else {
                vstd::arithmetic::div_mod::lemma_fundamental_div_mod_converse(current - step, len as int, -1, next as int);
            }
        }
        next
    }
}

fn is_focused_agent(target: &AgentNavigationTarget, active: ClientEndpointId, focused: Option<&String>) -> (r: bool)
    ensures
        r == (target.endpoint_id == active && match focused {
            Some(p) => Some(p@) == Some(target.pane_id@),
            None => false,
        }),
{
    target.endpoint_id == active && match focused {
        Some(p) => target.pane_id.eq(p),
        None => false,
    }
}

impl ClientShellState {
    /// The agents panel's targets, in the order the panel shows them.
    pub fn agent_navigation_targets(&self) -> (targets: Vec<AgentNavigationTarget>)
        ensures
            targets@ == nav_targets(*self),
    {
        let mut online: Vec<AggregateAgentTarget> = Vec::new();
        for i in 0..self.agent_targets.len()
            invariant
                online@.len() == i,
                forall|j: int| 0 <= j < i ==> #[trigger] online@[j] == self.agent_targets@[j],
        {
            online.push(self.agent_targets[i].clone());
        }
        proof {
            assert(online@ =~= self.agent_targets@);
        }
        let mut shown = displayed_agent_targets(&self.endpoints, &self.config, online);
        let ghost shown0 = shown@;
        let n = shown.len();
        let mut targets: Vec<AgentNavigationTarget> = Vec::new();
        while shown.len() > 0
            invariant
                targets.len() + shown.len() == n,
                shown0.len() == n,
                shown@ == shown0.skip(targets.len() as int),
                forall|j: int| 0 <= j < targets.len() ==> #[trigger] targets@[j] == (AgentNavigationTarget {
                    endpoint_id: shown0[j].endpoint_id,
                    pane_id: shown0[j].pane_id,
                }),
            decreases shown.len(),
        {
            let target = shown.remove(0);
            targets.push(AgentNavigationTarget { endpoint_id: target.endpoint_id, pane_id: target.pane_id });
            proof {
                assert(shown@ =~= shown0.skip(targets.len() as int));
            }
        }
        proof {
            assert(targets@ =~= nav_targets(*self));
        }
        targets
    }

    /// Enters agent navigation: selects the focused agent (else the first),
    /// captures the preview origin and repaints.
    pub fn enter_agent_navigation(&mut self, outcome: &mut ClientShellInput)
        ensures
            keeps_world(*old(self), *final(self)),
            final(self).agent_scroll == old(self).agent_scroll,
            final(self).navigate_agent == initial_selection(*old(self)),
            final(self).navigation_preview_origin == preview_origin_for(
                old(self).config,
                old(self).active_endpoint_id,
                pane_restore(old(self).snapshot),
            ),
            final(self).mode == ClientShellMode::NavigateAgents,
            final(outcome).repaint,
            final(outcome).actions@ == old(outcome).actions@,
    {
        let targets = self.agent_navigation_targets();
        let focused: Option<&String> = match &self.snapshot {
            Some(snapshot) => match &snapshot.focused_pane_id {
                Some(p) => Some(p),
                None => None,
            },
            None => None,
        };
        let mut i: usize = 0;
        while i < targets.len() && !is_focused_agent(&targets[i], self.active_endpoint_id, focused)
            invariant
                i <= targets.len(),
                targets@ == nav_targets(*self),
                focused_pane(self.snapshot) == match focused {
                    Some(p) => Some(p@),
                    None => None::<Seq<char>>,
                },
                focused_position_from(targets@, self.active_endpoint_id, focused_pane(self.snapshot), 0)
                    == focused_position_from(targets@, self.active_endpoint_id, focused_pane(self.snapshot), i as int),
            decreases targets.len() - i,
        {
            i = i + 1;
        }
        let selected = if i < targets.len() {
            Some(targets[i].clone())
        } else if targets.len() > 0 {
            Some(targets[0].clone())
        } else {
            None
        };
        self.navigate_agent = selected;
        self.begin_agent_navigation_preview();
        self.mode = ClientShellMode::NavigateAgents;
        outcome.repaint = true;
    }

    /// Leaves agent navigation, restoring the preview origin.
    pub fn leave_agent_navigation(&mut self, outcome: &mut ClientShellInput)
        ensures
            left_agent_navigation(*old(self), *final(self), old(outcome).actions@, final(outcome).actions@),
            final(outcome).repaint == old(outcome).repaint,
    {
        self.cancel_navigation_preview(outcome);
        self.mode = self.copy_or_terminal_mode();
        self.navigate_agent = None;
    }

    /// Moves the selection `delta` rows, wrapping around, and scrolls the
    /// panel to it when its row is not visible.
    pub fn move_navigate_agent(&mut self, delta: isize)
        ensures
            keeps_world(*old(self), *final(self)),
            final(self).mode == old(self).mode,
            final(self).navigation_preview_origin == old(self).navigation_preview_origin,
            final(self).navigate_agent == moved_selection(*old(self), delta as int),
            final(self).agent_scroll == moved_scroll(*old(self), delta as int),
    {
        let targets = self.agent_navigation_targets();
        if targets.len() == 0 {
            self.navigate_agent = None;
            return;
        }
        let mut current: usize = targets.len();
        match &self.navigate_agent {
            Some(selected) => {
                let mut i: usize = 0;
                while i < targets.len() && !(targets[i].endpoint_id == selected.endpoint_id && targets[i].pane_id.eq(&selected.pane_id))
                    invariant
                        i <= targets.len(),
                        target_position_from(targets@, *selected, 0) == target_position_from(targets@, *selected, i as int),
                    decreases targets.len() - i,
                {
                    i = i + 1;
                }
                current = i;
            },
            None => {},
        }
        let next = if current < targets.len() {
            wrap_index(current, delta, targets.len())
        } else if delta < 0 {
            targets.len() - 1
        } else {
            0
        };
        let target = targets[next].clone();
        if self.agent_row_rect(&target).is_none() {
            self.agent_scroll = if next < self.hits.agent_max_scroll {
                next
            } else {
                self.hits.agent_max_scroll
            };
        }
        self.navigate_agent = Some(target);
    }

    /// Focuses the selected agent and returns to the terminal; leaves when the
    /// selection is gone from the panel.
    pub fn accept_navigate_agent(&mut self, outcome: &mut ClientShellInput)
        ensures
            accepted_agent(*old(self), *final(self), old(outcome).actions@, final(outcome).actions@),
            final(outcome).repaint,
    {
        self.accept_navigate_agent_when(true, outcome);
    }

    /// Enter in agent navigation, where `issued` is whether focusing the
    /// selected agent succeeds: the focus is requested, and only once it is
    /// issued does navigation end with the preview kept; otherwise the mode,
    /// selection and origin stay. Leaves when the selection is gone from the
    /// panel.
    pub fn accept_navigate_agent_when(&mut self, issued: bool, outcome: &mut ClientShellInput)
        ensures
            accepted_agent_when(*old(self), *final(self), issued, old(outcome).actions@, final(outcome).actions@),
            final(outcome).repaint,
    {
        let target = match &self.navigate_agent {
            Some(t) => t.clone(),
            None => {
                self.leave_agent_navigation(outcome);
                outcome.repaint = true;
                return;
            },
        };
        let targets = self.agent_navigation_targets();
        let mut i: usize = 0;
        while i < targets.len() && !(targets[i].endpoint_id == target.endpoint_id && targets[i].pane_id.eq(&target.pane_id))
            invariant
                i <= targets.len(),
                target_position_from(targets@, target, 0) == target_position_from(targets@, target, i as int),
            decreases targets.len() - i,
        {
            i = i + 1;
        }
        if i >= targets.len() {
            self.leave_agent_navigation(outcome);
            outcome.repaint = true;
            return;
        }
        let focused = self.focus_or_activate(target.endpoint_id, ClientEndpointFocusTarget::Pane(target.pane_id), outcome);
        if focused && issued {
            self.commit_navigation_preview();
            self.mode = ClientShellMode::Terminal;
            self.navigate_agent = None;
        }
        outcome.repaint = true;
    }

    /// Handles a key in agent navigation. Esc or the prefix leaves; up and
    /// down move and preview; Enter focuses the selection; another prefix
    /// binding leaves and is handed back for the caller to run.
    pub fn route_navigate_agents_key(&mut self, key: &NavigationKey, outcome: &mut ClientShellInput) -> (run: Option<KeybindAction>)
        ensures
            key.leaves ==> {
                &&& left_agent_navigation(*old(self), *final(self), old(outcome).actions@, final(outcome).actions@)
                &&& final(outcome).repaint
                &&& run is None
            },
            !key.leaves && key.up ==> {
                &&& moved_and_previewed(*old(self), *final(self), -1, old(outcome).actions@, final(outcome).actions@)
                &&& final(outcome).repaint
                &&& run is None
            },
            !key.leaves && !key.up && key.down ==> {
                &&& moved_and_previewed(*old(self), *final(self), 1, old(outcome).actions@, final(outcome).actions@)
                &&& final(outcome).repaint
                &&& run is None
            },
            !key.leaves && !key.up && !key.down && key.enter ==> {
                &&& accepted_agent(*old(self), *final(self), old(outcome).actions@, final(outcome).actions@)
                &&& final(outcome).repaint
                &&& run is None
            },
            !key.leaves && !key.up && !key.down && !key.enter && key.binding is Some ==> {
                &&& left_agent_navigation(*old(self), *final(self), old(outcome).actions@, final(outcome).actions@)
                &&& final(outcome).repaint
                &&& run == key.binding
            },
            !key.leaves && !key.up && !key.down && !key.enter && key.binding is None ==> {
                &&& *final(self) == *old(self)
                &&& final(outcome).repaint == old(outcome).repaint
                &&& final(outcome).actions@ == old(outcome).actions@
                &&& run is None
            },
    {
        if key.leaves {
            self.leave_agent_navigation(outcome);
            outcome.repaint = true;
            return None;
        }
        if key.up {
            self.move_navigate_agent(-1);
            self.preview_navigate_agent(outcome);
            outcome.repaint = true;
            return None;
        }
        if key.down {
            self.move_navigate_agent(1);
            self.preview_navigate_agent(outcome);
            outcome.repaint = true;
            return None;
        }
        if key.enter {
            self.accept_navigate_agent(outcome);
            return None;
        }
        match key.binding {
            Some(binding) => {
                self.leave_agent_navigation(outcome);
                outcome.repaint = true;
                Some(binding)
            },
            None => None,
        }
    }

    /// Rect of the agents-panel row for `target` in the last composed frame, if visible.
    pub fn agent_row_rect(&self, target: &AgentNavigationTarget) -> (rect: Option<Rect>)
        ensures
            rect == agent_row_rect_of(self.hits, self.active_endpoint_id, target.endpoint_id, target.pane_id@),
    {
        let agents = &self.hits.agents;
        let mut i: usize = 0;
        while i < agents.len() && !agents[i].1.eq(&target.pane_id)
            invariant
                i <= agents.len(),
                agent_hit_index_from(agents@, target.pane_id@, 0) == agent_hit_index_from(agents@, target.pane_id@, i as int),
            decreases agents.len() - i,
        {
            i = i + 1;
        }
        if target.endpoint_id == self.active_endpoint_id && i < agents.len() {
            return Some(agents[i].0);
        }
        let hits = &self.hits.endpoint_agents;
        let mut j: usize = 0;
        while j < hits.len() && !(hits[j].1 == target.endpoint_id && hits[j].2.eq(&target.pane_id))
            invariant
                j <= hits.len(),
                endpoint_hit_index_from(hits@, target.endpoint_id, target.pane_id@, 0)
                    == endpoint_hit_index_from(hits@, target.endpoint_id, target.pane_id@, j as int),
            decreases hits.len() - j,
        {
            j = j + 1;
        }
        if j < hits.len() {
            Some(hits[j].0)
        } else {
            None
        }
    }

    /// Navigation overlays to paint after the sidebar: the preview origin row
    /// on the active row background, then, in agent navigation, the selected
    /// agent's row on the selection background (the active row background
    /// when the palette leaves selection at its default).
    pub fn render_navigation_overlays(&self) -> (overlays: Vec<(Rect, Color)>)
        ensures
            overlays@ == navigation_overlays_of(*self),
    {
        let mut overlays: Vec<(Rect, Color)> = Vec::new();
        match self.render_navigation_preview_origin() {
            Some(rect) => overlays.push((rect, self.config.palette.active_row_bg)),
            None => {},
        }
        if self.mode != ClientShellMode::NavigateAgents {
            return overlays;
        }
        let rect = match &self.navigate_agent {
            Some(target) => self.agent_row_rect(target),
            None => None,
        };
        match rect {
            Some(rect) => {
                let palette = &self.config.palette;
                let background = if palette.selection_bg == Color::Reset {
                    palette.active_row_bg
                } else {
                    palette.selection_bg
                };
                overlays.push((rect, background));
            },
            None => {},
        }
        overlays
    }
}

/// The overlays of `render_navigation_overlays`.
pub open spec fn navigation_overlays_of(s: ClientShellState) -> Seq<(Rect, Color)> {
    let origin: Seq<(Rect, Color)> = match preview_origin_row(s) {
        Some(rect) => seq![(rect, s.config.palette.active_row_bg)],
        None => Seq::empty(),
    };
    let selection: Seq<(Rect, Color)> = if s.mode != ClientShellMode::NavigateAgents || s.navigate_agent is None {
        Seq::empty()
    } else {
        match agent_row_rect_of(s.hits, s.active_endpoint_id, s.navigate_agent->0.endpoint_id, s.navigate_agent->0.pane_id@) {
            Some(rect) => seq![(
                rect,
                if s.config.palette.selection_bg == Color::Reset {
                    s.config.palette.active_row_bg
                } else {
                    s.config.palette.selection_bg
                },
            )],
            None => Seq::empty(),
        }
    };
    origin + selection
}


// ----------------------------------------------------------------------------
// Laws of agent navigation
// ----------------------------------------------------------------------------

/// Selection wraps in both directions: down from the last row goes to the
/// first, up from the first to the last, and from no selection up goes to the
/// last row and down to the first.
pub proof fn lemma_selection_wraps(len: int)
    requires
        len > 0,
    ensures
        moved_position(len - 1, 1, len) == 0,
        moved_position(0, -1, len) == len - 1,
        moved_position(len, -1, len) == len - 1,
        moved_position(len, 1, len) == 0,
{
    vstd::arithmetic::div_mod::lemma_mod_self_0(len);
    vstd::arithmetic::div_mod::lemma_fundamental_div_mod_converse(-1, len, -1, len - 1);
}

/// Moving down and then up, or up and then down, returns to the same row,
/// and every move lands on a row.
pub proof fn lemma_move_round_trip(current: int, len: int)
    requires
        0 <= current < len,
    ensures
        0 <= moved_position(current, 1, len) < len,
        0 <= moved_position(current, -1, len) < len,
        moved_position(moved_position(current, 1, len), -1, len) == current,
        moved_position(moved_position(current, -1, len), 1, len) == current,
{
    let down = moved_position(current, 1, len);
    let up = moved_position(current, -1, len);
    vstd::arithmetic::div_mod::lemma_mod_bound(current + 1, len);
    vstd::arithmetic::div_mod::lemma_mod_bound(current - 1, len);
    if current + 1 < len {
        vstd::arithmetic::div_mod::lemma_small_mod((current + 1) as nat, len as nat);
    } else {
        vstd::arithmetic::div_mod::lemma_mod_self_0(len);
    }
    if current > 0 {
        vstd::arithmetic::div_mod::lemma_small_mod((current - 1) as nat, len as nat);
    } else {
        vstd::arithmetic::div_mod::lemma_fundamental_div_mod_converse(-1, len, -1, len - 1);
    }
    vstd::arithmetic::div_mod::lemma_mod_bound(down - 1, len);
    vstd::arithmetic::div_mod::lemma_mod_bound(up + 1, len);
    if down > 0 {
        vstd::arithmetic::div_mod::lemma_small_mod((down - 1) as nat, len as nat);
    } else {
        vstd::arithmetic::div_mod::lemma_fundamental_div_mod_converse(-1, len, -1, len - 1);
    }
    if up + 1 < len {
        vstd::arithmetic::div_mod::lemma_small_mod((up + 1) as nat, len as nat);
    } else {
        vstd::arithmetic::div_mod::lemma_mod_self_0(len);
    }
}


/// `focused_position_from` finds the first target from `from` on that is the
/// focused pane of the active machine.
proof fn lemma_focused_position_from(targets: Seq<AgentNavigationTarget>, active: ClientEndpointId, focused: Option<Seq<char>>, from: int)
    requires
        0 <= from <= targets.len(),
    ensures
        from <= focused_position_from(targets, active, focused, from) <= targets.len(),
        focused_position_from(targets, active, focused, from) < targets.len() ==> {
            let r = focused_position_from(targets, active, focused, from);
            targets[r].endpoint_id == active && focused == Some(targets[r].pane_id@)
        },
        forall|m: int| from <= m < focused_position_from(targets, active, focused, from) ==>
            !(targets[m].endpoint_id == active && focused == Some(#[trigger] targets[m].pane_id@)),
    decreases targets.len() - from,
{
    if from < targets.len() && !(targets[from].endpoint_id == active && focused == Some(targets[from].pane_id@)) {
        lemma_focused_position_from(targets, active, focused, from + 1);
    }
}

/// Entering agent navigation selects the first panel agent living in the
/// active machine's focused pane; when there is none, the panel's first
/// agent; when the panel is empty, nothing.
pub proof fn lemma_initial_selection(s: ClientShellState)
    ensures
        ({
            let targets = nav_targets(s);
            let focused = focused_pane(s.snapshot);
            &&& targets.len() == 0 ==> initial_selection(s) is None
            &&& (targets.len() > 0 && forall|k: int| 0 <= k < targets.len() ==>
                    !(targets[k].endpoint_id == s.active_endpoint_id && focused == Some(#[trigger] targets[k].pane_id@)))
                ==> initial_selection(s) == Some(targets[0])
            &&& (exists|k: int| 0 <= k < targets.len() && targets[k].endpoint_id == s.active_endpoint_id
                    && focused == Some(#[trigger] targets[k].pane_id@))
                ==> exists|k: int| 0 <= k < targets.len()
                    && initial_selection(s) == Some(targets[k])
                    && targets[k].endpoint_id == s.active_endpoint_id
                    && focused == Some(#[trigger] targets[k].pane_id@)
                    && forall|m: int| 0 <= m < k ==> !(targets[m].endpoint_id == s.active_endpoint_id && focused == Some(#[trigger] targets[m].pane_id@))
        }),
{
    let targets = nav_targets(s);
    let focused = focused_pane(s.snapshot);
    lemma_focused_position_from(targets, s.active_endpoint_id, focused, 0);
    let r = focused_position_from(targets, s.active_endpoint_id, focused, 0);
    if exists|k: int| 0 <= k < targets.len() && targets[k].endpoint_id == s.active_endpoint_id && focused == Some(#[trigger] targets[k].pane_id@) {
        let k = choose|k: int| 0 <= k < targets.len() && targets[k].endpoint_id == s.active_endpoint_id && focused == Some(#[trigger] targets[k].pane_id@);
        assert(r < targets.len()) by {
            if r >= targets.len() {
                assert(!(targets[k].endpoint_id == s.active_endpoint_id && focused == Some(targets[k].pane_id@)));
            }
        }
        assert(focused == Some(targets[r].pane_id@));
    }
    if targets.len() > 0 && forall|k: int| 0 <= k < targets.len() ==>
        !(targets[k].endpoint_id == s.active_endpoint_id && focused == Some(#[trigger] targets[k].pane_id@)) {
        if r < targets.len() {
            assert(focused == Some(targets[r].pane_id@));
        }
    }
}

/// Moving the selection to a row that is not visible scrolls the panel to
/// that row, as far as the panel scrolls: the offset is the smaller of the
/// new row's index and the largest offset, so it never passes the new row.
/// A visible new row leaves the offset alone.
pub proof fn lemma_moved_scroll(s: ClientShellState, delta: int)
    requires
        nav_targets(s).len() > 0,
    ensures
        ({
            let targets = nav_targets(s);
            let next = moved_index(s, delta);
            if agent_row_rect_of(s.hits, s.active_endpoint_id, targets[next].endpoint_id, targets[next].pane_id@) is None {
                &&& moved_scroll(s, delta) <= next
                &&& moved_scroll(s, delta) <= s.hits.agent_max_scroll
                &&& (moved_scroll(s, delta) == next || moved_scroll(s, delta) == s.hits.agent_max_scroll)
            } else {
                moved_scroll(s, delta) == s.agent_scroll
            }
        }),
{
}

} // verus!
