//! Navigation preview (`ui.navigation_preview`): while choosing a space or an
//! agent, focus follows the selection on the origin machine; leaving without
//! Enter restores the focus that navigation started from.
use vstd::prelude::*;
use crate::model::{ClientEndpointId, Rect, ClientShellConfig, ClientShellSnapshot, WorkspaceHit, any_pane, any_workspace, has_pane, has_workspace};
use crate::shell::{ClientEndpointFocusTarget, ClientShellAction, ClientShellInput, ClientShellMode, ClientShellState, focus_action, keeps_world};
use crate::agent_navigation::{AgentNavigationTarget, agent_row_rect_of};

verus! {

/// What to refocus when navigation preview is cancelled instead of accepted.
#[derive(Debug)]
pub enum NavigationPreviewRestore {
    Workspace(String),
    Pane(String),
}

/// Focus captured when a navigation mode started with `ui.navigation_preview` on.
#[derive(Debug)]
pub struct NavigationPreviewOrigin {
    pub endpoint_id: ClientEndpointId,
    pub restore: NavigationPreviewRestore,
    /// Set once a preview focus was sent, so cancel knows a restore is needed.
    pub previewed: bool,
}

/// The origin a navigation starts with: none when preview is off or there is
/// nothing to restore.
pub open spec fn preview_origin_for(config: ClientShellConfig, active: ClientEndpointId, restore: Option<NavigationPreviewRestore>) -> Option<NavigationPreviewOrigin> {
    if config.navigation_preview && restore is Some {
        Some(NavigationPreviewOrigin { endpoint_id: active, restore: restore->0, previewed: false })
    } else {
        None
    }
}

/// The space to restore: the focused space of the active machine.
pub open spec fn workspace_restore(snapshot: Option<ClientShellSnapshot>) -> Option<NavigationPreviewRestore> {
    match snapshot {
        Some(s) => match s.focused_workspace_id {
            Some(w) => Some(NavigationPreviewRestore::Workspace(w)),
            None => None,
        },
        None => None,
    }
}

/// The pane to restore: the focused pane of the active machine.
pub open spec fn pane_restore(snapshot: Option<ClientShellSnapshot>) -> Option<NavigationPreviewRestore> {
    match snapshot {
        Some(s) => match s.focused_pane_id {
            Some(p) => Some(NavigationPreviewRestore::Pane(p)),
            None => None,
        },
        None => None,
    }
}

/// A preview on `endpoint_id` is shown: only on the origin machine.
pub open spec fn previews(origin: Option<NavigationPreviewOrigin>, endpoint_id: ClientEndpointId) -> bool {
    origin is Some && origin->0.endpoint_id == endpoint_id
}

/// The origin after previewing a target on `endpoint_id`.
pub open spec fn previewed_origin(origin: Option<NavigationPreviewOrigin>, endpoint_id: ClientEndpointId) -> Option<NavigationPreviewOrigin> {
    if previews(origin, endpoint_id) {
        Some(NavigationPreviewOrigin { previewed: true, ..origin->0 })
    } else {
        origin
    }
}

/// The focus requests of previewing `target` on `endpoint_id`.
pub open spec fn preview_actions(origin: Option<NavigationPreviewOrigin>, endpoint_id: ClientEndpointId, target: ClientEndpointFocusTarget) -> Seq<ClientShellAction> {
    if previews(origin, endpoint_id) {
        seq![focus_action(endpoint_id, target)]
    } else {
        Seq::empty()
    }
}

/// The focus requests of cancelling a preview: the origin focus, when a
/// preview was shown on the machine that is still active and the origin's
/// space or pane still exists.
pub open spec fn restore_actions(origin: Option<NavigationPreviewOrigin>, active: ClientEndpointId, snapshot: Option<ClientShellSnapshot>) -> Seq<ClientShellAction> {
    match origin {
        Some(o) => if !o.previewed || o.endpoint_id != active {
            Seq::empty()
        } else {
            match snapshot {
                Some(s) => match o.restore {
                    NavigationPreviewRestore::Workspace(w) => if has_workspace(s.workspaces@, w@) {
                        seq![focus_action(o.endpoint_id, ClientEndpointFocusTarget::Workspace(w))]
                    } else {
                        Seq::empty()
                    },
                    NavigationPreviewRestore::Pane(p) => if has_pane(s.panes@, p@) {
                        seq![focus_action(o.endpoint_id, ClientEndpointFocusTarget::Pane(p))]
                    } else {
                        Seq::empty()
                    },
                },
                None => Seq::empty(),
            }
        },
        None => Seq::empty(),
    }
}

/// The index of the first space row of `endpoint_id` showing `workspace`, or
/// the length.
pub open spec fn workspace_hit_index_from(hits: Seq<WorkspaceHit>, endpoint_id: ClientEndpointId, workspace: Seq<char>, from: int) -> int
    decreases hits.len() - from,
{
    if from >= hits.len() {
        hits.len() as int
    } else if hits[from].endpoint_id == endpoint_id && hits[from].workspace_id@ == workspace {
        from
    } else {
        workspace_hit_index_from(hits, endpoint_id, workspace, from + 1)
    }
}

pub open spec fn workspace_hit_rect(hits: Seq<WorkspaceHit>, endpoint_id: ClientEndpointId, workspace: Seq<char>) -> Option<Rect> {
    let i = workspace_hit_index_from(hits, endpoint_id, workspace, 0);
    if i < hits.len() {
        Some(hits[i].rect)
    } else {
        None
    }
}

/// The row painted as focused while a preview has moved the real focus: the
/// origin's row, in a navigation mode, once a preview was shown, unless the
/// origin is itself the selection.
pub open spec fn preview_origin_row(s: ClientShellState) -> Option<Rect> {
    if s.mode != ClientShellMode::Navigate && s.mode != ClientShellMode::NavigateAgents {
        None
    } else {
        match s.navigation_preview_origin {
            None => None,
            Some(o) => if !o.previewed {
                None
            } else {
                match o.restore {
                    NavigationPreviewRestore::Workspace(w) => if s.navigate_workspace_id is Some
                        && s.navigate_workspace_id->0.endpoint_id == o.endpoint_id
                        && s.navigate_workspace_id->0.workspace_id@ == w@ {
                        None
                    } else {
                        workspace_hit_rect(s.hits.workspaces@, o.endpoint_id, w@)
                    },
                    NavigationPreviewRestore::Pane(p) => if s.navigate_agent is Some
                        && s.navigate_agent->0.endpoint_id == o.endpoint_id
                        && s.navigate_agent->0.pane_id@ == p@ {
                        None
                    } else {
                        agent_row_rect_of(s.hits, s.active_endpoint_id, o.endpoint_id, p@)
                    },
                }
            },
        }
    }
}

fn workspace_hit(hits: &Vec<WorkspaceHit>, endpoint_id: ClientEndpointId, workspace_id: &String) -> (rect: Option<Rect>)
    ensures
        rect == workspace_hit_rect(hits@, endpoint_id, workspace_id@),
{
    let mut i: usize = 0;
    while i < hits.len()
        invariant
            i <= hits.len(),
            workspace_hit_index_from(hits@, endpoint_id, workspace_id@, 0)
                == workspace_hit_index_from(hits@, endpoint_id, workspace_id@, i as int),
        decreases hits.len() - i,
    {
        if hits[i].endpoint_id == endpoint_id && hits[i].workspace_id.eq(workspace_id) {
            return Some(hits[i].rect);
        }
        i = i + 1;
    }
    None
}

impl ClientShellState {
    pub fn begin_navigation_preview(&mut self, restore: Option<NavigationPreviewRestore>)
        ensures
            keeps_world(*old(self), *final(self)),
            final(self).mode == old(self).mode,
            final(self).navigate_agent == old(self).navigate_agent,
            final(self).agent_scroll == old(self).agent_scroll,
            final(self).navigation_preview_origin == preview_origin_for(old(self).config, old(self).active_endpoint_id, restore),
    {
        self.navigation_preview_origin = None;
        if !self.config.navigation_preview {
            return;
        }
        match restore {
            Some(restore) => {
                self.navigation_preview_origin = Some(NavigationPreviewOrigin {
                    endpoint_id: self.active_endpoint_id,
                    restore,
                    previewed: false,
                });
            },
            None => {},
        }
    }

    /// Captures the focused space as the origin of space navigation.
    pub fn begin_workspace_navigation_preview(&mut self)
        ensures
            keeps_world(*old(self), *final(self)),
            final(self).mode == old(self).mode,
            final(self).navigate_agent == old(self).navigate_agent,
            final(self).agent_scroll == old(self).agent_scroll,
            final(self).navigation_preview_origin == preview_origin_for(
                old(self).config,
                old(self).active_endpoint_id,
                workspace_restore(old(self).snapshot),
            ),
    {
        let restore = match &self.snapshot {
            Some(snapshot) => match &snapshot.focused_workspace_id {
                Some(w) => Some(NavigationPreviewRestore::Workspace(w.clone())),
                None => None,
            },
            None => None,
        };
        self.begin_navigation_preview(restore);
    }

    /// Captures the focused pane as the origin of agent navigation.
    pub fn begin_agent_navigation_preview(&mut self)
        ensures
            keeps_world(*old(self), *final(self)),
            final(self).mode == old(self).mode,
            final(self).navigate_agent == old(self).navigate_agent,
            final(self).agent_scroll == old(self).agent_scroll,
            final(self).navigation_preview_origin == preview_origin_for(
                old(self).config,
                old(self).active_endpoint_id,
                pane_restore(old(self).snapshot),
            ),
    {
        let restore = match &self.snapshot {
            Some(snapshot) => match &snapshot.focused_pane_id {
                Some(p) => Some(NavigationPreviewRestore::Pane(p.clone())),
                None => None,
            },
            None => None,
        };
        self.begin_navigation_preview(restore);
    }

    /// Previews the selected space.
    pub fn preview_navigate_workspace(&mut self, outcome: &mut ClientShellInput)
        ensures
            keeps_world(*old(self), *final(self)),
            final(self).mode == old(self).mode,
            final(self).navigate_agent == old(self).navigate_agent,
            final(self).agent_scroll == old(self).agent_scroll,
            final(outcome).repaint == old(outcome).repaint,
            match old(self).navigate_workspace_id {
                Some(t) => {
                    &&& final(self).navigation_preview_origin == previewed_origin(old(self).navigation_preview_origin, t.endpoint_id)
                    &&& final(outcome).actions@ == old(outcome).actions@ + preview_actions(
                        old(self).navigation_preview_origin,
                        t.endpoint_id,
                        ClientEndpointFocusTarget::Workspace(t.workspace_id),
                    )
                },
                None => {
                    &&& final(self).navigation_preview_origin == old(self).navigation_preview_origin
                    &&& final(outcome).actions@ == old(outcome).actions@
                },
            },
    {
        let (endpoint_id, workspace_id) = match &self.navigate_workspace_id {
            Some(t) => (t.endpoint_id, t.workspace_id.clone()),
            None => {
                return;
            },
        };
        self.preview_navigation_focus(endpoint_id, ClientEndpointFocusTarget::Workspace(workspace_id), outcome);
    }

    /// Previews the selected agent's pane.
    pub fn preview_navigate_agent(&mut self, outcome: &mut ClientShellInput)
        ensures
            keeps_world(*old(self), *final(self)),
            final(self).mode == old(self).mode,
            final(self).navigate_agent == old(self).navigate_agent,
            final(self).agent_scroll == old(self).agent_scroll,
            final(outcome).repaint == old(outcome).repaint,
            match old(self).navigate_agent {
                Some(t) => {
                    &&& final(self).navigation_preview_origin == previewed_origin(old(self).navigation_preview_origin, t.endpoint_id)
                    &&& final(outcome).actions@ == old(outcome).actions@ + preview_actions(
                        old(self).navigation_preview_origin,
                        t.endpoint_id,
                        ClientEndpointFocusTarget::Pane(t.pane_id),
                    )
                },
                None => {
                    &&& final(self).navigation_preview_origin == old(self).navigation_preview_origin
                    &&& final(outcome).actions@ == old(outcome).actions@
                },
            },
    {
        let (endpoint_id, pane_id) = match &self.navigate_agent {
            Some(t) => (t.endpoint_id, t.pane_id.clone()),
            None => {
                return;
            },
        };
        self.preview_navigation_focus(endpoint_id, ClientEndpointFocusTarget::Pane(pane_id), outcome);
    }

    /// Previews only targets on the origin machine; switching machines is never previewed.
    pub fn preview_navigation_focus(&mut self, endpoint_id: ClientEndpointId, target: ClientEndpointFocusTarget, outcome: &mut ClientShellInput)
        ensures
            keeps_world(*old(self), *final(self)),
            final(self).mode == old(self).mode,
            final(self).navigate_agent == old(self).navigate_agent,
            final(self).agent_scroll == old(self).agent_scroll,
            final(outcome).repaint == old(outcome).repaint,
            final(self).navigation_preview_origin == previewed_origin(old(self).navigation_preview_origin, endpoint_id),
            final(outcome).actions@ == old(outcome).actions@ + preview_actions(old(self).navigation_preview_origin, endpoint_id, target),
    {
        let same_machine = match &self.navigation_preview_origin {
            Some(origin) => origin.endpoint_id == endpoint_id,
            None => false,
        };
        if !same_machine {
            proof {
                assert(old(outcome).actions@ + Seq::<ClientShellAction>::empty() =~= old(outcome).actions@);
            }
            return;
        }
        let origin = self.navigation_preview_origin.take();
        match origin {
            Some(origin) => {
                self.navigation_preview_origin = Some(NavigationPreviewOrigin { previewed: true, ..origin });
            },
            None => {},
        }
        self.focus_or_activate(endpoint_id, target, outcome);
        proof {
            assert(final(outcome).actions@ =~= old(outcome).actions@ + preview_actions(old(self).navigation_preview_origin, endpoint_id, target));
        }
    }

    /// Restores the origin focus if a preview was shown. Called on every non-Enter exit.
    pub fn cancel_navigation_preview(&mut self, outcome: &mut ClientShellInput)
        ensures
            keeps_world(*old(self), *final(self)),
            final(self).mode == old(self).mode,
            final(self).navigate_agent == old(self).navigate_agent,
            final(self).agent_scroll == old(self).agent_scroll,
            final(self).navigation_preview_origin is None,
            final(outcome).repaint == old(outcome).repaint,
            final(outcome).actions@ == old(outcome).actions@ + restore_actions(
                old(self).navigation_preview_origin,
                old(self).active_endpoint_id,
                old(self).snapshot,
            ),
    {
        let taken = self.navigation_preview_origin.take();
        proof {
            assert(old(outcome).actions@ + Seq::<ClientShellAction>::empty() =~= old(outcome).actions@);
        }
        let origin = match taken {
            Some(origin) => origin,
            None => {
                return;
            },
        };
        if !origin.previewed || origin.endpoint_id != self.active_endpoint_id {
            return;
        }
        let target = match &self.snapshot {
            Some(snapshot) => match origin.restore {
                NavigationPreviewRestore::Workspace(workspace_id) => {
                    if !any_workspace(&snapshot.workspaces, &workspace_id) {
                        return;
                    }
                    ClientEndpointFocusTarget::Workspace(workspace_id)
                },
                NavigationPreviewRestore::Pane(pane_id) => {
                    if !any_pane(&snapshot.panes, &pane_id) {
                        return;
                    }
                    ClientEndpointFocusTarget::Pane(pane_id)
                },
            },
            None => {
                return;
            },
        };
        self.focus_or_activate(origin.endpoint_id, target, outcome);
        proof {
            assert(final(outcome).actions@ =~= old(outcome).actions@ + restore_actions(
                old(self).navigation_preview_origin,
                old(self).active_endpoint_id,
                old(self).snapshot,
            ));
        }
    }

    /// The row to keep painted as focused (on the palette's active row
    /// background) while a preview has moved the real focus elsewhere.
    pub fn render_navigation_preview_origin(&self) -> (rect: Option<Rect>)
        ensures
            rect == preview_origin_row(*self),
    {
        if self.mode != ClientShellMode::Navigate && self.mode != ClientShellMode::NavigateAgents {
            return None;
        }
        let origin = match &self.navigation_preview_origin {
            Some(origin) => origin,
            None => {
                return None;
            },
        };
        if !origin.previewed {
            return None;
        }
        match &origin.restore {
            NavigationPreviewRestore::Workspace(workspace_id) => {
                let selected = match &self.navigate_workspace_id {
                    Some(target) => target.matches(origin.endpoint_id, workspace_id),
                    None => false,
                };
                if selected {
                    return None;
                }
                workspace_hit(&self.hits.workspaces, origin.endpoint_id, workspace_id)
            },
            NavigationPreviewRestore::Pane(pane_id) => {
                let selected = match &self.navigate_agent {
                    Some(target) => target.endpoint_id == origin.endpoint_id && target.pane_id.eq(pane_id),
                    None => false,
                };
                if selected {
                    return None;
                }
                let target = AgentNavigationTarget { endpoint_id: origin.endpoint_id, pane_id: pane_id.clone() };
                self.agent_row_rect(&target)
            },
        }
    }

    /// Enter keeps the previewed focus; forget the origin.
    pub fn commit_navigation_preview(&mut self)
        ensures
            keeps_world(*old(self), *final(self)),
            final(self).mode == old(self).mode,
            final(self).navigate_agent == old(self).navigate_agent,
            final(self).agent_scroll == old(self).agent_scroll,
            final(self).navigation_preview_origin is None,
    {
        self.navigation_preview_origin = None;
    }
}


// ----------------------------------------------------------------------------
// Laws of navigation preview
// ----------------------------------------------------------------------------

/// With `ui.navigation_preview` off, navigation captures no origin, so moving
/// the selection sends no focus and leaving restores nothing.
pub proof fn lemma_preview_off(config: ClientShellConfig, active: ClientEndpointId, restore: Option<NavigationPreviewRestore>, endpoint_id: ClientEndpointId, target: ClientEndpointFocusTarget, snapshot: Option<ClientShellSnapshot>)
    requires
        !config.navigation_preview,
    ensures
        preview_origin_for(config, active, restore) is None,
        preview_actions(preview_origin_for(config, active, restore), endpoint_id, target) == Seq::<ClientShellAction>::empty(),
        restore_actions(preview_origin_for(config, active, restore), active, snapshot) == Seq::<ClientShellAction>::empty(),
{
}

/// Leaving navigation before any preview was shown sends nothing.
pub proof fn lemma_leave_without_preview(config: ClientShellConfig, active: ClientEndpointId, restore: Option<NavigationPreviewRestore>, snapshot: Option<ClientShellSnapshot>)
    ensures
        restore_actions(preview_origin_for(config, active, restore), active, snapshot) == Seq::<ClientShellAction>::empty(),
{
}

/// Previewing a target on the origin machine sends its focus; leaving
/// afterwards on the same machine refocuses the origin space, when it still
/// exists.
pub proof fn lemma_preview_then_cancel_workspace(config: ClientShellConfig, active: ClientEndpointId, origin_space: String, target: ClientEndpointFocusTarget, snapshot: ClientShellSnapshot)
    requires
        config.navigation_preview,
        has_workspace(snapshot.workspaces@, origin_space@),
    ensures
        ({
            let origin = preview_origin_for(config, active, Some(NavigationPreviewRestore::Workspace(origin_space)));
            &&& preview_actions(origin, active, target) == seq![focus_action(active, target)]
            &&& restore_actions(previewed_origin(origin, active), active, Some(snapshot))
                == seq![focus_action(active, ClientEndpointFocusTarget::Workspace(origin_space))]
        }),
{
}

/// The same for agent navigation: leaving after a preview refocuses the
/// origin pane, when it still exists.
pub proof fn lemma_preview_then_cancel_pane(config: ClientShellConfig, active: ClientEndpointId, origin_pane: String, target: ClientEndpointFocusTarget, snapshot: ClientShellSnapshot)
    requires
        config.navigation_preview,
        has_pane(snapshot.panes@, origin_pane@),
    ensures
        ({
            let origin = preview_origin_for(config, active, Some(NavigationPreviewRestore::Pane(origin_pane)));
            &&& preview_actions(origin, active, target) == seq![focus_action(active, target)]
            &&& restore_actions(previewed_origin(origin, active), active, Some(snapshot))
                == seq![focus_action(active, ClientEndpointFocusTarget::Pane(origin_pane))]
        }),
{
}

/// Switching machines is never previewed.
pub proof fn lemma_other_machine_not_previewed(origin: Option<NavigationPreviewOrigin>, endpoint_id: ClientEndpointId, target: ClientEndpointFocusTarget)
    requires
        origin is Some,
        origin->0.endpoint_id != endpoint_id,
    ensures
        preview_actions(origin, endpoint_id, target) == Seq::<ClientShellAction>::empty(),
        previewed_origin(origin, endpoint_id) == origin,
{
}

} // verus!
