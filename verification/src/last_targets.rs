//! Client-side focus history behind the `last_workspace` and `last_tab`
//! actions: the space focused before the current one (tmux `switch-client -l`)
//! and, per space, the tab focused before its current one (tmux `last-window`).
use vstd::prelude::*;
use crate::model::{ClientShellSnapshot, TabInfo, find_tab, tab_index, any_workspace, has_workspace};
use crate::shell::{Method, ClientShellState};

verus! {

/// The view of the history: the previous space, and per space its previous tab.
pub type LastView = (Option<Seq<char>>, Map<Seq<char>, Seq<char>>);

/// Client-side focus history behind the `last_workspace` and `last_tab` actions.
#[derive(Debug)]
pub struct LastTargets {
    /// Space focused before the current one.
    workspace_id: Option<String>,
    /// Per space: the tab focused before its current one. Each space once.
    tab_by_workspace: Vec<(String, String)>,
}

pub open spec fn opt_view(s: Option<String>) -> Option<Seq<char>> {
    match s {
        Some(x) => Some(x@),
        None => None,
    }
}

/// The space-to-tab map that a list of (space, tab) pairs with distinct spaces holds.
pub open spec fn tab_map(pairs: Seq<(String, String)>) -> Map<Seq<char>, Seq<char>> {
    Map::new(
        |k: Seq<char>| exists|i: int| 0 <= i < pairs.len() && #[trigger] pairs[i].0@ == k,
        |k: Seq<char>| pairs[choose|i: int| 0 <= i < pairs.len() && #[trigger] pairs[i].0@ == k].1@,
    )
}

pub open spec fn distinct_spaces(pairs: Seq<(String, String)>) -> bool {
    forall|i: int, j: int| 0 <= i < pairs.len() && 0 <= j < pairs.len() && i != j ==> #[trigger] pairs[i].0@ != #[trigger] pairs[j].0@
}

proof fn lemma_tab_map_at(pairs: Seq<(String, String)>, i: int)
    requires
        distinct_spaces(pairs),
        0 <= i < pairs.len(),
    ensures
        tab_map(pairs).contains_key(pairs[i].0@),
        tab_map(pairs)[pairs[i].0@] == pairs[i].1@,
{
    let k = pairs[i].0@;
    assert(tab_map(pairs).dom().contains(k));
    let j = choose|j: int| 0 <= j < pairs.len() && #[trigger] pairs[j].0@ == k;
    assert(pairs[j].0@ == k);
}

proof fn lemma_tab_map_replace(before: Seq<(String, String)>, after: Seq<(String, String)>, i: int, key: Seq<char>, value: Seq<char>)
    requires
        distinct_spaces(before),
        0 <= i < before.len(),
        after.len() == before.len(),
        before[i].0@ == key,
        after[i].0@ == key,
        after[i].1@ == value,
        forall|j: int| 0 <= j < before.len() && j != i ==> after[j] == before[j],
    ensures
        distinct_spaces(after),
        tab_map(after) == tab_map(before).insert(key, value),
{
    assert forall|a: int, b: int| 0 <= a < after.len() && 0 <= b < after.len() && a != b implies #[trigger] after[a].0@ != #[trigger] after[b].0@ by {
        assert(before[a].0@ != before[b].0@);
    }
    let expected = tab_map(before).insert(key, value);
    assert forall|k: Seq<char>| tab_map(after).dom().contains(k) <==> expected.dom().contains(k) by {
        if tab_map(before).dom().contains(k) {
            let j = choose|j: int| 0 <= j < before.len() && #[trigger] before[j].0@ == k;
            assert(after[j].0@ == k);
        }
        if tab_map(after).dom().contains(k) && k != key {
            let j = choose|j: int| 0 <= j < after.len() && #[trigger] after[j].0@ == k;
            assert(before[j].0@ == k);
        }
        if k == key {
            assert(after[i].0@ == k);
        }
    }
    assert forall|k: Seq<char>| tab_map(after).dom().contains(k) implies tab_map(after)[k] == expected[k] by {
        let j = choose|j: int| 0 <= j < after.len() && #[trigger] after[j].0@ == k;
        lemma_tab_map_at(after, j);
        if k != key {
            assert(before[j] == after[j]);
            lemma_tab_map_at(before, j);
        }
    }
    assert(tab_map(after) =~= expected);
}

proof fn lemma_tab_map_push(before: Seq<(String, String)>, after: Seq<(String, String)>, key: Seq<char>, value: Seq<char>)
    requires
        distinct_spaces(before),
        forall|j: int| 0 <= j < before.len() ==> #[trigger] before[j].0@ != key,
        after.len() == before.len() + 1,
        after[before.len() as int].0@ == key,
        after[before.len() as int].1@ == value,
        forall|j: int| 0 <= j < before.len() ==> after[j] == before[j],
    ensures
        distinct_spaces(after),
        tab_map(after) == tab_map(before).insert(key, value),
{
    let last = before.len() as int;
    assert forall|a: int, b: int| 0 <= a < after.len() && 0 <= b < after.len() && a != b implies #[trigger] after[a].0@ != #[trigger] after[b].0@ by {
        if a < last && b < last {
            assert(before[a].0@ != before[b].0@);
        } else if a < last {
            assert(after[a] == before[a]);
        } else {
            assert(after[b] == before[b]);
        }
    }
    let expected = tab_map(before).insert(key, value);
    assert forall|k: Seq<char>| tab_map(after).dom().contains(k) <==> expected.dom().contains(k) by {
        if tab_map(before).dom().contains(k) {
            let j = choose|j: int| 0 <= j < before.len() && #[trigger] before[j].0@ == k;
            assert(after[j].0@ == k);
        }
        if tab_map(after).dom().contains(k) && k != key {
            let j = choose|j: int| 0 <= j < after.len() && #[trigger] after[j].0@ == k;
            assert(j != last);
            assert(before[j].0@ == k);
        }
        if k == key {
            assert(after[last].0@ == k);
        }
    }
    assert forall|k: Seq<char>| tab_map(after).dom().contains(k) implies tab_map(after)[k] == expected[k] by {
        let j = choose|j: int| 0 <= j < after.len() && #[trigger] after[j].0@ == k;
        lemma_tab_map_at(after, j);
        if k != key {
            assert(j != last);
            assert(before[j] == after[j]);
            lemma_tab_map_at(before, j);
        }
    }
    assert(tab_map(after) =~= expected);
}

impl LastTargets {
    #[verifier::type_invariant]
    spec fn spaces_once(self) -> bool {
        distinct_spaces(self.tab_by_workspace@)
    }

    pub closed spec fn view(&self) -> LastView {
        (opt_view(self.workspace_id), tab_map(self.tab_by_workspace@))
    }

    /// No history.
    pub fn new() -> (r: LastTargets)
        ensures
            r@.0 is None,
            r@.1 == Map::<Seq<char>, Seq<char>>::empty(),
    {
        let r = LastTargets { workspace_id: None, tab_by_workspace: Vec::new() };
        assert(r@.1 =~= Map::<Seq<char>, Seq<char>>::empty());
        r
    }

    /// The space focused before the current one.
    pub fn last_workspace(&self) -> (r: &Option<String>)
        ensures
            opt_view(*r) == self@.0,
    {
        &self.workspace_id
    }

    /// The tab focused in `workspace_id` before its current one.
    pub fn tab_for(&self, workspace_id: &String) -> (r: Option<&String>)
        ensures
            match r {
                Some(tab) => self@.1.contains_key(workspace_id@) && self@.1[workspace_id@] == tab@,
                None => !self@.1.contains_key(workspace_id@),
            },
    {
        proof {
            use_type_invariant(self);
        }
        let mut i: usize = 0;
        while i < self.tab_by_workspace.len()
            invariant
                i <= self.tab_by_workspace.len(),
                distinct_spaces(self.tab_by_workspace@),
                forall|j: int| 0 <= j < i ==> #[trigger] self.tab_by_workspace@[j].0@ != workspace_id@,
            decreases self.tab_by_workspace.len() - i,
        {
            if self.tab_by_workspace[i].0.eq(workspace_id) {
                proof {
                    lemma_tab_map_at(self.tab_by_workspace@, i as int);
                }
                return Some(&self.tab_by_workspace[i].1);
            }
            i = i + 1;
        }
        proof {
            if tab_map(self.tab_by_workspace@).contains_key(workspace_id@) {
                let j = choose|j: int| 0 <= j < self.tab_by_workspace@.len() && #[trigger] self.tab_by_workspace@[j].0@ == workspace_id@;
                assert(self.tab_by_workspace@[j].0@ != workspace_id@);
            }
        }
        None
    }

    /// Records `workspace_id` as the previous space.
    pub fn remember_workspace(&mut self, workspace_id: String)
        ensures
            final(self)@ == (Some(workspace_id@), old(self)@.1),
    {
        proof {
            use_type_invariant(&*self);
        }
        self.workspace_id = Some(workspace_id);
    }

    /// Records `tab_id` as the previous tab of `workspace_id`.
    pub fn remember_tab(&mut self, workspace_id: String, tab_id: String)
        ensures
            final(self)@ == (old(self)@.0, old(self)@.1.insert(workspace_id@, tab_id@)),
    {
        proof {
            use_type_invariant(&*self);
        }
        let ghost old_pairs = self.tab_by_workspace@;
        let mut i: usize = 0;
        let n = self.tab_by_workspace.len();
        while i < n && !self.tab_by_workspace[i].0.eq(&workspace_id)
            invariant
                i <= n == self.tab_by_workspace.len(),
                forall|j: int| 0 <= j < i ==> #[trigger] self.tab_by_workspace@[j].0@ != workspace_id@,
            decreases n - i,
        {
            i = i + 1;
        }
        let ghost key = workspace_id@;
        let ghost value = tab_id@;
        if i < n {
            let ghost found = i as int;
            let mut pairs = Vec::new();
            std::mem::swap(&mut pairs, &mut self.tab_by_workspace);
            pairs.set(i, (workspace_id, tab_id));
            proof {
                lemma_tab_map_replace(old_pairs, pairs@, found, key, value);
            }
            self.tab_by_workspace = pairs;
        } else {
            let mut pairs = Vec::new();
            std::mem::swap(&mut pairs, &mut self.tab_by_workspace);
            pairs.push((workspace_id, tab_id));
            proof {
                lemma_tab_map_push(old_pairs, pairs@, key, value);
            }
            self.tab_by_workspace = pairs;
        }
    }
}


// ----------------------------------------------------------------------------
// Tracking focus changes
// ----------------------------------------------------------------------------

/// The space of tab `tab` in `snapshot`.
pub open spec fn tab_workspace(snapshot: ClientShellSnapshot, tab: Seq<char>) -> Option<Seq<char>> {
    let i = tab_index(snapshot.tabs@, tab);
    if i < snapshot.tabs@.len() {
        Some(snapshot.tabs@[i].workspace_id@)
    } else {
        None
    }
}

/// The previous value when a focus moved from one value to another.
pub open spec fn moved_from(previous: Option<String>, next: Option<String>) -> Option<Seq<char>> {
    match (previous, next) {
        (Some(p), Some(n)) => if p@ != n@ {
            Some(p@)
        } else {
            None
        },
        _ => None,
    }
}

/// The (space, previous tab) of a tab change inside one space between two
/// snapshots; switching spaces is no tab change.
pub open spec fn tab_change(current: ClientShellSnapshot, next: ClientShellSnapshot) -> Option<(Seq<char>, Seq<char>)> {
    match (current.focused_tab_id, next.focused_tab_id) {
        (Some(p), Some(n)) => if p@ == n@ {
            None
        } else {
            match (tab_workspace(current, p@), tab_workspace(next, n@)) {
                (Some(from), Some(to)) => if from == to {
                    Some((from, p@))
                } else {
                    None
                },
                _ => None,
            }
        },
        _ => None,
    }
}

/// The history after the focus moved from `current` to `next`.
pub open spec fn after_focus_change(history: LastView, current: Option<ClientShellSnapshot>, next: ClientShellSnapshot) -> LastView {
    match current {
        None => history,
        Some(c) => (
            match moved_from(c.focused_workspace_id, next.focused_workspace_id) {
                Some(p) => Some(p),
                None => history.0,
            },
            match tab_change(c, next) {
                Some((workspace, tab)) => history.1.insert(workspace, tab),
                None => history.1,
            },
        ),
    }
}

/// The space that `last_workspace` focuses: the previous space, unless it is
/// the focused one or gone.
pub open spec fn last_workspace_target(history: LastView, snapshot: ClientShellSnapshot) -> Option<Seq<char>> {
    match history.0 {
        None => None,
        Some(w) => if opt_view(snapshot.focused_workspace_id) == Some(w) || !has_workspace(snapshot.workspaces@, w) {
            None
        } else {
            Some(w)
        },
    }
}

/// A tab `tab` of space `workspace` exists.
pub open spec fn has_tab_in(tabs: Seq<TabInfo>, tab: Seq<char>, workspace: Seq<char>) -> bool {
    exists|i: int| 0 <= i < tabs.len() && #[trigger] tabs[i].tab_id@ == tab && tabs[i].workspace_id@ == workspace
}

/// The tab that `last_tab` focuses: the previous tab of the focused space,
/// unless it is the focused tab or no longer a tab of that space.
pub open spec fn last_tab_target(history: LastView, snapshot: ClientShellSnapshot) -> Option<Seq<char>> {
    match snapshot.focused_workspace_id {
        None => None,
        Some(w) => if !history.1.contains_key(w@) {
            None
        } else {
            let t = history.1[w@];
            if opt_view(snapshot.focused_tab_id) == Some(t) || !has_tab_in(snapshot.tabs@, t, w@) {
                None
            } else {
                Some(t)
            }
        },
    }
}

fn workspace_of_tab(snapshot: &ClientShellSnapshot, tab_id: &String) -> (r: Option<String>)
    ensures
        opt_view(r) == tab_workspace(*snapshot, tab_id@),
{
    let i = find_tab(&snapshot.tabs, tab_id);
    if i < snapshot.tabs.len() {
        Some(snapshot.tabs[i].workspace_id.clone())
    } else {
        None
    }
}

fn any_tab_in(tabs: &Vec<TabInfo>, tab_id: &String, workspace_id: &String) -> (r: bool)
    ensures
        r == has_tab_in(tabs@, tab_id@, workspace_id@),
{
    let mut i: usize = 0;
    while i < tabs.len()
        invariant
            i <= tabs.len(),
            forall|j: int| 0 <= j < i ==> !(#[trigger] tabs@[j].tab_id@ == tab_id@ && tabs@[j].workspace_id@ == workspace_id@),
        decreases tabs.len() - i,
    {
        if tabs[i].tab_id.eq(tab_id) && tabs[i].workspace_id.eq(workspace_id) {
            return true;
        }
        i = i + 1;
    }
    false
}

impl ClientShellState {
    /// Records focus changes between the current snapshot and the incoming one.
    pub fn track_last_targets(&mut self, next: &ClientShellSnapshot)
        ensures
            keeps_world_but_history(*old(self), *final(self)),
            final(self).last_targets@ == after_focus_change(old(self).last_targets@, old(self).snapshot, *next),
    {
        let current = match &self.snapshot {
            Some(current) => current,
            None => {
                return;
            },
        };
        let ghost history0 = self.last_targets@;
        let mut history = LastTargets::new();
        std::mem::swap(&mut history, &mut self.last_targets);
        match (&current.focused_workspace_id, &next.focused_workspace_id) {
            (Some(previous), Some(focused)) => {
                if !previous.eq(focused) {
                    history.remember_workspace(previous.clone());
                }
            },
            _ => {},
        }
        let ghost history1 = history@;
        match (&current.focused_tab_id, &next.focused_tab_id) {
            (Some(previous), Some(focused)) => {
                if !previous.eq(focused) {
                    // Only a tab change inside one space counts; switching spaces keeps
                    // each space's own history.
                    match (workspace_of_tab(current, previous), workspace_of_tab(next, focused)) {
                        (Some(from), Some(to)) => {
                            if from.eq(&to) {
                                history.remember_tab(from, previous.clone());
                            }
                        },
                        _ => {},
                    }
                }
            },
            _ => {},
        }
        proof {
            assert(history@ == after_focus_change(history0, old(self).snapshot, *next));
        }
        self.last_targets = history;
    }

    /// Forgets the history.
    pub fn reset_last_targets(&mut self)
        ensures
            keeps_world_but_history(*old(self), *final(self)),
            final(self).last_targets@.0 is None,
            final(self).last_targets@.1 == Map::<Seq<char>, Seq<char>>::empty(),
    {
        self.last_targets = LastTargets::new();
    }

    /// Focus of the space focused before the current one, if it still exists.
    pub fn last_workspace_method(&self, snapshot: &ClientShellSnapshot) -> (method: Option<Method>)
        ensures
            match method {
                Some(Method::WorkspaceFocus { workspace_id }) => last_workspace_target(self.last_targets@, *snapshot) == Some(workspace_id@),
                Some(_) => false,
                None => last_workspace_target(self.last_targets@, *snapshot) is None,
            },
    {
        let workspace_id = match self.last_targets.last_workspace() {
            Some(w) => w,
            None => {
                return None;
            },
        };
        let focused = match &snapshot.focused_workspace_id {
            Some(f) => f.eq(workspace_id),
            None => false,
        };
        if focused || !any_workspace(&snapshot.workspaces, workspace_id) {
            return None;
        }
        Some(Method::WorkspaceFocus { workspace_id: workspace_id.clone() })
    }

    /// Focus of the tab focused in the current space before its current one,
    /// if it is still a tab of that space.
    pub fn last_tab_method(&self, snapshot: &ClientShellSnapshot) -> (method: Option<Method>)
        ensures
            match method {
                Some(Method::TabFocus { tab_id }) => last_tab_target(self.last_targets@, *snapshot) == Some(tab_id@),
                Some(_) => false,
                None => last_tab_target(self.last_targets@, *snapshot) is None,
            },
    {
        let workspace_id = match &snapshot.focused_workspace_id {
            Some(w) => w,
            None => {
                return None;
            },
        };
        let tab_id = match self.last_targets.tab_for(workspace_id) {
            Some(t) => t,
            None => {
                return None;
            },
        };
        let focused = match &snapshot.focused_tab_id {
            Some(f) => f.eq(tab_id),
            None => false,
        };
        if focused || !any_tab_in(&snapshot.tabs, tab_id, workspace_id) {
            return None;
        }
        Some(Method::TabFocus { tab_id: tab_id.clone() })
    }

    /// Takes a new snapshot of the active machine, recording the focus change.
    pub fn set_snapshot(&mut self, next: ClientShellSnapshot)
        ensures
            final(self).snapshot == Some(next),
            final(self).last_targets@ == after_focus_change(old(self).last_targets@, old(self).snapshot, next),
            final(self).config == old(self).config,
            final(self).mode == old(self).mode,
            final(self).navigate_agent == old(self).navigate_agent,
            final(self).navigation_preview_origin == old(self).navigation_preview_origin,
            final(self).active_endpoint_id == old(self).active_endpoint_id,
            final(self).endpoints == old(self).endpoints,
            final(self).agent_targets == old(self).agent_targets,
            final(self).in_copy_mode == old(self).in_copy_mode,
            final(self).navigate_workspace_id == old(self).navigate_workspace_id,
            final(self).hits == old(self).hits,
            final(self).agent_scroll == old(self).agent_scroll,
    {
        self.track_last_targets(&next);
        self.snapshot = Some(next);
    }
}

/// Everything but the history is the same in `a` and `b`.
pub open spec fn keeps_world_but_history(a: ClientShellState, b: ClientShellState) -> bool {
    &&& a.config == b.config
    &&& a.snapshot == b.snapshot
    &&& a.active_endpoint_id == b.active_endpoint_id
    &&& a.endpoints == b.endpoints
    &&& a.agent_targets == b.agent_targets
    &&& a.in_copy_mode == b.in_copy_mode
    &&& a.navigate_workspace_id == b.navigate_workspace_id
    &&& a.hits == b.hits
    &&& a.mode == b.mode
    &&& a.navigate_agent == b.navigate_agent
    &&& a.navigation_preview_origin == b.navigation_preview_origin
    &&& a.agent_scroll == b.agent_scroll
}


// ----------------------------------------------------------------------------
// Laws of the focus history
// ----------------------------------------------------------------------------

/// After the focus moves from one space to another, `last_workspace` goes
/// back to the first space while it exists; so it toggles between the two
/// most recent spaces.
pub proof fn lemma_last_workspace_after_switch(history: LastView, current: ClientShellSnapshot, next: ClientShellSnapshot)
    requires
        current.focused_workspace_id is Some,
        next.focused_workspace_id is Some,
        current.focused_workspace_id->0@ != next.focused_workspace_id->0@,
        has_workspace(next.workspaces@, current.focused_workspace_id->0@),
    ensures
        last_workspace_target(after_focus_change(history, Some(current), next), next) == Some(current.focused_workspace_id->0@),
{
}

/// A space that no longer exists is never offered.
pub proof fn lemma_last_workspace_exists(history: LastView, snapshot: ClientShellSnapshot)
    ensures
        last_workspace_target(history, snapshot) is Some ==> has_workspace(snapshot.workspaces@, last_workspace_target(history, snapshot)->0),
        last_tab_target(history, snapshot) is Some ==> snapshot.focused_workspace_id is Some
            && has_tab_in(snapshot.tabs@, last_tab_target(history, snapshot)->0, snapshot.focused_workspace_id->0@),
{
}

/// Switching spaces does not count as a tab change: every space keeps its own
/// previous tab.
pub proof fn lemma_tab_history_per_space(history: LastView, current: ClientShellSnapshot, next: ClientShellSnapshot)
    requires
        current.focused_tab_id is Some,
        next.focused_tab_id is Some,
        tab_workspace(current, current.focused_tab_id->0@) is Some,
        tab_workspace(next, next.focused_tab_id->0@) is Some,
        tab_workspace(current, current.focused_tab_id->0@) != tab_workspace(next, next.focused_tab_id->0@),
    ensures
        after_focus_change(history, Some(current), next).1 == history.1,
{
}

/// After the focus moves between two tabs of one space, `last_tab` goes back
/// to the first tab while it is a tab of that space; so it toggles between
/// the space's two most recent tabs.
pub proof fn lemma_last_tab_after_switch(history: LastView, current: ClientShellSnapshot, next: ClientShellSnapshot)
    requires
        current.focused_tab_id is Some,
        next.focused_tab_id is Some,
        current.focused_tab_id->0@ != next.focused_tab_id->0@,
        tab_workspace(current, current.focused_tab_id->0@) is Some,
        next.focused_workspace_id is Some,
        tab_workspace(current, current.focused_tab_id->0@) == Some(next.focused_workspace_id->0@),
        tab_workspace(next, next.focused_tab_id->0@) == Some(next.focused_workspace_id->0@),
        has_tab_in(next.tabs@, current.focused_tab_id->0@, next.focused_workspace_id->0@),
    ensures
        last_tab_target(after_focus_change(history, Some(current), next), next) == Some(current.focused_tab_id->0@),
{
}

/// Without a previous snapshot nothing is recorded.
pub proof fn lemma_first_snapshot_records_nothing(history: LastView, next: ClientShellSnapshot)
    ensures
        after_focus_change(history, None, next) == history,
{
}


/// A snapshot that keeps the focused space, or that lacks one on either side,
/// leaves the previous space as it was; a snapshot that moves the focus to
/// another space records the space it left.
pub proof fn lemma_previous_space(history: LastView, current: ClientShellSnapshot, next: ClientShellSnapshot)
    ensures
        (current.focused_workspace_id is None || next.focused_workspace_id is None
            || current.focused_workspace_id->0@ == next.focused_workspace_id->0@)
            ==> after_focus_change(history, Some(current), next).0 == history.0,
        (current.focused_workspace_id is Some && next.focused_workspace_id is Some
            && current.focused_workspace_id->0@ != next.focused_workspace_id->0@)
            ==> after_focus_change(history, Some(current), next).0 == Some(current.focused_workspace_id->0@),
{
}

} // verus!
