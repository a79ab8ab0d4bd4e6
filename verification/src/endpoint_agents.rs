//! The machines' agents panel: agent rows of every connected machine, in the
//! aggregate order, painted collapsed (one cell per agent) or expanded
//! (grouped by space).
use vstd::prelude::*;
use crate::model::{Color, ClientShellEndpoint, ClientEndpointId, Rect, ClientShellConfig, endpoint_index, endpoint_index_from, rect_new};
use crate::agent_groups::{
    AgentPanelItem, AgentRank, GroupKey, GroupView, agent_items, arranged, endpoint_rank,
    endpoint_rank_of, group_view, grouping_on, workspace_group, workspace_group_of,
};
use crate::agent_groups::{machine_space_label, panel_of};

verus! {

/// An agent's row as the sidebar's row renderer produced it.
#[derive(Debug)]
pub struct AgentRow {
    pub pane_id: String,
    /// The agent's pane has focus.
    pub focused: bool,
    /// The state icon for the agent's status.
    pub status_icon: String,
    /// The colour of the agent's status.
    pub status_color: Color,
    /// Terminal lines of the expanded row.
    pub line_count: usize,
}

/// An agent of the aggregate order: its machine and pane.
#[derive(Debug)]
pub struct AggregateAgentRow {
    pub endpoint_id: ClientEndpointId,
    pub machine_label: String,
    /// The machine's snapshot is out of date.
    pub stale: bool,
    pub pane_id: String,
}

/// An agent row of the machines' panel.
#[derive(Debug)]
pub struct EndpointAgentRow {
    pub endpoint_id: ClientEndpointId,
    pub machine_label: String,
    pub stale: bool,
    pub agent: AgentRow,
}

pub type RowKey = (ClientEndpointId, Seq<char>);

/// The index of the last rendered row of this machine and pane, or -1.
pub open spec fn last_rendered(rendered: Seq<(ClientEndpointId, AgentRow)>, key: RowKey) -> int
    decreases rendered.len(),
{
    if rendered.len() == 0 {
        -1
    } else if (rendered.last().0, rendered.last().1.pane_id@) == key {
        rendered.len() - 1
    } else {
        last_rendered(rendered.drop_last(), key)
    }
}

pub open spec fn aggregate_key(row: AggregateAgentRow) -> RowKey {
    (row.endpoint_id, row.pane_id@)
}

/// No earlier aggregate row names the same machine and pane.
pub open spec fn first_claim(ordered: Seq<AggregateAgentRow>, p: int) -> bool {
    forall|q: int| 0 <= q < p ==> aggregate_key(#[trigger] ordered[q]) != aggregate_key(ordered[p])
}

/// The panel row of an aggregate row and its rendered row; the row keeps its
/// focus only on the active machine.
pub open spec fn joined_row(row: AggregateAgentRow, agent: AgentRow, active: ClientEndpointId) -> EndpointAgentRow {
    EndpointAgentRow {
        endpoint_id: row.endpoint_id,
        machine_label: row.machine_label,
        stale: row.stale,
        agent: AgentRow {
            pane_id: agent.pane_id,
            focused: agent.focused && row.endpoint_id == active,
            status_icon: agent.status_icon,
            status_color: agent.status_color,
            line_count: agent.line_count,
        },
    }
}

/// The panel rows for the first `p` aggregate rows: each takes the last
/// rendered row of its machine and pane, and only the first aggregate row of
/// a machine and pane gets one.
pub open spec fn joined_upto(rendered: Seq<(ClientEndpointId, AgentRow)>, ordered: Seq<AggregateAgentRow>, active: ClientEndpointId, p: int) -> Seq<EndpointAgentRow>
    decreases p,
{
    if p <= 0 {
        Seq::empty()
    } else {
        let prev = joined_upto(rendered, ordered, active, p - 1);
        let row = ordered[p - 1];
        let r = last_rendered(rendered, aggregate_key(row));
        if first_claim(ordered, p - 1) && r >= 0 {
            prev.push(joined_row(row, rendered[r].1, active))
        } else {
            prev
        }
    }
}

proof fn lemma_last_rendered(rendered: Seq<(ClientEndpointId, AgentRow)>, key: RowKey)
    ensures
        -1 <= last_rendered(rendered, key) < rendered.len(),
        last_rendered(rendered, key) >= 0 ==> (rendered[last_rendered(rendered, key)].0, rendered[last_rendered(rendered, key)].1.pane_id@) == key,
        forall|j: int| last_rendered(rendered, key) < j < rendered.len() ==> (#[trigger] rendered[j].0, rendered[j].1.pane_id@) != key,
    decreases rendered.len(),
{
    if rendered.len() > 0 && (rendered.last().0, rendered.last().1.pane_id@) != key {
        lemma_last_rendered(rendered.drop_last(), key);
        assert forall|j: int| last_rendered(rendered, key) < j < rendered.len() implies (#[trigger] rendered[j].0, rendered[j].1.pane_id@) != key by {
            if j < rendered.len() - 1 {
                assert(rendered[j] == rendered.drop_last()[j]);
            }
        }
    }
}

fn same_row_key(a: ClientEndpointId, a_pane: &String, b: ClientEndpointId, b_pane: &String) -> (r: bool)
    ensures
        r == ((a, a_pane@) == (b, b_pane@)),
{
    a == b && a_pane.eq(b_pane)
}

fn take_row(slots: &mut Vec<Option<AgentRow>>, i: usize) -> (r: Option<AgentRow>)
    requires
        i < old(slots).len(),
    ensures
        r == old(slots)@[i as int],
        final(slots)@ == old(slots)@.update(i as int, None),
{
    let mut slot: Option<AgentRow> = None;
    std::mem::swap(&mut slot, &mut slots[i]);
    slot
}

/// The rows of the machines' agents panel: the aggregate order (`ordered`)
/// joined with the rows the sidebar rendered for each machine's agents
/// (`rendered`, in machine order).
pub fn agent_rows(rendered: Vec<(ClientEndpointId, AgentRow)>, ordered: &Vec<AggregateAgentRow>, active_endpoint_id: ClientEndpointId) -> (rows: Vec<EndpointAgentRow>)
    ensures
        rows@ == joined_upto(rendered@, ordered@, active_endpoint_id, ordered@.len() as int),
{
    let ghost rendered0 = rendered@;
    let n = rendered.len();
    // The keys stay while the rows are taken out of their slots.
    let mut keys: Vec<(ClientEndpointId, String)> = Vec::new();
    let mut slots: Vec<Option<AgentRow>> = Vec::new();
    let mut rest = rendered;
    while rest.len() > 0
        invariant
            keys.len() == slots.len(),
            keys.len() + rest.len() == n,
            rendered0.len() == n,
            rest@ == rendered0.skip(keys.len() as int),
            forall|a: int| 0 <= a < keys.len() ==> #[trigger] keys@[a].0 == rendered0[a].0 && keys@[a].1@ == rendered0[a].1.pane_id@,
            forall|a: int| 0 <= a < slots.len() ==> #[trigger] slots@[a] == Some(rendered0[a].1),
        decreases rest.len(),
    {
        let (endpoint_id, agent) = rest.remove(0);
        keys.push((endpoint_id, agent.pane_id.clone()));
        slots.push(Some(agent));
        proof {
            assert(rest@ =~= rendered0.skip(keys.len() as int));
        }
    }
    let mut rows: Vec<EndpointAgentRow> = Vec::new();
    for p in 0..ordered.len()
        invariant
            keys.len() == n,
            slots.len() == n,
            rendered0.len() == n,
            forall|a: int| 0 <= a < n ==> #[trigger] keys@[a].0 == rendered0[a].0 && keys@[a].1@ == rendered0[a].1.pane_id@,
            forall|a: int| 0 <= a < n ==> slots@[a] is Some || exists|q: int| 0 <= q < p && #[trigger] last_rendered(rendered0, aggregate_key(ordered@[q])) == a,
            forall|a: int| 0 <= a < n && #[trigger] slots@[a] is Some ==> slots@[a] == Some(rendered0[a].1),
            rows@ == joined_upto(rendered0, ordered@, active_endpoint_id, p as int),
    {
        let row = &ordered[p];
        let ghost key = aggregate_key(ordered@[p as int]);
        // Only the first aggregate row of a machine and pane gets its row.
        let mut q: usize = 0;
        while q < p && !same_row_key(ordered[q].endpoint_id, &ordered[q].pane_id, row.endpoint_id, &row.pane_id)
            invariant
                q <= p < ordered.len(),
                *row == ordered@[p as int],
                key == aggregate_key(ordered@[p as int]),
                forall|j: int| 0 <= j < q ==> aggregate_key(#[trigger] ordered@[j]) != key,
            decreases p - q,
        {
            q = q + 1;
        }
        let claimed = q == p;
        // The last rendered row of that machine and pane.
        let mut r: usize = n;
        let mut found = false;
        while r > 0 && !found
            invariant
                r <= n,
                p < ordered.len(),
                *row == ordered@[p as int],
                key == aggregate_key(ordered@[p as int]),
                keys.len() == n,
                rendered0.len() == n,
                forall|a: int| 0 <= a < n ==> #[trigger] keys@[a].0 == rendered0[a].0 && keys@[a].1@ == rendered0[a].1.pane_id@,
                !found ==> forall|j: int| r <= j < n ==> (#[trigger] rendered0[j].0, rendered0[j].1.pane_id@) != key,
                found ==> r < n && last_rendered(rendered0, key) == r,
            decreases r + (if found { 0int } else { 1int }),
        {
            if same_row_key(keys[r - 1].0, &keys[r - 1].1, row.endpoint_id, &row.pane_id) {
                proof {
                    lemma_last_rendered(rendered0, key);
                    let l = last_rendered(rendered0, key);
                    assert(keys@[r - 1].0 == rendered0[r - 1].0);
                    if l < r - 1 {
                        assert((rendered0[r - 1].0, rendered0[r - 1].1.pane_id@) != key);
                    }
                    if l >= r {
                        assert((rendered0[l].0, rendered0[l].1.pane_id@) != key);
                    }
                }
                found = true;
                r = r - 1;
            } else {
                r = r - 1;
            }
        }
        proof {
            lemma_last_rendered(rendered0, key);
            if !found {
                let l = last_rendered(rendered0, key);
                if l >= 0 {
                    assert((rendered0[l].0, rendered0[l].1.pane_id@) != key);
                }
            }
        }
        if claimed && found {
            proof {
                if slots@[r as int] is None {
                    let q0 = choose|q0: int| 0 <= q0 < p && #[trigger] last_rendered(rendered0, aggregate_key(ordered@[q0])) == r;
                    lemma_last_rendered(rendered0, aggregate_key(ordered@[q0]));
                    assert(aggregate_key(ordered@[q0]) == key);
                }
            }
            let taken = take_row(&mut slots, r);
            match taken {
                Some(agent) => {
                    let mut agent = agent;
                    agent.focused = agent.focused && row.endpoint_id == active_endpoint_id;
                    rows.push(EndpointAgentRow {
                        endpoint_id: row.endpoint_id,
                        machine_label: row.machine_label.clone(),
                        stale: row.stale,
                        agent,
                    });
                },
                None => {},
            }
            proof {
                assert forall|a: int| 0 <= a < n implies slots@[a] is Some || exists|q: int| 0 <= q < p + 1 && #[trigger] last_rendered(rendered0, aggregate_key(ordered@[q])) == a by {
                    if a == r {
                        assert(last_rendered(rendered0, aggregate_key(ordered@[p as int])) == a);
                    } else if slots@[a] is None {
                        let q0 = choose|q0: int| 0 <= q0 < p && #[trigger] last_rendered(rendered0, aggregate_key(ordered@[q0])) == a;
                        assert(last_rendered(rendered0, aggregate_key(ordered@[q0])) == a);
                    }
                }
            }
        } else {
            proof {
                assert forall|a: int| 0 <= a < n implies slots@[a] is Some || exists|q: int| 0 <= q < p + 1 && #[trigger] last_rendered(rendered0, aggregate_key(ordered@[q])) == a by {
                    if slots@[a] is None {
                        let q0 = choose|q0: int| 0 <= q0 < p && #[trigger] last_rendered(rendered0, aggregate_key(ordered@[q0])) == a;
                        assert(last_rendered(rendered0, aggregate_key(ordered@[q0])) == a);
                    }
                }
            }
        }
        proof {
            assert(first_claim(ordered@, p as int) == claimed);
        }
    }
    rows
}


/// One cell of the collapsed panel: a machine's agent as the machine's
/// initial and the agent's state icon.
#[derive(Debug)]
pub struct CollapsedRow {
    pub rect: Rect,
    /// Painted on the palette's active row background.
    pub highlight: bool,
    pub initial: char,
    pub icon: String,
    /// Foreground of the text.
    pub fg: Color,
    /// The text is dimmed.
    pub dim: bool,
    /// The hit of the row: machine and pane.
    pub endpoint_id: ClientEndpointId,
    pub pane_id: String,
}

pub open spec fn shown_count(rows: int, height: int) -> int {
    if rows < height {
        rows
    } else {
        height
    }
}

/// The first character of a machine label, or `?`.
pub open spec fn initial_of(label: Seq<char>) -> char {
    if label.len() > 0 {
        label[0]
    } else {
        '?'
    }
}

pub open spec fn collapsed_row(area: Rect, k: int, row: EndpointAgentRow, config: ClientShellConfig) -> CollapsedRow {
    CollapsedRow {
        rect: rect_new(area.x, (area.y + k) as u16, area.width, 1),
        highlight: row.agent.focused,
        initial: initial_of(row.machine_label@),
        icon: row.agent.status_icon,
        fg: if row.stale {
            config.palette.overlay0
        } else {
            row.agent.status_color
        },
        dim: row.stale,
        endpoint_id: row.endpoint_id,
        pane_id: row.agent.pane_id,
    }
}

/// The collapsed panel in `area`: one line per row, as many as fit, each the
/// machine's initial and the agent's icon; a focused agent's line is
/// highlighted, a stale machine's dimmed in `overlay0`.
pub fn render_collapsed(area: Rect, rows: Vec<EndpointAgentRow>, config: &ClientShellConfig) -> (cells: Vec<CollapsedRow>)
    requires
        shown_count(rows.len() as int, area.height as int) == 0 || area.y + shown_count(rows.len() as int, area.height as int) - 1 <= u16::MAX,
    ensures
        cells@.len() == shown_count(rows@.len() as int, area.height as int),
        forall|k: int| 0 <= k < cells@.len() ==> #[trigger] cells@[k] == collapsed_row(area, k, rows@[k], *config),
{
    let ghost rows0 = rows@;
    let count: usize = if rows.len() < area.height as usize { rows.len() } else { area.height as usize };
    let mut rest = rows;
    let mut cells: Vec<CollapsedRow> = Vec::new();
    for index in 0..count
        invariant
            count == shown_count(rows0.len() as int, area.height as int),
            count <= area.height,
            count == 0 || area.y + count - 1 <= u16::MAX,
            rest@ == rows0.skip(index as int),
            cells@.len() == index,
            forall|k: int| 0 <= k < index ==> #[trigger] cells@[k] == collapsed_row(area, k, rows0[k], *config),
    {
        let row = rest.remove(0);
        proof {
            assert(rest@ =~= rows0.skip(index + 1));
        }
        let rect = Rect::new(area.x, area.y + index as u16, area.width, 1);
        let initial = if row.machine_label.as_str().unicode_len() > 0 {
            row.machine_label.as_str().get_char(0)
        } else {
            '?'
        };
        let fg = if row.stale {
            config.palette.overlay0
        } else {
            row.agent.status_color
        };
        cells.push(CollapsedRow {
            rect,
            highlight: row.agent.focused,
            initial,
            icon: row.agent.status_icon,
            fg,
            dim: row.stale,
            endpoint_id: row.endpoint_id,
            pane_id: row.agent.pane_id,
        });
    }
    cells
}

/// The group of a row of the machines' panel: its space on its machine, the
/// label prefixed with the machine label when several machines are shown.
pub open spec fn expanded_group_of(endpoints: Seq<ClientShellEndpoint>, row: EndpointAgentRow, federated: bool) -> GroupView {
    let e = endpoint_index(endpoints, row.endpoint_id);
    if e < endpoints.len() {
        match endpoints[e].snapshot {
            Some(snapshot) => match workspace_group_of(snapshot, row.agent.pane_id@) {
                Some((workspace_id, label)) => Some((
                    (row.endpoint_id, workspace_id@),
                    if federated {
                        row.machine_label@ + " · "@ + label@
                    } else {
                        label@
                    },
                )),
                None => None,
            },
            None => None,
        }
    } else {
        None
    }
}

pub open spec fn expanded_ranks(endpoints: Seq<ClientShellEndpoint>, rows: Seq<EndpointAgentRow>) -> Seq<AgentRank> {
    Seq::new(rows.len(), |i: int| endpoint_rank_of(endpoints, rows[i].endpoint_id, rows[i].agent.pane_id@))
}

fn row_group(endpoints: &Vec<ClientShellEndpoint>, row: &EndpointAgentRow, federated: bool) -> (group: Option<(GroupKey, String)>)
    ensures
        group_view(group) == expanded_group_of(endpoints@, *row, federated),
{
    let e = crate::model::find_endpoint(endpoints, row.endpoint_id);
    if e >= endpoints.len() {
        return None;
    }
    match &endpoints[e].snapshot {
        Some(snapshot) => match workspace_group(snapshot, &row.agent.pane_id) {
            Some((workspace_id, label)) => {
                let label = if federated {
                    machine_space_label(&row.machine_label, &label)
                } else {
                    label
                };
                Some((GroupKey { endpoint_id: row.endpoint_id, workspace_id }, label))
            },
            None => None,
        },
        None => None,
    }
}

/// The items of the expanded machines' panel, in the order they are shown:
/// grouped by machine and space when grouping is on, else the rows in order.
/// Each header is painted as `render_group_header` says; each agent row by the
/// sidebar's row painter, dimmed in `overlay0` when its machine is stale.
pub fn render_expanded(endpoints: &Vec<ClientShellEndpoint>, rows: Vec<EndpointAgentRow>, config: &ClientShellConfig) -> (items: Vec<AgentPanelItem<EndpointAgentRow>>)
    ensures
        !grouping_on(*config) ==> items@ == agent_items(rows@),
        grouping_on(*config) ==> exists|keys: Seq<Option<(GroupKey, String)>>|
            #[trigger] arranged(rows@, keys, expanded_ranks(endpoints@, rows@), items@)
            && keys.len() == rows@.len()
            && (forall|i: int| 0 <= i < keys.len() ==> #[trigger] group_view(keys[i]) == expanded_group_of(endpoints@, rows@[i], endpoints@.len() > 1))
            && (forall|i: int| 0 <= i < keys.len() && #[trigger] keys[i] is Some ==> (keys[i]->0).0.endpoint_id == rows@[i].endpoint_id),
{
    let federated = endpoints.len() > 1;
    let mut keys: Vec<Option<(GroupKey, String)>> = Vec::new();
    let mut ranks: Vec<AgentRank> = Vec::new();
    for i in 0..rows.len()
        invariant
            federated == (endpoints@.len() > 1),
            keys.len() == i,
            ranks.len() == i,
            forall|j: int| 0 <= j < i ==> #[trigger] group_view(keys@[j]) == expanded_group_of(endpoints@, rows@[j], federated),
            forall|j: int| 0 <= j < i ==> #[trigger] ranks@[j] == expanded_ranks(endpoints@, rows@)[j],
    {
        keys.push(row_group(endpoints, &rows[i], federated));
        ranks.push(endpoint_rank(endpoints, rows[i].endpoint_id, &rows[i].agent.pane_id));
    }
    proof {
        assert(ranks@ =~= expanded_ranks(endpoints@, rows@));
    }
    let ghost rows0 = rows@;
    let items = panel_of(rows, config, &keys, &ranks);
    proof {
        if grouping_on(*config) {
            assert(arranged(rows0, keys@, expanded_ranks(endpoints@, rows0), items@));
            assert forall|i: int| 0 <= i < keys@.len() && #[trigger] keys@[i] is Some implies (keys@[i]->0).0.endpoint_id == rows0[i].endpoint_id by {
                lemma_expanded_group_names_own_machine(endpoints@, rows0[i], federated);
                assert(group_view(keys@[i]) == expanded_group_of(endpoints@, rows0[i], federated));
                assert(group_machine(group_view(keys@[i])) == Some((keys@[i]->0).0.endpoint_id));
            }
        }
    }
    items
}


// ----------------------------------------------------------------------------
// Laws of the machines' rows
// ----------------------------------------------------------------------------

/// Every machines' panel row comes from an aggregate row before `p`, keeps
/// its focus only on the active machine, and no two rows name the same
/// machine and pane.
pub proof fn lemma_joined_rows(rendered: Seq<(ClientEndpointId, AgentRow)>, ordered: Seq<AggregateAgentRow>, active: ClientEndpointId, p: int)
    requires
        0 <= p <= ordered.len(),
    ensures
        forall|k: int| 0 <= k < joined_upto(rendered, ordered, active, p).len() ==> {
            let row = #[trigger] joined_upto(rendered, ordered, active, p)[k];
            &&& exists|q: int| 0 <= q < p && (row.endpoint_id, row.agent.pane_id@) == aggregate_key(#[trigger] ordered[q])
            &&& row.agent.focused ==> row.endpoint_id == active
        },
        forall|k: int, l: int| 0 <= k < l < joined_upto(rendered, ordered, active, p).len() ==>
            (#[trigger] joined_upto(rendered, ordered, active, p)[k].endpoint_id, joined_upto(rendered, ordered, active, p)[k].agent.pane_id@)
                != (#[trigger] joined_upto(rendered, ordered, active, p)[l].endpoint_id, joined_upto(rendered, ordered, active, p)[l].agent.pane_id@),
    decreases p,
{
    if p > 0 {
        lemma_joined_rows(rendered, ordered, active, p - 1);
        let prev = joined_upto(rendered, ordered, active, p - 1);
        let row = ordered[p - 1];
        let r = last_rendered(rendered, aggregate_key(row));
        lemma_last_rendered(rendered, aggregate_key(row));
        if first_claim(ordered, p - 1) && r >= 0 {
            let all = joined_upto(rendered, ordered, active, p);
            let new_row = joined_row(row, rendered[r].1, active);
            assert(all == prev.push(new_row));
            assert((new_row.endpoint_id, new_row.agent.pane_id@) == aggregate_key(row));
            assert forall|k: int| 0 <= k < all.len() implies {
                let x = #[trigger] all[k];
                &&& exists|q: int| 0 <= q < p && (x.endpoint_id, x.agent.pane_id@) == aggregate_key(#[trigger] ordered[q])
                &&& x.agent.focused ==> x.endpoint_id == active
            } by {
                if k < prev.len() {
                    assert(all[k] == prev[k]);
                } else {
                    assert(all[k] == new_row);
                    assert(aggregate_key(ordered[p - 1]) == aggregate_key(row));
                }
            }
            assert forall|k: int, l: int| 0 <= k < l < all.len() implies
                (#[trigger] all[k].endpoint_id, all[k].agent.pane_id@) != (#[trigger] all[l].endpoint_id, all[l].agent.pane_id@) by {
                if l < prev.len() {
                    assert(all[k] == prev[k]);
                    assert(all[l] == prev[l]);
                } else {
                    assert(all[k] == prev[k]);
                    let x = prev[k];
                    let q = choose|q: int| 0 <= q < p - 1 && (x.endpoint_id, x.agent.pane_id@) == aggregate_key(#[trigger] ordered[q]);
                    assert(aggregate_key(ordered[q]) != aggregate_key(ordered[p - 1]));
                }
            }
        } else {
            assert(joined_upto(rendered, ordered, active, p) == prev);
            assert forall|k: int| 0 <= k < prev.len() implies {
                let x = #[trigger] prev[k];
                &&& exists|q: int| 0 <= q < p && (x.endpoint_id, x.agent.pane_id@) == aggregate_key(#[trigger] ordered[q])
                &&& x.agent.focused ==> x.endpoint_id == active
            } by {
                let x = prev[k];
                let q = choose|q: int| 0 <= q < p - 1 && (x.endpoint_id, x.agent.pane_id@) == aggregate_key(#[trigger] ordered[q]);
            }
        }
    }
}


/// The machine a group key names.
pub open spec fn group_machine(g: GroupView) -> Option<ClientEndpointId> {
    match g {
        Some(((endpoint_id, _), _)) => Some(endpoint_id),
        None => None,
    }
}

/// The space a group key names.
pub open spec fn group_space(g: GroupView) -> Option<Seq<char>> {
    match g {
        Some(((_, workspace_id), _)) => Some(workspace_id),
        None => None,
    }
}

/// A row of the expanded panel is grouped under its own machine and the space
/// its agent lives in on that machine: rows of different machines never share
/// a header.
pub proof fn lemma_expanded_group_names_own_machine(endpoints: Seq<ClientShellEndpoint>, row: EndpointAgentRow, federated: bool)
    ensures
        expanded_group_of(endpoints, row, federated) is Some ==> {
            let e = endpoint_index(endpoints, row.endpoint_id);
            &&& group_machine(expanded_group_of(endpoints, row, federated)) == Some(row.endpoint_id)
            &&& 0 <= e < endpoints.len()
            &&& endpoints[e].endpoint_id == row.endpoint_id
            &&& endpoints[e].snapshot is Some
            &&& group_space(expanded_group_of(endpoints, row, federated))
                == match workspace_group_of(endpoints[e].snapshot->0, row.agent.pane_id@) {
                    Some((workspace_id, _)) => Some(workspace_id@),
                    None => None,
                }
        },
{
    if expanded_group_of(endpoints, row, federated) is Some {
        lemma_endpoint_index_from(endpoints, row.endpoint_id, 0);
    }
}

proof fn lemma_endpoint_index_from(endpoints: Seq<ClientShellEndpoint>, id: ClientEndpointId, from: int)
    requires
        0 <= from,
    ensures
        from <= endpoint_index_from(endpoints, id, from) <= endpoints.len() || endpoints.len() < from,
        endpoint_index_from(endpoints, id, from) < endpoints.len() ==> endpoints[endpoint_index_from(endpoints, id, from)].endpoint_id == id,
    decreases endpoints.len() - from,
{
    if from < endpoints.len() && endpoints[from].endpoint_id != id {
        lemma_endpoint_index_from(endpoints, id, from + 1);
    }
}

/// Two rows of different machines never have the same group.
pub proof fn lemma_expanded_machines_apart(endpoints: Seq<ClientShellEndpoint>, a: EndpointAgentRow, b: EndpointAgentRow, federated: bool)
    requires
        a.endpoint_id != b.endpoint_id,
        expanded_group_of(endpoints, a, federated) is Some,
        expanded_group_of(endpoints, b, federated) is Some,
    ensures
        group_machine(expanded_group_of(endpoints, a, federated)) != group_machine(expanded_group_of(endpoints, b, federated)),
{
    lemma_expanded_group_names_own_machine(endpoints, a, federated);
    lemma_expanded_group_names_own_machine(endpoints, b, federated);
}
} // verus!
