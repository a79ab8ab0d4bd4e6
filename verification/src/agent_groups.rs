//! The agents panel: grouping agent rows under one header per space, ranking
//! agents by urgency, and the lookups that give each row its space and rank.
use vstd::prelude::*;
use crate::model::{
    AgentPanelSort, ClientShellEndpoint, ClientEndpointId, Color, Rect, ClientShellConfig, ClientShellSnapshot, agent_index, endpoint_index, sat_add_u16,
    find_agent, find_endpoint, find_workspace, workspace_index,
};

verus! {

/// Priority-mode ranking: status urgency first, then most recent state change.
pub type AgentRank = (u8, u64);

/// Identifies a space across machines.
#[derive(Debug)]
pub struct GroupKey {
    pub endpoint_id: ClientEndpointId,
    pub workspace_id: String,
}

/// What group keys compare by.
pub type KeyView = Option<(ClientEndpointId, Seq<char>)>;

/// One entry of the agents panel list when grouping by space is enabled.
#[derive(Debug)]
pub enum AgentPanelItem<R> {
    Header { label: String, leading_blank: bool },
    Agent(R),
}

// ----------------------------------------------------------------------------
// Ordering of ranks
// ----------------------------------------------------------------------------

/// `a` is more urgent than `b`.
pub open spec fn rank_gt(a: AgentRank, b: AgentRank) -> bool {
    a.0 > b.0 || (a.0 == b.0 && a.1 > b.1)
}

fn rank_greater(a: AgentRank, b: AgentRank) -> (r: bool)
    ensures
        r == rank_gt(a, b),
{
    a.0 > b.0 || (a.0 == b.0 && a.1 > b.1)
}

// ----------------------------------------------------------------------------
// Groups
// ----------------------------------------------------------------------------

/// The part of a row's group that rows are grouped by.
pub open spec fn key_view(k: Option<(GroupKey, String)>) -> KeyView {
    match k {
        Some((key, _)) => Some((key.endpoint_id, key.workspace_id@)),
        None => None,
    }
}

pub open spec fn key_views(keys: Seq<Option<(GroupKey, String)>>) -> Seq<KeyView> {
    Seq::new(keys.len(), |i: int| key_view(keys[i]))
}

/// Rows `j` and `i` both belong to the same space.
pub open spec fn joins(kv: Seq<KeyView>, j: int, i: int) -> bool {
    kv[j] is Some && kv[i] is Some && kv[j] == kv[i]
}

/// The first row in `from..i` of row `i`'s space, or `i`.
pub open spec fn leader_from(kv: Seq<KeyView>, i: int, from: int) -> int
    decreases i - from,
{
    if from >= i {
        i
    } else if joins(kv, from, i) {
        from
    } else {
        leader_from(kv, i, from + 1)
    }
}

/// The row that opened row `i`'s group: the first row of its space, or the
/// row itself when it has no space.
pub open spec fn leader(kv: Seq<KeyView>, i: int) -> int {
    leader_from(kv, i, 0)
}

/// Row `i` is shown before row `j`: groups in order of first appearance (a
/// row without a space is a group of its own, at its place); inside a group
/// by rank, most urgent first, ties in input order.
pub open spec fn shown_before(kv: Seq<KeyView>, ranks: Seq<AgentRank>, i: int, j: int) -> bool {
    let gi = leader(kv, i);
    let gj = leader(kv, j);
    if gi != gj {
        gi < gj
    } else if ranks[i] != ranks[j] {
        rank_gt(ranks[i], ranks[j])
    } else {
        i < j
    }
}

/// `order` lists every row once, in the order the grouped panel shows them.
pub open spec fn display_order(kv: Seq<KeyView>, ranks: Seq<AgentRank>, order: Seq<usize>) -> bool {
    &&& order.len() == kv.len()
    &&& ranks.len() == kv.len()
    &&& forall|a: int| 0 <= a < order.len() ==> #[trigger] order[a] < kv.len()
    &&& forall|a: int, b: int|
        0 <= a < order.len() && 0 <= b < order.len() && a != b ==> #[trigger] order[a] != #[trigger] order[b]
    &&& forall|a: int, b: int|
        0 <= a < b < order.len() ==> shown_before(kv, ranks, #[trigger] order[a] as int, #[trigger] order[b] as int)
}

/// The `k`-th shown row opens a group that gets a header.
pub open spec fn starts_group(kv: Seq<KeyView>, order: Seq<usize>, k: int) -> bool {
    kv[order[k] as int] is Some && (k == 0 || leader(kv, order[k - 1] as int) != leader(kv, order[k] as int))
}

/// The header label of row `i`'s group: the label its first row gave.
pub open spec fn group_label(keys: Seq<Option<(GroupKey, String)>>, i: int) -> String {
    (keys[leader(key_views(keys), i)]->0).1
}

/// The panel items for the first `k` shown rows.
pub open spec fn panel_items_upto<R>(rows: Seq<R>, keys: Seq<Option<(GroupKey, String)>>, order: Seq<usize>, k: int) -> Seq<AgentPanelItem<R>>
    decreases k,
{
    if k <= 0 {
        Seq::empty()
    } else {
        let prev = panel_items_upto(rows, keys, order, k - 1);
        let i = order[k - 1] as int;
        let header = if starts_group(key_views(keys), order, k - 1) {
            seq![AgentPanelItem::Header { label: group_label(keys, i), leading_blank: k - 1 > 0 }]
        } else {
            Seq::empty()
        };
        prev + header + seq![AgentPanelItem::Agent(rows[i])]
    }
}

pub open spec fn panel_items<R>(rows: Seq<R>, keys: Seq<Option<(GroupKey, String)>>, order: Seq<usize>) -> Seq<AgentPanelItem<R>> {
    panel_items_upto(rows, keys, order, order.len() as int)
}

/// `items` is the grouped panel of `rows`.
pub open spec fn arranged<R>(rows: Seq<R>, keys: Seq<Option<(GroupKey, String)>>, ranks: Seq<AgentRank>, items: Seq<AgentPanelItem<R>>) -> bool {
    exists|order: Seq<usize>| #[trigger] display_order(key_views(keys), ranks, order) && items == panel_items(rows, keys, order)
}

/// Every row as an agent item, in order.
pub open spec fn agent_items<R>(rows: Seq<R>) -> Seq<AgentPanelItem<R>> {
    Seq::new(rows.len(), |i: int| AgentPanelItem::Agent(rows[i]))
}

// ----------------------------------------------------------------------------
// Facts about leaders and the display order
// ----------------------------------------------------------------------------

proof fn lemma_leader_from(kv: Seq<KeyView>, i: int, from: int)
    requires
        0 <= from <= i,
    ensures
        from <= leader_from(kv, i, from) <= i,
        leader_from(kv, i, from) == i || joins(kv, leader_from(kv, i, from), i),
        forall|m: int| from <= m < leader_from(kv, i, from) ==> !joins(kv, m, i),
    decreases i - from,
{
    if from < i && !joins(kv, from, i) {
        lemma_leader_from(kv, i, from + 1);
    }
}

pub proof fn lemma_leader(kv: Seq<KeyView>, i: int)
    requires
        0 <= i,
    ensures
        0 <= leader(kv, i) <= i,
        kv[i] is Some ==> kv[leader(kv, i)] == kv[i],
{
    lemma_leader_from(kv, i, 0);
}

/// `shown_before` is a strict total order on rows.
pub proof fn lemma_shown_before_order(kv: Seq<KeyView>, ranks: Seq<AgentRank>, i: int, j: int, k: int)
    ensures
        i != j ==> shown_before(kv, ranks, i, j) || shown_before(kv, ranks, j, i),
        !(shown_before(kv, ranks, i, j) && shown_before(kv, ranks, j, i)),
        shown_before(kv, ranks, i, j) && shown_before(kv, ranks, j, k) ==> shown_before(kv, ranks, i, k),
{
}

// ----------------------------------------------------------------------------
// Arranging rows
// ----------------------------------------------------------------------------

fn same_group(a: &Option<(GroupKey, String)>, b: &Option<(GroupKey, String)>) -> (r: bool)
    ensures
        r == (key_view(*a) is Some && key_view(*b) is Some && key_view(*a) == key_view(*b)),
{
    match a {
        Some((ka, _)) => match b {
            Some((kb, _)) => {
                let r = ka.endpoint_id == kb.endpoint_id && ka.workspace_id.eq(&kb.workspace_id);
                proof {
                    if ka.endpoint_id == kb.endpoint_id && ka.workspace_id@ == kb.workspace_id@ {
                        assert(key_view(*a) == key_view(*b));
                    }
                }
                r
            },
            None => false,
        },
        None => false,
    }
}

fn row_before(
    leaders: &Vec<usize>,
    ranks: &Vec<AgentRank>,
    i: usize,
    j: usize,
    Ghost(kv): Ghost<Seq<KeyView>>,
) -> (r: bool)
    requires
        i < kv.len(),
        j < kv.len(),
        leaders.len() == kv.len(),
        ranks.len() == kv.len(),
        forall|a: int| 0 <= a < kv.len() ==> #[trigger] leaders@[a] == leader(kv, a),
    ensures
        r == shown_before(kv, ranks@, i as int, j as int),
{
    let gi = leaders[i];
    let gj = leaders[j];
    if gi != gj {
        gi < gj
    } else if ranks[i].0 != ranks[j].0 || ranks[i].1 != ranks[j].1 {
        rank_greater(ranks[i], ranks[j])
    } else {
        i < j
    }
}

fn take_slot<R>(slots: &mut Vec<Option<R>>, i: usize) -> (r: Option<R>)
    requires
        i < old(slots).len(),
    ensures
        r == old(slots)@[i as int],
        final(slots)@ == old(slots)@.update(i as int, None),
{
    let mut slot: Option<R> = None;
    std::mem::swap(&mut slot, &mut slots[i]);
    slot
}


/// Arranges rows into the grouped panel, given each row's group and rank:
/// groups in order of first appearance (a row without a space stays at its
/// place, without a header), rows inside a group by rank, most urgent first
/// (ties in input order), and a header before each space, with a blank line
/// before all but the first group.
pub fn arrange_panel_items<R>(rows: Vec<R>, keys: &Vec<Option<(GroupKey, String)>>, ranks: &Vec<AgentRank>) -> (items: Vec<AgentPanelItem<R>>)
    requires
        keys.len() == rows.len(),
        ranks.len() == rows.len(),
    ensures
        arranged(rows@, keys@, ranks@, items@),
{
    let n = rows.len();
    let ghost kv = key_views(keys@);
    let ghost rows0 = rows@;
    // The first row of each row's group.
    let mut leaders: Vec<usize> = Vec::new();
    for i in 0..n
        invariant
            n == keys.len(),
            kv == key_views(keys@),
            leaders.len() == i,
            forall|a: int| 0 <= a < i ==> #[trigger] leaders@[a] == leader(kv, a),
    {
        let mut j: usize = 0;
        while j < i && !same_group(&keys[j], &keys[i])
            invariant
                j <= i < n,
                n == keys.len(),
                kv == key_views(keys@),
                leader_from(kv, i as int, 0) == leader_from(kv, i as int, j as int),
            decreases i - j,
        {
            j = j + 1;
        }
        leaders.push(j);
    }
    // Insertion sort of the row indices by the display order.
    let mut order: Vec<usize> = Vec::new();
    for i in 0..n
        invariant
            n == kv.len(),
            n == ranks.len(),
            leaders.len() == n,
            forall|a: int| 0 <= a < n ==> #[trigger] leaders@[a] == leader(kv, a),
            order.len() == i,
            forall|a: int| 0 <= a < order.len() ==> #[trigger] order@[a] < i,
            forall|a: int, b: int|
                0 <= a < order.len() && 0 <= b < order.len() && a != b ==> #[trigger] order@[a] != #[trigger] order@[b],
            forall|a: int, b: int|
                0 <= a < b < order.len() ==> shown_before(kv, ranks@, #[trigger] order@[a] as int, #[trigger] order@[b] as int),
    {
        let mut p: usize = 0;
        while p < order.len() && !row_before(&leaders, ranks, i, order[p], Ghost(kv))
            invariant
                p <= order.len() == i < n,
                n == kv.len(),
                n == ranks.len(),
                leaders.len() == n,
                    forall|a: int| 0 <= a < n ==> #[trigger] leaders@[a] == leader(kv, a),
                    forall|a: int| 0 <= a < order.len() ==> #[trigger] order@[a] < i,
                forall|q: int| 0 <= q < p ==> !shown_before(kv, ranks@, i as int, #[trigger] order@[q] as int),
            decreases order.len() - p,
        {
            p = p + 1;
        }
        let ghost old_order = order@;
        order.insert(p, i);
        proof {
            assert forall|q: int| 0 <= q < p implies shown_before(kv, ranks@, old_order[q] as int, i as int) by {
                lemma_shown_before_order(kv, ranks@, old_order[q] as int, i as int, i as int);
            }
            assert forall|q: int| p <= q < old_order.len() implies shown_before(kv, ranks@, i as int, old_order[q] as int) by {
                lemma_shown_before_order(kv, ranks@, i as int, old_order[p as int] as int, old_order[q] as int);
            }
            assert forall|a: int, b: int|
                0 <= a < b < order.len() implies shown_before(kv, ranks@, #[trigger] order@[a] as int, #[trigger] order@[b] as int) by {
                if a < p && b == p {
                } else if a == p {
                } else if a < p && b > p {
                    assert(order@[b] == old_order[b - 1]);
                } else if a > p {
                    assert(order@[a] == old_order[a - 1]);
                    assert(order@[b] == old_order[b - 1]);
                }
            }
            assert forall|a: int, b: int|
                0 <= a < order.len() && 0 <= b < order.len() && a != b implies #[trigger] order@[a] != #[trigger] order@[b] by {
                if a != p && b != p {
                    let a0 = if a < p { a } else { a - 1 };
                    let b0 = if b < p { b } else { b - 1 };
                    assert(order@[a] == old_order[a0]);
                    assert(order@[b] == old_order[b0]);
                }
            }
        }
    }
    proof {
        assert(display_order(kv, ranks@, order@));
    }
    // Move the rows into slots that can be taken in any order.
    let mut slots: Vec<Option<R>> = Vec::new();
    let mut rest = rows;
    while rest.len() > 0
        invariant
            slots.len() + rest.len() == n,
            rows0.len() == n,
            rest@ == rows0.skip(slots.len() as int),
            forall|a: int| 0 <= a < slots.len() ==> #[trigger] slots@[a] == Some(rows0[a]),
        decreases rest.len(),
    {
        let ghost before = rest@;
        let row = rest.remove(0);
        slots.push(Some(row));
        proof {
            assert(rest@ =~= rows0.skip(slots.len() as int));
        }
    }
    let mut items: Vec<AgentPanelItem<R>> = Vec::new();
    for k in 0..n
        invariant
            n == kv.len(),
            n == rows0.len(),
            n == keys.len(),
            kv == key_views(keys@),
            leaders.len() == n,
            forall|a: int| 0 <= a < n ==> #[trigger] leaders@[a] == leader(kv, a),
            display_order(kv, ranks@, order@),
            slots.len() == n,
            forall|a: int| k <= a < n ==> #[trigger] slots@[order@[a] as int] == Some(rows0[order@[a] as int]),
            items@ == panel_items_upto(rows0, keys@, order@, k as int),
    {
        let i = order[k];
        let opens = keys[i].is_some() && (k == 0 || leaders[order[k - 1]] != leaders[i]);
        let ghost prev_items = items@;
        if opens {
            let g = leaders[i];
            proof {
                lemma_leader(kv, i as int);
            }
            let label = match &keys[g] {
                Some((_, label)) => label.clone(),
                None => String::new(),
            };
            items.push(AgentPanelItem::Header { label, leading_blank: k > 0 });
        }
        let slot = take_slot(&mut slots, i);
        match slot {
            Some(row) => {
                items.push(AgentPanelItem::Agent(row));
            },
            None => {},
        }
        proof {
            assert(starts_group(kv, order@, k as int) == opens);
            assert(items@ =~= panel_items_upto(rows0, keys@, order@, k + 1));
            assert forall|a: int| k + 1 <= a < n implies #[trigger] slots@[order@[a] as int] == Some(rows0[order@[a] as int]) by {
                assert(order@[a] != order@[k as int]);
            }
        }
    }
    proof {
        assert(items@ == panel_items(rows0, keys@, order@));
    }
    items
}


// ----------------------------------------------------------------------------
// The display order is unique
// ----------------------------------------------------------------------------

/// A sequence of `n` distinct indices below `n` holds every index below `n`.
pub proof fn lemma_covers_range(order: Seq<usize>, n: int, x: int)
    requires
        order.len() == n,
        forall|a: int| 0 <= a < order.len() ==> #[trigger] order[a] < n,
        forall|a: int, b: int|
            0 <= a < order.len() && 0 <= b < order.len() && a != b ==> #[trigger] order[a] != #[trigger] order[b],
        0 <= x < n,
    ensures
        exists|a: int| 0 <= a < n && order[a] == x,
{
    let s = order.map_values(|u: usize| u as int);
    assert(s.no_duplicates()) by {
        assert forall|a: int, b: int| 0 <= a < s.len() && 0 <= b < s.len() && a != b implies s[a] != s[b] by {
            assert(order[a] != order[b]);
        }
    }
    s.unique_seq_to_set();
    vstd::set_lib::lemma_int_range(0, n);
    let range = vstd::set_lib::set_int_range(0, n);
    assert(s.to_set().subset_of(range)) by {
        assert forall|v: int| s.to_set().contains(v) implies range.contains(v) by {
            let a = choose|a: int| 0 <= a < s.len() && s[a] == v;
            assert(order[a] < n);
        }
    }
    if !s.to_set().contains(x) {
        s.to_set().lemma_subset_not_in_lt(range, x);
        assert(false);
    }
    let a = choose|a: int| 0 <= a < s.len() && s[a] == x;
    assert(order[a] == x);
}

proof fn lemma_display_order_prefix(kv: Seq<KeyView>, ranks: Seq<AgentRank>, o1: Seq<usize>, o2: Seq<usize>, a: int)
    requires
        display_order(kv, ranks, o1),
        display_order(kv, ranks, o2),
        0 <= a < o1.len(),
    ensures
        forall|c: int| 0 <= c <= a ==> o1[c] == o2[c],
    decreases a,
{
    if a > 0 {
        lemma_display_order_prefix(kv, ranks, o1, o2, a - 1);
    }
    let n = o1.len() as int;
    let x = o1[a];
    let y = o2[a];
    if x != y {
        lemma_covers_range(o1, n, y as int);
        lemma_covers_range(o2, n, x as int);
        let b1 = choose|b: int| 0 <= b < n && o1[b] == y;
        let b2 = choose|b: int| 0 <= b < n && o2[b] == x;
        if b1 < a {
            assert(o2[b1] == y);
        }
        if b2 < a {
            assert(o1[b2] == x);
        }
        assert(shown_before(kv, ranks, x as int, y as int));
        assert(shown_before(kv, ranks, y as int, x as int));
        lemma_shown_before_order(kv, ranks, x as int, y as int, x as int);
    }
}

/// There is only one display order: the grouped panel is a function of the
/// rows, their groups and their ranks.
pub proof fn lemma_display_order_unique(kv: Seq<KeyView>, ranks: Seq<AgentRank>, o1: Seq<usize>, o2: Seq<usize>)
    requires
        display_order(kv, ranks, o1),
        display_order(kv, ranks, o2),
    ensures
        o1 == o2,
{
    if o1.len() > 0 {
        lemma_display_order_prefix(kv, ranks, o1, o2, o1.len() - 1);
    }
    assert(o1 =~= o2);
}

// ----------------------------------------------------------------------------
// Agents only
// ----------------------------------------------------------------------------

/// The rows of the agent items, in order, without the headers.
pub open spec fn agents_of<R>(items: Seq<AgentPanelItem<R>>) -> Seq<R>
    decreases items.len(),
{
    if items.len() == 0 {
        Seq::empty()
    } else {
        let rest = agents_of(items.drop_last());
        match items.last() {
            AgentPanelItem::Agent(row) => rest.push(row),
            AgentPanelItem::Header { .. } => rest,
        }
    }
}

/// The rows in the given order.
pub open spec fn pick<R>(rows: Seq<R>, order: Seq<usize>) -> Seq<R> {
    Seq::new(order.len(), |k: int| rows[order[k] as int])
}

proof fn lemma_agents_of_concat<R>(a: Seq<AgentPanelItem<R>>, b: Seq<AgentPanelItem<R>>)
    ensures
        agents_of(a + b) == agents_of(a) + agents_of(b),
    decreases b.len(),
{
    if b.len() == 0 {
        assert(a + b =~= a);
        assert(agents_of(a) + agents_of(b) =~= agents_of(a));
    } else {
        lemma_agents_of_concat(a, b.drop_last());
        assert((a + b).drop_last() =~= a + b.drop_last());
        assert((a + b).last() == b.last());
        match b.last() {
            AgentPanelItem::Agent(row) => {
                assert(agents_of(a) + agents_of(b) =~= (agents_of(a) + agents_of(b.drop_last())).push(row));
            },
            AgentPanelItem::Header { .. } => {},
        }
    }
}

proof fn lemma_agents_of_panel_upto<R>(rows: Seq<R>, keys: Seq<Option<(GroupKey, String)>>, order: Seq<usize>, k: int)
    requires
        0 <= k <= order.len(),
    ensures
        agents_of(panel_items_upto(rows, keys, order, k)) == pick(rows, order.take(k)),
    decreases k,
{
    if k > 0 {
        lemma_agents_of_panel_upto(rows, keys, order, k - 1);
        let prev = panel_items_upto(rows, keys, order, k - 1);
        let i = order[k - 1] as int;
        let header: Seq<AgentPanelItem<R>> = if starts_group(key_views(keys), order, k - 1) {
            seq![AgentPanelItem::Header { label: group_label(keys, i), leading_blank: k - 1 > 0 }]
        } else {
            Seq::empty()
        };
        let last: Seq<AgentPanelItem<R>> = seq![AgentPanelItem::Agent(rows[i])];
        lemma_agents_of_concat(prev + header, last);
        lemma_agents_of_concat(prev, header);
        assert(agents_of(header) =~= Seq::<R>::empty()) by {
            if header.len() > 0 {
                assert(header.drop_last() =~= Seq::<AgentPanelItem<R>>::empty());
                reveal_with_fuel(agents_of, 2);
            }
        }
        assert(agents_of(last) =~= seq![rows[i]]) by {
            assert(last.drop_last() =~= Seq::<AgentPanelItem<R>>::empty());
            reveal_with_fuel(agents_of, 2);
        }
        assert(pick(rows, order.take(k)) =~= pick(rows, order.take(k - 1)).push(rows[i]));
    }
}

/// Grouping only adds headers: without them, the panel shows every row once,
/// in display order.
pub proof fn lemma_agents_of_panel<R>(rows: Seq<R>, keys: Seq<Option<(GroupKey, String)>>, order: Seq<usize>)
    ensures
        agents_of(panel_items(rows, keys, order)) == pick(rows, order),
{
    lemma_agents_of_panel_upto(rows, keys, order, order.len() as int);
    assert(order.take(order.len() as int) =~= order);
}

/// Keeps the agent rows of the panel items, in order, dropping the headers.
pub fn agents_only<R>(items: Vec<AgentPanelItem<R>>) -> (rows: Vec<R>)
    ensures
        rows@ == agents_of(items@),
{
    let ghost items0 = items@;
    let n = items.len();
    let mut rest = items;
    let mut rows: Vec<R> = Vec::new();
    let mut k: usize = 0;
    while rest.len() > 0
        invariant
            k + rest.len() == items0.len(),
            items0.len() == n,
            rest@ == items0.skip(k as int),
            rows@ == agents_of(items0.take(k as int)),
        decreases rest.len(),
    {
        let item = rest.remove(0);
        proof {
            assert(items0.take(k + 1).drop_last() =~= items0.take(k as int));
            assert(items0.take(k + 1).last() == item);
        }
        match item {
            AgentPanelItem::Agent(row) => rows.push(row),
            AgentPanelItem::Header { .. } => {},
        }
        k = k + 1;
        proof {
            assert(rest@ =~= items0.skip(k as int));
        }
    }
    proof {
        assert(items0.take(k as int) =~= items0);
    }
    rows
}


// ----------------------------------------------------------------------------
// Panel items, grouping switch, ranks and groups of rows
// ----------------------------------------------------------------------------

impl<R> AgentPanelItem<R> {
    /// Terminal lines the item takes: a header one, plus one for its leading
    /// blank; an agent row what `agent_lines` says.
    pub fn lines<F: Fn(&R) -> usize>(&self, agent_lines: F) -> (n: usize)
        requires
            match self {
                AgentPanelItem::Agent(row) => call_requires(agent_lines, (row,)),
                AgentPanelItem::Header { .. } => true,
            },
        ensures
            match self {
                AgentPanelItem::Header { leading_blank, .. } => n == 1 + (if *leading_blank { 1int } else { 0int }),
                AgentPanelItem::Agent(row) => call_ensures(agent_lines, (row,), n),
            },
    {
        match self {
            AgentPanelItem::Header { leading_blank, .. } => if *leading_blank {
                2
            } else {
                1
            },
            AgentPanelItem::Agent(row) => agent_lines(row),
        }
    }
}

pub open spec fn grouping_on(config: ClientShellConfig) -> bool {
    config.group_by_space && config.agent_panel_sort == AgentPanelSort::Spaces
}

/// Grouping applies only to the "spaces" ordering; "priority" stays a flat queue.
pub fn grouping_enabled(config: &ClientShellConfig) -> (r: bool)
    ensures
        r == grouping_on(*config),
{
    config.group_by_space && config.agent_panel_sort == AgentPanelSort::Spaces
}

/// The rank of the agent living in `pane`: its status urgency and last state
/// change; `(0, 0)` when no agent lives there.
pub open spec fn agent_rank_of(snapshot: ClientShellSnapshot, pane: Seq<char>) -> AgentRank {
    let i = agent_index(snapshot.agents@, pane);
    if i < snapshot.agents@.len() {
        (snapshot.agents@[i].status_priority, snapshot.agents@[i].state_change_seq)
    } else {
        (0, 0)
    }
}

pub fn agent_rank(snapshot: &ClientShellSnapshot, pane_id: &String) -> (rank: AgentRank)
    ensures
        rank == agent_rank_of(*snapshot, pane_id@),
{
    let i = find_agent(&snapshot.agents, pane_id);
    if i < snapshot.agents.len() {
        (snapshot.agents[i].status_priority, snapshot.agents[i].state_change_seq)
    } else {
        (0, 0)
    }
}

/// The space (id, label) of the agent living in `pane`.
pub open spec fn workspace_group_of(snapshot: ClientShellSnapshot, pane: Seq<char>) -> Option<(String, String)> {
    let i = agent_index(snapshot.agents@, pane);
    if i < snapshot.agents@.len() {
        let w = workspace_index(snapshot.workspaces@, snapshot.agents@[i].workspace_id@);
        if w < snapshot.workspaces@.len() {
            Some((snapshot.workspaces@[w].workspace_id, snapshot.workspaces@[w].label))
        } else {
            None
        }
    } else {
        None
    }
}

/// Space (id, label) of the agent living in `pane_id`.
pub fn workspace_group(snapshot: &ClientShellSnapshot, pane_id: &String) -> (group: Option<(String, String)>)
    ensures
        group == workspace_group_of(*snapshot, pane_id@),
{
    let i = find_agent(&snapshot.agents, pane_id);
    if i >= snapshot.agents.len() {
        return None;
    }
    let w = find_workspace(&snapshot.workspaces, &snapshot.agents[i].workspace_id);
    if w >= snapshot.workspaces.len() {
        return None;
    }
    Some((snapshot.workspaces[w].workspace_id.clone(), snapshot.workspaces[w].label.clone()))
}

/// What a row's group is seen as: its key and label.
pub type GroupView = Option<((ClientEndpointId, Seq<char>), Seq<char>)>;

pub open spec fn group_view(g: Option<(GroupKey, String)>) -> GroupView {
    match g {
        Some((key, label)) => Some(((key.endpoint_id, key.workspace_id@), label@)),
        None => None,
    }
}

/// The group of the agent in `pane` on machine `endpoint_id`: its space, with
/// the label prefixed by the machine's label when several machines are shown.
pub open spec fn endpoint_group_of(endpoints: Seq<ClientShellEndpoint>, endpoint_id: ClientEndpointId, pane: Seq<char>, federated: bool) -> GroupView {
    let e = endpoint_index(endpoints, endpoint_id);
    if e < endpoints.len() {
        match endpoints[e].snapshot {
            Some(snapshot) => match workspace_group_of(snapshot, pane) {
                Some((workspace_id, label)) => Some((
                    (endpoint_id, workspace_id@),
                    if federated {
                        endpoints[e].label@ + " · "@ + label@
                    } else {
                        label@
                    },
                )),
                None => None,
            },
            None => None,
        }
    } else {
        None
    }
}

/// Joins a machine label and a space label as the header of a federated group.
pub(crate) fn machine_space_label(machine: &String, space: &String) -> (label: String)
    ensures
        label@ == machine@ + " · "@ + space@,
{
    let prefixed = machine.clone().concat(" · ");
    prefixed.concat(space.as_str())
}

/// Group key/label for an agent of one machine: the space, prefixed with the
/// machine label when several machines are shown.
pub fn endpoint_group(endpoints: &Vec<ClientShellEndpoint>, endpoint_id: ClientEndpointId, pane_id: &String, federated: bool) -> (group: Option<(GroupKey, String)>)
    ensures
        group_view(group) == endpoint_group_of(endpoints@, endpoint_id, pane_id@, federated),
{
    let e = find_endpoint(endpoints, endpoint_id);
    if e >= endpoints.len() {
        return None;
    }
    let endpoint = &endpoints[e];
    match &endpoint.snapshot {
        Some(snapshot) => match workspace_group(snapshot, pane_id) {
            Some((workspace_id, label)) => {
                let label = if federated {
                    machine_space_label(&endpoint.label, &label)
                } else {
                    label
                };
                Some((GroupKey { endpoint_id, workspace_id }, label))
            },
            None => None,
        },
        None => None,
    }
}

/// The rank of the agent in `pane` on machine `endpoint_id`; `(0, 0)` when
/// the machine or its snapshot is missing.
pub open spec fn endpoint_rank_of(endpoints: Seq<ClientShellEndpoint>, endpoint_id: ClientEndpointId, pane: Seq<char>) -> AgentRank {
    let e = endpoint_index(endpoints, endpoint_id);
    if e < endpoints.len() {
        match endpoints[e].snapshot {
            Some(snapshot) => agent_rank_of(snapshot, pane),
            None => (0, 0),
        }
    } else {
        (0, 0)
    }
}

pub fn endpoint_rank(endpoints: &Vec<ClientShellEndpoint>, endpoint_id: ClientEndpointId, pane_id: &String) -> (rank: AgentRank)
    ensures
        rank == endpoint_rank_of(endpoints@, endpoint_id, pane_id@),
{
    let e = find_endpoint(endpoints, endpoint_id);
    if e >= endpoints.len() {
        return (0, 0);
    }
    match &endpoints[e].snapshot {
        Some(snapshot) => agent_rank(snapshot, pane_id),
        None => (0, 0),
    }
}

/// The panel of `rows`: grouped when grouping is on, else every row in order.
pub(crate) fn panel_of<R>(rows: Vec<R>, config: &ClientShellConfig, keys: &Vec<Option<(GroupKey, String)>>, ranks: &Vec<AgentRank>) -> (items: Vec<AgentPanelItem<R>>)
    requires
        keys.len() == rows.len(),
        ranks.len() == rows.len(),
    ensures
        !grouping_on(*config) ==> items@ == agent_items(rows@),
        grouping_on(*config) ==> arranged(rows@, keys@, ranks@, items@),
{
    if grouping_enabled(config) {
        return arrange_panel_items(rows, keys, ranks);
    }
    let ghost rows0 = rows@;
    let n = rows.len();
    let mut rest = rows;
    let mut items: Vec<AgentPanelItem<R>> = Vec::new();
    while rest.len() > 0
        invariant
            items.len() + rest.len() == n,
            rows0.len() == n,
            rest@ == rows0.skip(items.len() as int),
            items@ == agent_items(rows0.take(items.len() as int)),
        decreases rest.len(),
    {
        let row = rest.remove(0);
        let ghost k = items.len() as int;
        items.push(AgentPanelItem::Agent(row));
        proof {
            assert(rest@ =~= rows0.skip(items.len() as int));
            assert(items@ =~= agent_items(rows0.take(items.len() as int)));
        }
    }
    proof {
        assert(rows0.take(n as int) =~= rows0);
    }
    items
}

/// Folds agent rows into header + rows groups, in order of first appearance.
/// `group_of` yields a stable key and the header label; rows without one are
/// kept in place without a header. Inside a group, rows are ranked by
/// `rank_of`, most urgent first, ties in input order.
pub fn group_items<R, G: Fn(&R) -> Option<(GroupKey, String)>, K: Fn(&R) -> AgentRank>(
    rows: Vec<R>,
    config: &ClientShellConfig,
    group_of: G,
    rank_of: K,
) -> (items: Vec<AgentPanelItem<R>>)
    requires
        forall|i: int| 0 <= i < rows.len() ==> call_requires(group_of, (&#[trigger] rows@[i],)),
        forall|i: int| 0 <= i < rows.len() ==> call_requires(rank_of, (&#[trigger] rows@[i],)),
    ensures
        !grouping_on(*config) ==> items@ == agent_items(rows@),
        grouping_on(*config) ==> exists|keys: Seq<Option<(GroupKey, String)>>, ranks: Seq<AgentRank>|
            #[trigger] arranged(rows@, keys, ranks, items@)
            && keys.len() == rows.len()
            && ranks.len() == rows.len()
            && (forall|i: int| 0 <= i < rows.len() ==> call_ensures(group_of, (&rows@[i],), #[trigger] keys[i]))
            && (forall|i: int| 0 <= i < rows.len() ==> call_ensures(rank_of, (&rows@[i],), #[trigger] ranks[i])),
{
    let mut keys: Vec<Option<(GroupKey, String)>> = Vec::new();
    let mut ranks: Vec<AgentRank> = Vec::new();
    if grouping_enabled(config) {
        for i in 0..rows.len()
            invariant
                forall|j: int| 0 <= j < rows.len() ==> call_requires(group_of, (&#[trigger] rows@[j],)),
                forall|j: int| 0 <= j < rows.len() ==> call_requires(rank_of, (&#[trigger] rows@[j],)),
                keys.len() == i,
                ranks.len() == i,
                forall|j: int| 0 <= j < i ==> call_ensures(group_of, (&rows@[j],), #[trigger] keys@[j]),
                forall|j: int| 0 <= j < i ==> call_ensures(rank_of, (&rows@[j],), #[trigger] ranks@[j]),
        {
            let key = group_of(&rows[i]);
            let rank = rank_of(&rows[i]);
            keys.push(key);
            ranks.push(rank);
        }
    } else {
        for i in 0..rows.len()
            invariant
                keys.len() == i,
                ranks.len() == i,
        {
            keys.push(None);
            ranks.push((0, 0));
        }
    }
    let ghost rows0 = rows@;
    let items = panel_of(rows, config, &keys, &ranks);
    proof {
        if grouping_on(*config) {
            assert(arranged(rows0, keys@, ranks@, items@));
        }
    }
    items
}

/// Key views of the local panel's rows: their spaces.
pub open spec fn local_key_views(snapshot: ClientShellSnapshot, ids: Seq<String>) -> Seq<KeyView> {
    Seq::new(ids.len(), |i: int| match workspace_group_of(snapshot, ids[i]@) {
        Some((workspace_id, _)) => Some((ClientEndpointId::Local, workspace_id@)),
        None => None,
    })
}

pub open spec fn local_ranks(snapshot: ClientShellSnapshot, ids: Seq<String>) -> Seq<AgentRank> {
    Seq::new(ids.len(), |i: int| agent_rank_of(snapshot, ids[i]@))
}

/// The pane ids as the local agents panel shows them: in their order when
/// grouping is off, else in display order.
pub open spec fn local_panel_ids(snapshot: ClientShellSnapshot, config: ClientShellConfig, ids: Seq<String>) -> Seq<String> {
    if !grouping_on(config) {
        ids
    } else {
        pick(ids, choose|order: Seq<usize>| #[trigger] display_order(local_key_views(snapshot, ids), local_ranks(snapshot, ids), order))
    }
}

/// Pane ids in the order the local agents panel displays them, given the
/// panel's agent order (`ordered_ids`).
pub fn displayed_agent_pane_ids(snapshot: &ClientShellSnapshot, config: &ClientShellConfig, ordered_ids: Vec<String>) -> (ids: Vec<String>)
    ensures
        ids@ == local_panel_ids(*snapshot, *config, ordered_ids@),
        !grouping_on(*config) ==> ids@ == ordered_ids@,
        grouping_on(*config) ==> exists|order: Seq<usize>|
            #[trigger] display_order(local_key_views(*snapshot, ordered_ids@), local_ranks(*snapshot, ordered_ids@), order)
            && ids@ == pick(ordered_ids@, order),
{
    let mut keys: Vec<Option<(GroupKey, String)>> = Vec::new();
    let mut ranks: Vec<AgentRank> = Vec::new();
    for i in 0..ordered_ids.len()
        invariant
            keys.len() == i,
            ranks.len() == i,
            forall|j: int| 0 <= j < i ==> #[trigger] key_view(keys@[j]) == local_key_views(*snapshot, ordered_ids@)[j],
            forall|j: int| 0 <= j < i ==> #[trigger] ranks@[j] == local_ranks(*snapshot, ordered_ids@)[j],
    {
        let key = match workspace_group(snapshot, &ordered_ids[i]) {
            Some((workspace_id, label)) => Some((GroupKey { endpoint_id: ClientEndpointId::Local, workspace_id }, label)),
            None => None,
        };
        keys.push(key);
        ranks.push(agent_rank(snapshot, &ordered_ids[i]));
    }
    proof {
        assert(key_views(keys@) =~= local_key_views(*snapshot, ordered_ids@));
        assert(ranks@ =~= local_ranks(*snapshot, ordered_ids@));
    }
    let ghost ids0 = ordered_ids@;
    let items = panel_of(ordered_ids, config, &keys, &ranks);
    let ids = agents_only(items);
    proof {
        if grouping_on(*config) {
            let order = choose|order: Seq<usize>| #[trigger] display_order(key_views(keys@), ranks@, order) && items@ == panel_items(ids0, keys@, order);
            lemma_agents_of_panel(ids0, keys@, order);
            let chosen = choose|o: Seq<usize>| #[trigger] display_order(local_key_views(*snapshot, ids0), local_ranks(*snapshot, ids0), o);
            lemma_display_order_unique(key_views(keys@), ranks@, order, chosen);
        } else {
            lemma_agents_of_agent_items(ids0);
        }
    }
    ids
}

proof fn lemma_agents_of_agent_items<R>(rows: Seq<R>)
    ensures
        agents_of(agent_items(rows)) == rows,
    decreases rows.len(),
{
    if rows.len() > 0 {
        lemma_agents_of_agent_items(rows.drop_last());
        assert(agent_items(rows).drop_last() =~= agent_items(rows.drop_last()));
        assert(rows =~= rows.drop_last().push(rows.last()));
    } else {
        assert(agent_items(rows) =~= Seq::<AgentPanelItem<R>>::empty());
    }
}

/// An online agent on some machine.
#[derive(Debug)]
pub struct AggregateAgentTarget {
    pub endpoint_id: ClientEndpointId,
    pub pane_id: String,
}

impl Clone for AggregateAgentTarget {
    fn clone(&self) -> (r: Self)
        ensures
            r == *self,
    {
        AggregateAgentTarget { endpoint_id: self.endpoint_id, pane_id: self.pane_id.clone() }
    }
}

/// Key views of the machines' panel rows: machine and space.
pub open spec fn target_key_views(endpoints: Seq<ClientShellEndpoint>, targets: Seq<AggregateAgentTarget>) -> Seq<KeyView> {
    Seq::new(targets.len(), |i: int| match endpoint_group_of(endpoints, targets[i].endpoint_id, targets[i].pane_id@, endpoints.len() > 1) {
        Some((key, _)) => Some(key),
        None => None,
    })
}

pub open spec fn target_ranks(endpoints: Seq<ClientShellEndpoint>, targets: Seq<AggregateAgentTarget>) -> Seq<AgentRank> {
    Seq::new(targets.len(), |i: int| endpoint_rank_of(endpoints, targets[i].endpoint_id, targets[i].pane_id@))
}

/// The targets as the agents panel shows them: in their order when grouping
/// is off, else in display order.
pub open spec fn panel_targets(endpoints: Seq<ClientShellEndpoint>, config: ClientShellConfig, targets: Seq<AggregateAgentTarget>) -> Seq<AggregateAgentTarget> {
    if !grouping_on(config) {
        targets
    } else {
        pick(targets, choose|order: Seq<usize>| #[trigger] display_order(target_key_views(endpoints, targets), target_ranks(endpoints, targets), order))
    }
}

/// Online agent targets in the order the agents panel displays them, given
/// the online targets in the panel's sort order.
pub fn displayed_agent_targets(endpoints: &Vec<ClientShellEndpoint>, config: &ClientShellConfig, targets: Vec<AggregateAgentTarget>) -> (shown: Vec<AggregateAgentTarget>)
    ensures
        shown@ == panel_targets(endpoints@, *config, targets@),
        !grouping_on(*config) ==> shown@ == targets@,
        grouping_on(*config) ==> exists|order: Seq<usize>|
            #[trigger] display_order(target_key_views(endpoints@, targets@), target_ranks(endpoints@, targets@), order)
            && shown@ == pick(targets@, order),
{
    let federated = endpoints.len() > 1;
    let mut keys: Vec<Option<(GroupKey, String)>> = Vec::new();
    let mut ranks: Vec<AgentRank> = Vec::new();
    for i in 0..targets.len()
        invariant
            federated == (endpoints@.len() > 1),
            keys.len() == i,
            ranks.len() == i,
            forall|j: int| 0 <= j < i ==> #[trigger] key_view(keys@[j]) == target_key_views(endpoints@, targets@)[j],
            forall|j: int| 0 <= j < i ==> #[trigger] ranks@[j] == target_ranks(endpoints@, targets@)[j],
    {
        let key = endpoint_group(endpoints, targets[i].endpoint_id, &targets[i].pane_id, federated);
        keys.push(key);
        ranks.push(endpoint_rank(endpoints, targets[i].endpoint_id, &targets[i].pane_id));
    }
    proof {
        assert(key_views(keys@) =~= target_key_views(endpoints@, targets@));
        assert(ranks@ =~= target_ranks(endpoints@, targets@));
    }
    let ghost targets0 = targets@;
    let items = panel_of(targets, config, &keys, &ranks);
    let shown = agents_only(items);
    proof {
        if grouping_on(*config) {
            let order = choose|order: Seq<usize>| #[trigger] display_order(key_views(keys@), ranks@, order) && items@ == panel_items(targets0, keys@, order);
            lemma_agents_of_panel(targets0, keys@, order);
            let chosen = choose|o: Seq<usize>| #[trigger] display_order(target_key_views(endpoints@, targets0), target_ranks(endpoints@, targets0), o);
            lemma_display_order_unique(key_views(keys@), ranks@, order, chosen);
        } else {
            lemma_agents_of_agent_items(targets0);
        }
    }
    shown
}


// ----------------------------------------------------------------------------
// Group headers and rows of tokens
// ----------------------------------------------------------------------------

/// One character of a group header, at a cell of the panel, with its style.
#[derive(PartialEq, Eq, Structural, Clone, Copy, Debug)]
pub struct HeaderCell {
    pub x: u16,
    pub y: u16,
    pub symbol: char,
    /// Foreground colour of the cell.
    pub fg: Color,
    /// The cell is bold.
    pub bold: bool,
}

/// The row a header is written on: below its blank line, if it has one.
pub open spec fn header_row(rect: Rect, leading_blank: bool) -> int {
    sat_add_u16(rect.y as int, if leading_blank { 1 } else { 0 })
}

/// The cells of a group header in `rect`: the label, cut to the rect's width,
/// on the header's row, in the palette's `overlay1`, bold; nothing when that
/// row is not inside the rect.
pub fn render_group_header(rect: Rect, label: &String, leading_blank: bool, config: &ClientShellConfig) -> (cells: Vec<HeaderCell>)
    ensures
        header_row(rect, leading_blank) >= sat_add_u16(rect.y as int, rect.height as int) ==> cells@.len() == 0,
        header_row(rect, leading_blank) < sat_add_u16(rect.y as int, rect.height as int) ==> {
            &&& cells@.len() == if label@.len() < rect.width { label@.len() as int } else { rect.width as int }
            &&& forall|k: int| 0 <= k < cells@.len() ==> #[trigger] cells@[k] == (HeaderCell {
                x: sat_add_u16(rect.x as int, k) as u16,
                y: header_row(rect, leading_blank) as u16,
                symbol: label@[k],
                fg: config.palette.overlay1,
                bold: true,
            })
        },
{
    let y = rect.y.saturating_add(if leading_blank { 1 } else { 0 });
    let mut cells: Vec<HeaderCell> = Vec::new();
    if y >= rect.bottom() {
        return cells;
    }
    let len = label.as_str().unicode_len();
    let count: usize = if len < rect.width as usize { len } else { rect.width as usize };
    for k in 0..count
        invariant
            count <= rect.width,
            count <= label@.len(),
            y == header_row(rect, leading_blank),
            cells@.len() == k,
            forall|j: int| 0 <= j < k ==> #[trigger] cells@[j] == (HeaderCell {
                x: sat_add_u16(rect.x as int, j) as u16,
                y: header_row(rect, leading_blank) as u16,
                symbol: label@[j],
                fg: config.palette.overlay1,
                bold: true,
            }),
    {
        let symbol = label.as_str().get_char(k);
        cells.push(HeaderCell { x: rect.x.saturating_add(k as u16), y, symbol, fg: config.palette.overlay1, bold: true });
    }
    cells
}

/// The kind of a token of an agent row.
#[derive(PartialEq, Eq, Structural, Clone, Copy, Debug)]
pub enum ResolvedTokenKind {
    /// The agent's state icon.
    StateIcon,
    /// Any other text.
    Text,
}

/// A piece of an agent row, resolved to text.
#[derive(Debug)]
pub struct ResolvedToken {
    pub kind: ResolvedTokenKind,
    pub text: String,
}

/// A row that holds tokens and nothing but state icons.
pub open spec fn only_icons(row: Seq<ResolvedToken>) -> bool {
    row.len() > 0 && forall|i: int| 0 <= i < row.len() ==> (#[trigger] row[i]).kind == ResolvedTokenKind::StateIcon
}

/// The rows after merging, with `carry` the icons waiting for the next row.
pub open spec fn merged_rows(rows: Seq<Seq<ResolvedToken>>, carry: Seq<ResolvedToken>) -> Seq<Seq<ResolvedToken>>
    decreases rows.len(),
{
    if rows.len() == 0 {
        if carry.len() == 0 {
            Seq::empty()
        } else {
            seq![carry]
        }
    } else if only_icons(rows[0]) {
        merged_rows(rows.drop_first(), carry + rows[0])
    } else {
        seq![carry + rows[0]] + merged_rows(rows.drop_first(), Seq::empty())
    }
}

pub open spec fn row_views(rows: Seq<Vec<ResolvedToken>>) -> Seq<Seq<ResolvedToken>> {
    Seq::new(rows.len(), |i: int| rows[i]@)
}

fn is_lone_icon_row(row: &Vec<ResolvedToken>) -> (r: bool)
    ensures
        r == only_icons(row@),
{
    if row.len() == 0 {
        return false;
    }
    let mut i: usize = 0;
    while i < row.len()
        invariant
            i <= row.len(),
            forall|j: int| 0 <= j < i ==> (#[trigger] row@[j]).kind == ResolvedTokenKind::StateIcon,
        decreases row.len() - i,
    {
        if row[i].kind != ResolvedTokenKind::StateIcon {
            return false;
        }
        i = i + 1;
    }
    true
}

/// With machine/workspace hidden under a group header, a row left holding only
/// the state icon merges into the following row so the icon still leads a line.
pub fn merge_lone_icon_rows(rows: Vec<Vec<ResolvedToken>>) -> (merged: Vec<Vec<ResolvedToken>>)
    ensures
        row_views(merged@) == merged_rows(row_views(rows@), Seq::empty()),
{
    let ghost all = row_views(rows@);
    let mut rest = rows;
    let mut merged: Vec<Vec<ResolvedToken>> = Vec::new();
    let mut carry: Vec<ResolvedToken> = Vec::new();
    let ghost mut done: int = 0;
    proof {
        assert(all.skip(0) =~= all);
        assert(row_views(merged@) =~= Seq::<Seq<ResolvedToken>>::empty());
        assert(row_views(merged@) + merged_rows(all.skip(0), carry@) =~= merged_rows(all, Seq::empty()));
    }
    while rest.len() > 0
        invariant
            0 <= done <= all.len(),
            row_views(rest@) == all.skip(done),
            row_views(merged@) + merged_rows(all.skip(done), carry@) == merged_rows(all, Seq::empty()),
        decreases rest.len(),
    {
        let mut row = rest.remove(0);
        let ghost skipped = all.skip(done);
        let ghost row0 = row@;
        let ghost carry0 = carry@;
        proof {
            assert(skipped[0] == row0);
            assert(skipped.drop_first() =~= all.skip(done + 1));
            assert(row_views(rest@) =~= all.skip(done + 1));
        }
        if is_lone_icon_row(&row) {
            carry.append(&mut row);
        } else {
            let mut line: Vec<ResolvedToken> = Vec::new();
            std::mem::swap(&mut line, &mut carry);
            line.append(&mut row);
            let ghost before = row_views(merged@);
            merged.push(line);
            proof {
                assert(row_views(merged@) =~= before + seq![carry0 + row0]);
                assert(merged_rows(skipped, carry0) == seq![carry0 + row0] + merged_rows(all.skip(done + 1), Seq::empty()));
                assert(row_views(merged@) + merged_rows(all.skip(done + 1), carry@) =~= before + merged_rows(skipped, carry0));
            }
        }
        proof {
            done = done + 1;
        }
    }
    if carry.len() > 0 {
        let ghost before = row_views(merged@);
        merged.push(carry);
        proof {
            assert(row_views(merged@) =~= before + seq![carry@]);
        }
    }
    proof {
        assert(all.skip(done) =~= Seq::<Seq<ResolvedToken>>::empty());
    }
    merged
}


// ----------------------------------------------------------------------------
// Laws of the grouped panel
// ----------------------------------------------------------------------------

/// In the grouped panel: groups come in order of first appearance, rows of
/// one space come most urgent first, and equally urgent rows of a space keep
/// their input order.
pub proof fn lemma_display_order_ranks(kv: Seq<KeyView>, ranks: Seq<AgentRank>, order: Seq<usize>, a: int, b: int)
    requires
        display_order(kv, ranks, order),
        0 <= a < b < order.len(),
    ensures
        leader(kv, order[a] as int) <= leader(kv, order[b] as int),
        leader(kv, order[a] as int) == leader(kv, order[b] as int) ==> !rank_gt(ranks[order[b] as int], ranks[order[a] as int]),
        leader(kv, order[a] as int) == leader(kv, order[b] as int) && ranks[order[a] as int] == ranks[order[b] as int] ==> order[a] < order[b],
{
    assert(shown_before(kv, ranks, order[a] as int, order[b] as int));
}

/// The rows of a space are contiguous in the grouped panel: a row shown
/// between two rows of one space belongs to that space.
pub proof fn lemma_display_order_contiguous(kv: Seq<KeyView>, ranks: Seq<AgentRank>, order: Seq<usize>, a: int, m: int, b: int)
    requires
        display_order(kv, ranks, order),
        0 <= a < m < b < order.len(),
        leader(kv, order[a] as int) == leader(kv, order[b] as int),
    ensures
        leader(kv, order[m] as int) == leader(kv, order[a] as int),
{
    assert(shown_before(kv, ranks, order[a] as int, order[m] as int));
    assert(shown_before(kv, ranks, order[m] as int, order[b] as int));
}

/// Merging only regroups tokens: all tokens stay, in order.
pub open spec fn flat(rows: Seq<Seq<ResolvedToken>>) -> Seq<ResolvedToken>
    decreases rows.len(),
{
    if rows.len() == 0 {
        Seq::empty()
    } else {
        rows[0] + flat(rows.drop_first())
    }
}

/// Merging keeps every token, in order; and when no row is empty, it leaves
/// no line of icons alone except a last one, for icons that no row followed.
pub proof fn lemma_merged_rows(rows: Seq<Seq<ResolvedToken>>, carry: Seq<ResolvedToken>)
    ensures
        flat(merged_rows(rows, carry)) == carry + flat(rows),
        (forall|i: int| 0 <= i < rows.len() ==> (#[trigger] rows[i]).len() > 0) ==>
            forall|i: int| 0 <= i < merged_rows(rows, carry).len() - 1 ==> !only_icons(#[trigger] merged_rows(rows, carry)[i]),
    decreases rows.len(),
{
    lemma_merged_rows_flat(rows, carry);
    if forall|i: int| 0 <= i < rows.len() ==> (#[trigger] rows[i]).len() > 0 {
        lemma_merged_rows_lines(rows, carry);
    }
}

proof fn lemma_merged_rows_flat(rows: Seq<Seq<ResolvedToken>>, carry: Seq<ResolvedToken>)
    ensures
        flat(merged_rows(rows, carry)) == carry + flat(rows),
    decreases rows.len(),
{
    if rows.len() == 0 {
        if carry.len() == 0 {
            assert(carry + flat(rows) =~= Seq::<ResolvedToken>::empty());
        } else {
            let one = seq![carry];
            assert(one.drop_first() =~= Seq::<Seq<ResolvedToken>>::empty());
            assert(flat(one) =~= carry + flat(one.drop_first()));
            assert(carry + flat(rows) =~= carry);
            assert(flat(one) =~= carry);
        }
    } else if only_icons(rows[0]) {
        lemma_merged_rows_flat(rows.drop_first(), carry + rows[0]);
        assert(carry + flat(rows) =~= (carry + rows[0]) + flat(rows.drop_first()));
    } else {
        let tail = merged_rows(rows.drop_first(), Seq::empty());
        lemma_merged_rows_flat(rows.drop_first(), Seq::empty());
        let all = seq![carry + rows[0]] + tail;
        assert(all.drop_first() =~= tail);
        assert(all[0] == carry + rows[0]);
        assert(Seq::<ResolvedToken>::empty() + flat(rows.drop_first()) =~= flat(rows.drop_first()));
        assert(carry + flat(rows) =~= (carry + rows[0]) + flat(rows.drop_first()));
    }
}

proof fn lemma_merged_rows_lines(rows: Seq<Seq<ResolvedToken>>, carry: Seq<ResolvedToken>)
    requires
        forall|i: int| 0 <= i < rows.len() ==> (#[trigger] rows[i]).len() > 0,
    ensures
        forall|i: int| 0 <= i < merged_rows(rows, carry).len() - 1 ==> !only_icons(#[trigger] merged_rows(rows, carry)[i]),
    decreases rows.len(),
{
    if rows.len() == 0 {
        if carry.len() > 0 {
            assert(merged_rows(rows, carry).len() == 1);
        }
    } else {
        assert forall|i: int| 0 <= i < rows.drop_first().len() implies (#[trigger] rows.drop_first()[i]).len() > 0 by {
            assert(rows.drop_first()[i] == rows[i + 1]);
        }
    }
    if rows.len() == 0 {
    } else if only_icons(rows[0]) {
        lemma_merged_rows_lines(rows.drop_first(), carry + rows[0]);
        assert(merged_rows(rows, carry) == merged_rows(rows.drop_first(), carry + rows[0]));
    } else {
        let tail = merged_rows(rows.drop_first(), Seq::empty());
        lemma_merged_rows_lines(rows.drop_first(), Seq::empty());
        let all = seq![carry + rows[0]] + tail;
        assert(merged_rows(rows, carry) == all);
        assert(rows[0].len() > 0);
        assert forall|i: int| 0 <= i < all.len() - 1 implies !only_icons(#[trigger] all[i]) by {
            if i == 0 {
                let j = choose|j: int| 0 <= j < rows[0].len() && rows[0][j].kind != ResolvedTokenKind::StateIcon;
                assert((carry + rows[0])[carry.len() + j] == rows[0][j]);
            } else {
                assert(all[i] == tail[i - 1]);
            }
        }
    }
}


/// The panel that `group_items` gives for the local agents, with each pane's
/// space (as `workspace_group` gives it, under any labels) and rank (as
/// `agent_rank` gives it): its agent rows, in order, are the pane ids that
/// `displayed_agent_pane_ids` returns.
pub proof fn lemma_displayed_pane_ids_are_panel_rows(
    snapshot: ClientShellSnapshot,
    config: ClientShellConfig,
    ids: Seq<String>,
    keys: Seq<Option<(GroupKey, String)>>,
    ranks: Seq<AgentRank>,
    items: Seq<AgentPanelItem<String>>,
)
    requires
        keys.len() == ids.len(),
        forall|i: int| 0 <= i < ids.len() ==> #[trigger] key_view(keys[i]) == local_key_views(snapshot, ids)[i],
        ranks == local_ranks(snapshot, ids),
        !grouping_on(config) ==> items == agent_items(ids),
        grouping_on(config) ==> arranged(ids, keys, ranks, items),
    ensures
        agents_of(items) == local_panel_ids(snapshot, config, ids),
{
    if grouping_on(config) {
        assert(key_views(keys) =~= local_key_views(snapshot, ids));
        let order = choose|order: Seq<usize>| #[trigger] display_order(key_views(keys), ranks, order) && items == panel_items(ids, keys, order);
        lemma_agents_of_panel(ids, keys, order);
        let chosen = choose|o: Seq<usize>| #[trigger] display_order(local_key_views(snapshot, ids), local_ranks(snapshot, ids), o);
        lemma_display_order_unique(key_views(keys), ranks, order, chosen);
    } else {
        lemma_agents_of_agent_items(ids);
    }
}

/// The panel that `group_items` gives for the machines' online agents, with
/// each target's group (as `endpoint_group` gives it, under any labels) and
/// rank (as `endpoint_rank` gives it): its agent rows, in order, are the
/// targets that `displayed_agent_targets` returns.
pub proof fn lemma_displayed_targets_are_panel_rows(
    endpoints: Seq<ClientShellEndpoint>,
    config: ClientShellConfig,
    targets: Seq<AggregateAgentTarget>,
    keys: Seq<Option<(GroupKey, String)>>,
    ranks: Seq<AgentRank>,
    items: Seq<AgentPanelItem<AggregateAgentTarget>>,
)
    requires
        keys.len() == targets.len(),
        forall|i: int| 0 <= i < targets.len() ==> #[trigger] key_view(keys[i]) == target_key_views(endpoints, targets)[i],
        ranks == target_ranks(endpoints, targets),
        !grouping_on(config) ==> items == agent_items(targets),
        grouping_on(config) ==> arranged(targets, keys, ranks, items),
    ensures
        agents_of(items) == panel_targets(endpoints, config, targets),
{
    if grouping_on(config) {
        assert(key_views(keys) =~= target_key_views(endpoints, targets));
        let order = choose|order: Seq<usize>| #[trigger] display_order(key_views(keys), ranks, order) && items == panel_items(targets, keys, order);
        lemma_agents_of_panel(targets, keys, order);
        let chosen = choose|o: Seq<usize>| #[trigger] display_order(target_key_views(endpoints, targets), target_ranks(endpoints, targets), o);
        lemma_display_order_unique(key_views(keys), ranks, order, chosen);
    } else {
        lemma_agents_of_agent_items(targets);
    }
}


// ----------------------------------------------------------------------------
// Laws of the grouped panel, stated on the rows' fields
// ----------------------------------------------------------------------------

/// Two rows of the same space have the same group.
pub proof fn lemma_same_space_same_group(kv: Seq<KeyView>, i: int, j: int)
    requires
        0 <= i < kv.len(),
        0 <= j < kv.len(),
        kv[i] is Some,
        kv[i] == kv[j],
    ensures
        leader(kv, i) == leader(kv, j),
{
    lemma_leader_from(kv, i, 0);
    lemma_leader_from(kv, j, 0);
    let li = leader(kv, i);
    let lj = leader(kv, j);
    if li < lj {
        assert(joins(kv, li, j));
    } else if lj < li {
        assert(joins(kv, lj, i));
    }
}

/// Inside a space the panel shows a row with a higher status urgency first,
/// and among equally urgent rows the one with the more recent state change
/// first; equal ranks keep their input order.
pub proof fn lemma_space_rows_by_urgency(kv: Seq<KeyView>, ranks: Seq<AgentRank>, order: Seq<usize>, a: int, b: int)
    requires
        display_order(kv, ranks, order),
        0 <= a < order.len(),
        0 <= b < order.len(),
        kv[order[a] as int] is Some,
        kv[order[a] as int] == kv[order[b] as int],
        ranks[order[a] as int].0 > ranks[order[b] as int].0
            || (ranks[order[a] as int].0 == ranks[order[b] as int].0 && ranks[order[a] as int].1 > ranks[order[b] as int].1)
            || (ranks[order[a] as int] == ranks[order[b] as int] && order[a] < order[b]),
    ensures
        a < b,
{
    lemma_same_space_same_group(kv, order[a] as int, order[b] as int);
    if b < a {
        assert(shown_before(kv, ranks, order[b] as int, order[a] as int));
    }
    if a == b {
        assert(order[a] == order[b]);
    }
}

} // verus!
