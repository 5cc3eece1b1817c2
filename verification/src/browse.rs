//! The master's browse window: the lazily loaded tree of nodes reported by
//! browse results, the roots, outstanding browse requests, the variables
//! ticked for monitoring and how they are to be monitored.

use std::collections::HashSet;

use vstd::prelude::*;

use crate::conn_map::{self, ConnMap};
use crate::master_events::{
    BrowseItem, DataChangeFilterReq, DataChangeTriggerKindReq, DeadbandKindReq, MonitoredNodeReq,
};
use crate::master_model::BrowseNodeState;

verus! {

broadcast use vstd::std_specs::hash::group_hash_axioms;

/// The browse window over one connection.
pub struct BrowseState {
    pub open: bool,
    pub conn_id: Option<String>,
    pub root_loaded: bool,
    /// Every node reported so far, by node id.
    pub nodes: ConnMap<BrowseNodeState>,
    pub roots: Vec<String>,
    /// Ids of browse requests not answered yet.
    pub pending: HashSet<u64>,
    /// Node ids ticked for monitoring (the values carry nothing).
    pub selected: ConnMap<()>,
    /// `"Subscription"` or `"Polling"`.
    pub access_mode: String,
    /// Sampling interval in milliseconds, as the bit pattern of an IEEE-754 double.
    pub interval_ms_bits: u64,
    pub max_depth: u32,
    pub filter_enabled: bool,
    pub trigger: DataChangeTriggerKindReq,
    pub deadband_kind: DeadbandKindReq,
    /// The deadband, as the bit pattern of an IEEE-754 double.
    pub deadband_value_bits: u64,
}

/// Bit pattern of the double `1000.0`, the default sampling interval.
pub const DEFAULT_INTERVAL_MS_BITS: u64 = 0x408f_4000_0000_0000;

/// `a` and `b` agree on how new variables are to be monitored.
pub open spec fn same_settings(a: BrowseState, b: BrowseState) -> bool {
    &&& a.access_mode == b.access_mode
    &&& a.interval_ms_bits == b.interval_ms_bits
    &&& a.max_depth == b.max_depth
    &&& a.filter_enabled == b.filter_enabled
    &&& a.trigger == b.trigger
    &&& a.deadband_kind == b.deadband_kind
    &&& a.deadband_value_bits == b.deadband_value_bits
}

/// The characters of each string of `s`.
pub open spec fn texts(s: Seq<String>) -> Seq<Seq<char>> {
    s.map_values(|x: String| x@)
}

/// The node ids of `items`, in order.
pub open spec fn item_ids(items: Seq<BrowseItem>) -> Seq<Seq<char>> {
    items.map_values(|it: BrowseItem| it.node_id@)
}

/// A freshly reported, collapsed, not yet browsed node.
pub open spec fn fresh_node(it: BrowseItem) -> BrowseNodeState {
    BrowseNodeState { item: it, expanded: false, children: None, loading: false }
}

/// `m` with every item of `items` stored as a fresh node, later ones winning.
pub open spec fn with_items(m: Map<Seq<char>, BrowseNodeState>, items: Seq<BrowseItem>) -> Map<
    Seq<char>,
    BrowseNodeState,
>
    decreases items.len(),
{
    if items.len() == 0 {
        m
    } else {
        with_items(m, items.drop_last()).insert(items.last().node_id@, fresh_node(items.last()))
    }
}

/// `new` is `old` after taking in the browse result of request `req_id`
/// for `parent` with `items`.
pub open spec fn browse_result_applied(
    old: BrowseState,
    new: BrowseState,
    req_id: u64,
    parent: Option<String>,
    items: Seq<BrowseItem>,
) -> bool {
    &&& new.pending@ == old.pending@.remove(req_id)
    &&& new.selected == old.selected
    &&& new.conn_id == old.conn_id
    &&& new.open == old.open
    &&& same_settings(old, new)
    &&& ({
        let m = with_items(old.nodes@, items);
        &&& new.nodes@.dom() == m.dom()
        &&& match parent {
            None => {
                &&& new.nodes@ == m
                &&& texts(new.roots@) == item_ids(items)
                &&& new.root_loaded
            },
            Some(pid) => {
                &&& new.roots == old.roots
                &&& new.root_loaded == old.root_loaded
                &&& forall|k: Seq<char>|
                    k != pid@ && #[trigger] m.contains_key(k) ==> new.nodes@[k]
                        == m[k]
                &&& m.contains_key(pid@) ==> {
                    let st = new.nodes@[pid@];
                    &&& st.item == m[pid@].item
                    &&& !st.loading
                    &&& st.expanded
                    &&& st.children matches Some(c) && texts(c@) == item_ids(items)
                }
            },
        }
    })
}

impl Default for BrowseState {
    /// Closed, for no connection, nothing loaded or ticked; new variables
    /// are subscribed every 1000 ms to depth 1, without a data-change filter
    /// (which, once enabled, reports status and value changes, no deadband).
    fn default() -> (r: Self)
        ensures
            r.wf(),
            !r.open,
            r.conn_id is None,
            !r.root_loaded,
            r.nodes@ == Map::<Seq<char>, BrowseNodeState>::empty(),
            r.roots@.len() == 0,
            r.pending@ == Set::<u64>::empty(),
            r.selected@ == Map::<Seq<char>, ()>::empty(),
            r.access_mode@ == "Subscription"@,
            r.interval_ms_bits == DEFAULT_INTERVAL_MS_BITS,
            r.max_depth == 1,
            !r.filter_enabled,
            r.trigger == DataChangeTriggerKindReq::StatusValue,
            r.deadband_kind == DeadbandKindReq::NoDeadband,
            r.deadband_value_bits == 0,
    {
        BrowseState {
            open: false,
            conn_id: None,
            root_loaded: false,
            nodes: ConnMap::new(),
            roots: Vec::new(),
            pending: HashSet::new(),
            selected: ConnMap::new(),
            access_mode: String::from_str("Subscription"),
            interval_ms_bits: DEFAULT_INTERVAL_MS_BITS,
            max_depth: 1,
            filter_enabled: false,
            trigger: DataChangeTriggerKindReq::StatusValue,
            deadband_kind: DeadbandKindReq::NoDeadband,
            deadband_value_bits: 0,
        }
    }
}

impl BrowseState {
    /// Well-formed: node ids and ticked ids are distinct.
    pub open spec fn wf(&self) -> bool {
        self.nodes.wf() && self.selected.wf()
    }

    /// Opens the window on `conn_id` and starts browsing it afresh:
    /// everything loaded is dropped and `req_id` is the only outstanding
    /// request; the ticked variables and the settings stay.
    pub fn begin_browse_root(&mut self, conn_id: String, req_id: u64)
        requires
            old(self).wf(),
        ensures
            final(self).wf(),
            final(self).conn_id == Some(conn_id),
            !final(self).root_loaded,
            final(self).nodes@ == Map::<Seq<char>, BrowseNodeState>::empty(),
            final(self).roots@.len() == 0,
            final(self).pending@ == set![req_id],
            final(self).selected == old(self).selected,
            final(self).open,
            same_settings(*old(self), *final(self)),
    {
        self.open = true;
        self.conn_id = Some(conn_id);
        self.root_loaded = false;
        self.nodes = ConnMap::new();
        self.roots = Vec::new();
        self.pending = HashSet::new();
        self.pending.insert(req_id);
    }

    /// Marks node `node_id` as being browsed under request `req_id`.
    pub fn begin_browse_node(&mut self, node_id: &str, req_id: u64)
        requires
            old(self).wf(),
        ensures
            final(self).wf(),
            final(self).nodes@.dom() == old(self).nodes@.dom(),
            forall|k: Seq<char>|
                k != node_id@ && #[trigger] old(self).nodes@.contains_key(k) ==> final(self).nodes@[k] == old(self).nodes@[k],
            old(self).nodes@.contains_key(node_id@) ==> {
                let st = final(self).nodes@[node_id@];
                let st0 = old(self).nodes@[node_id@];
                st.loading && st.expanded && st.item == st0.item && st.children == st0.children
            },
            final(self).pending@ == old(self).pending@.insert(req_id),
            final(self).roots == old(self).roots,
            final(self).root_loaded == old(self).root_loaded,
            final(self).selected == old(self).selected,
            final(self).conn_id == old(self).conn_id,
            final(self).open == old(self).open,
            same_settings(*old(self), *final(self)),
    {
        match self.nodes.remove(node_id) {
            Some(st) => {
                let mut st = st;
                st.loading = true;
                st.expanded = true;
                self.nodes.insert(String::from_str(node_id), st);
                assert(self.nodes@.dom() =~= old(self).nodes@.dom());
            },
            None => {
                assert(self.nodes@ =~= old(self).nodes@);
            },
        }
        self.pending.insert(req_id);
    }

    /// Ticks or unticks a variable for monitoring.
    pub fn toggle_selection(&mut self, node_id: &str, checked: bool)
        requires
            old(self).wf(),
        ensures
            final(self).wf(),
            checked ==> final(self).selected@.dom() == old(self).selected@.dom().insert(node_id@),
            !checked ==> final(self).selected@.dom() == old(self).selected@.dom().remove(node_id@),
            final(self).nodes == old(self).nodes,
            final(self).roots == old(self).roots,
            final(self).pending == old(self).pending,
            final(self).root_loaded == old(self).root_loaded,
            final(self).conn_id == old(self).conn_id,
            final(self).open == old(self).open,
            same_settings(*old(self), *final(self)),
    {
        if checked {
            self.selected.insert(String::from_str(node_id), ());
            assert(self.selected@.dom() =~= old(self).selected@.dom().insert(node_id@));
        } else {
            let _ = self.selected.remove(node_id);
            assert(self.selected@.dom() =~= old(self).selected@.dom().remove(node_id@));
        }
    }

    /// Takes in the children reported for request `req_id`: the request is
    /// settled, every item is stored as a fresh node, and the items become
    /// the roots (no parent) or the loaded, expanded children of `parent`
    /// when that node is known.
    pub fn apply_browse_result(&mut self, req_id: u64, parent: Option<String>, items: Vec<BrowseItem>)
        requires
            old(self).wf(),
        ensures
            final(self).wf(),
            browse_result_applied(*old(self), *final(self), req_id, parent, items@),
    {
        self.remove_pending(req_id);
        let ghost start = items@;
        let ghost m0 = self.nodes@;
        let mut rest = items;
        let n = rest.len();
        let mut ids: Vec<String> = Vec::new();
        let mut i: usize = 0;
        while i < n
            invariant
                start.len() == n,
                i <= n,
                rest@ == start.skip(i as int),
                self.nodes.wf(),
                self.nodes@ == with_items(m0, start.take(i as int)),
                m0 == old(self).nodes@,
                self.pending@ == old(self).pending@.remove(req_id),
                self.selected == old(self).selected,
                self.conn_id == old(self).conn_id,
                self.open == old(self).open,
                same_settings(*old(self), *self),
                self.roots == old(self).roots,
                self.root_loaded == old(self).root_loaded,
                texts(ids@) == item_ids(start.take(i as int)),
            decreases n - i,
        {
            let it = rest.remove(0);
            assert(start.skip(i as int)[0] == start[i as int]);
            assert(start.skip(i as int).remove(0) == start.skip(i + 1));
            assert(start.take(i + 1).drop_last() == start.take(i as int));
            assert(item_ids(start.take(i + 1)) == item_ids(start.take(i as int)).push(it.node_id@));
            let key = it.node_id.clone();
            ids.push(it.node_id.clone());
            self.nodes.insert(key, BrowseNodeState { item: it, expanded: false, children: None, loading: false });
            i = i + 1;
        }
        assert(start.take(n as int) == start);
        match parent {
            None => {
                self.roots = ids;
                self.root_loaded = true;
            },
            Some(pid) => {
                let ghost m = self.nodes@;
                match self.nodes.remove(pid.as_str()) {
                    Some(st) => {
                        let mut st = st;
                        st.loading = false;
                        st.expanded = true;
                        st.children = Some(ids);
                        self.nodes.insert(pid, st);
                        assert(self.nodes@.dom() =~= m.dom());
                    },
                    None => {
                        assert(self.nodes@ =~= m);
                    },
                }
            },
        }
    }

    /// Settles request `req_id`.
    fn remove_pending(&mut self, req_id: u64)
        ensures
            final(self).pending@ == old(self).pending@.remove(req_id),
            final(self).nodes == old(self).nodes,
            final(self).roots == old(self).roots,
            final(self).root_loaded == old(self).root_loaded,
            final(self).selected == old(self).selected,
            final(self).conn_id == old(self).conn_id,
            final(self).open == old(self).open,
            same_settings(*old(self), *final(self)),
    {
        let _ = self.pending.remove(&req_id);
    }

    /// A node whose loaded children include `node_id` (used to find the
    /// object a method belongs to); which one, if several, is left open.
    pub fn find_parent_object(&self, node_id: &str) -> (r: Option<String>)
        requires
            self.wf(),
        ensures
            r matches Some(p) ==> self.nodes@.contains_key(p@) && (self.nodes@[p@].children matches Some(
                c,
            ) && texts(c@).contains(node_id@)),
            r is None ==> forall|k: Seq<char>| #[trigger]
                self.nodes@.contains_key(k) ==> !(self.nodes@[k].children matches Some(c) && texts(
                    c@,
                ).contains(node_id@)),
    {
        let target = String::from_str(node_id);
        let mut i: usize = 0;
        while i < self.nodes.items.len()
            invariant
                i <= self.nodes.items.len(),
                self.wf(),
                target@ == node_id@,
                forall|j: int|
                    0 <= j < i ==> !(#[trigger] self.nodes.items@[j].1.children matches Some(c)
                        && texts(c@).contains(node_id@)),
            decreases self.nodes.items.len() - i,
        {
            let entry = &self.nodes.items[i];
            match &entry.1.children {
                Some(kids) => {
                    if crate::groups::contains_text(kids, &target) {
                        proof {
                            assert(crate::groups::texts(kids@) == texts(kids@));
                            conn_map::lemma_map_of_at(self.nodes.items@, i as int);
                        }
                        return Some(entry.0.clone());
                    }
                    assert(crate::groups::texts(kids@) == texts(kids@));
                },
                None => {},
            }
            i = i + 1;
        }
        assert forall|k: Seq<char>| #[trigger] self.nodes@.contains_key(k) implies !(
        self.nodes@[k].children matches Some(c) && texts(c@).contains(node_id@)) by {
            let j = choose|j: int| 0 <= j < self.nodes.items@.len() && self.nodes.items@[j].0@ == k;
            conn_map::lemma_map_of_at(self.nodes.items@, j);
        }
        None
    }
}

/// The filter `s` asks for: its trigger and deadband when the filter is enabled.
pub open spec fn filter_of(s: BrowseState) -> Option<DataChangeFilterReq> {
    if s.filter_enabled {
        Some(
            DataChangeFilterReq {
                trigger: s.trigger,
                deadband_kind: s.deadband_kind,
                deadband_value_bits: s.deadband_value_bits,
            },
        )
    } else {
        None
    }
}

/// `q` asks to monitor node `id`, known in `s` as `st`, with the settings of `s`.
pub open spec fn request_for(q: MonitoredNodeReq, s: BrowseState, st: BrowseNodeState) -> bool {
    &&& q.display_name == st.item.display_name
    &&& q.data_type == st.item.data_type
    &&& q.access_mode == s.access_mode
    &&& q.interval_ms_bits == s.interval_ms_bits
    &&& q.filter == filter_of(s)
}

impl BrowseState {
    /// The data-change filter to ask for, when enabled.
    pub fn current_filter_req(&self) -> (r: Option<DataChangeFilterReq>)
        ensures
            r == filter_of(*self),
    {
        if !self.filter_enabled {
            return None;
        }
        Some(
            DataChangeFilterReq {
                trigger: self.trigger,
                deadband_kind: self.deadband_kind,
                deadband_value_bits: self.deadband_value_bits,
            },
        )
    }

    /// Takes the ticked variables for monitoring: one request per ticked
    /// node that the tree knows, each node once, with the window's settings;
    /// the ticks are cleared.  Which order the requests come in is left open.
    pub fn selected_node_requests(&mut self) -> (r: Vec<MonitoredNodeReq>)
        requires
            old(self).wf(),
        ensures
            final(self).wf(),
            final(self).selected@ == Map::<Seq<char>, ()>::empty(),
            forall|i: int|
                0 <= i < r@.len() ==> {
                    let k = (#[trigger] r@[i]).node_id@;
                    &&& old(self).selected@.contains_key(k)
                    &&& old(self).nodes@.contains_key(k)
                    &&& request_for(r@[i], *old(self), old(self).nodes@[k])
                },
            forall|k: Seq<char>|
                #[trigger] old(self).selected@.contains_key(k) && old(self).nodes@.contains_key(k)
                    ==> exists|i: int| 0 <= i < r@.len() && r@[i].node_id@ == k,
            forall|i: int, j: int|
                0 <= i < r@.len() && 0 <= j < r@.len() && i != j ==> r@[i].node_id@ != r@[j].node_id@,
            final(self).nodes == old(self).nodes,
            final(self).roots == old(self).roots,
            final(self).pending == old(self).pending,
            final(self).root_loaded == old(self).root_loaded,
            final(self).conn_id == old(self).conn_id,
            final(self).open == old(self).open,
            same_settings(*old(self), *final(self)),
    {
        let filter = self.current_filter_req();
        let ghost sel = self.selected.items@;
        let mut out: Vec<MonitoredNodeReq> = Vec::new();
        let mut i: usize = 0;
        while i < self.selected.items.len()
            invariant
                i <= self.selected.items.len(),
                sel == self.selected.items@,
                self.wf(),
                *self == *old(self),
                filter == filter_of(*self),
                forall|a: int|
                    0 <= a < out@.len() ==> {
                        let k = (#[trigger] out@[a]).node_id@;
                        &&& exists|j: int| 0 <= j < i && sel[j].0@ == k
                        &&& self.nodes@.contains_key(k)
                        &&& request_for(out@[a], *self, self.nodes@[k])
                    },
                forall|j: int|
                    0 <= j < i && #[trigger] self.nodes@.contains_key(sel[j].0@) ==> exists|a: int|
                        0 <= a < out@.len() && out@[a].node_id@ == sel[j].0@,
                forall|a: int, b: int|
                    0 <= a < out@.len() && 0 <= b < out@.len() && a != b ==> out@[a].node_id@
                        != out@[b].node_id@,
            decreases self.selected.items.len() - i,
        {
            let id = &self.selected.items[i].0;
            match self.nodes.get(id.as_str()) {
                Some(st) => {
                    let q = MonitoredNodeReq {
                        node_id: id.clone(),
                        display_name: st.item.display_name.clone(),
                        data_type: st.item.data_type.clone(),
                        access_mode: self.access_mode.clone(),
                        interval_ms_bits: self.interval_ms_bits,
                        filter,
                    };
                    let ghost before = out@;
                    out.push(q);
                    assert forall|a: int| 0 <= a < before.len() implies out@[a].node_id@ != sel[
                        i as int].0@ by {
                        let k = before[a].node_id@;
                        let j = choose|j: int| 0 <= j < i && sel[j].0@ == k;
                        assert(out@[a] == before[a]);
                    }
                    assert forall|j: int|
                        0 <= j < i + 1 && #[trigger] self.nodes@.contains_key(sel[j].0@) implies exists|
                        a: int,
                    | 0 <= a < out@.len() && out@[a].node_id@ == sel[j].0@ by {
                        if j < i {
                            let a = choose|a: int|
                                0 <= a < before.len() && before[a].node_id@ == sel[j].0@;
                            assert(out@[a] == before[a]);
                        } else {
                            assert(out@[before.len() as int].node_id@ == sel[j].0@);
                        }
                    }
                },
                None => {},
            }
            i = i + 1;
        }
        proof {
            assert forall|k: Seq<char>|
                #[trigger] old(self).selected@.contains_key(k) && old(self).nodes@.contains_key(k)
                    implies exists|a: int| 0 <= a < out@.len() && out@[a].node_id@ == k by {
                assert(conn_map::has_key(sel, k));
                let j = choose|j: int| 0 <= j < sel.len() && sel[j].0@ == k;
                assert(self.nodes@.contains_key(sel[j].0@));
            }
            assert forall|a: int| 0 <= a < out@.len() implies old(self).selected@.contains_key(
                (#[trigger] out@[a]).node_id@,
            ) by {
                let k = out@[a].node_id@;
                let j = choose|j: int| 0 <= j < sel.len() && sel[j].0@ == k;
                conn_map::lemma_map_of_at(sel, j);
            }
        }
        self.selected = ConnMap::new();
        out
    }
}

/// The icon shown before a node of class `node_class`.
pub fn node_class_icon(node_class: &str) -> (r: &'static str)
    ensures
        node_class@ == "Method"@ ==> r@ == "⚙"@,
        node_class@ == "Object"@ ==> r@ == "📁"@,
        node_class@ == "Variable"@ ==> r@ == "🔢"@,
        node_class@ != "Method"@ && node_class@ != "Object"@ && node_class@ != "Variable"@ ==> r@
            == "•"@,
{
    proof {
        reveal_strlit("Method");
        reveal_strlit("Object");
        reveal_strlit("Variable");
        assert("Method"@.len() == 6 && "Method"@[0] == 'M');
        assert("Object"@.len() == 6 && "Object"@[0] == 'O');
        assert("Variable"@.len() == 8);
    }
    if crate::text::str_eq(node_class, "Method") {
        "⚙"
    } else if crate::text::str_eq(node_class, "Object") {
        "📁"
    } else if crate::text::str_eq(node_class, "Variable") {
        "🔢"
    } else {
        "•"
    }
}

} // verus!
