//! View-model rules of the server front end: status, address-space rows,
//! simulation kinds, node ids of new folders and variables, and the latest
//! simulated values.

use vstd::prelude::*;

use crate::conn_map::ConnMap;
use crate::text;

verus! {

/// Severity of a toast notification in the server front end.
#[derive(Debug, Clone, Copy, PartialEq, Eq, Structural)]
pub enum ToastLevel {
    Info,
    Error,
}

/// A transient notification; `created_at` is a monotonic timestamp in milliseconds.
pub struct Toast {
    pub level: ToastLevel,
    pub message: String,
    pub created_at: u64,
}

/// The toasts of `ts` still shown at `now` (created less than four whole
/// seconds before), in order.
pub open spec fn fresh_server_toasts(ts: Seq<Toast>, now: u64) -> Seq<Toast>
    decreases ts.len(),
{
    if ts.len() == 0 {
        ts
    } else {
        let rest = fresh_server_toasts(ts.drop_last(), now);
        if crate::master_model::toast_fresh(ts.last().created_at, now) {
            rest.push(ts.last())
        } else {
            rest
        }
    }
}

/// Drops the toasts older than four seconds at `now`.
pub fn retain_fresh_toasts(toasts: &mut Vec<Toast>, now: u64)
    ensures
        final(toasts)@ == fresh_server_toasts(old(toasts)@, now),
{
    let ghost start = toasts@;
    let mut rest: Vec<Toast> = Vec::new();
    std::mem::swap(&mut rest, toasts);
    let n = rest.len();
    let mut kept: Vec<Toast> = Vec::new();
    let mut i: usize = 0;
    while i < n
        invariant
            start.len() == n,
            i <= n,
            rest@ == start.skip(i as int),
            kept@ == fresh_server_toasts(start.take(i as int), now),
        decreases n - i,
    {
        let t = rest.remove(0);
        assert(start.take(i + 1).drop_last() == start.take(i as int));
        assert(start.take(i + 1).last() == t);
        if now.saturating_sub(t.created_at) < 4000 {
            kept.push(t);
        }
        i = i + 1;
    }
    assert(start.take(n as int) == start);
    *toasts = kept;
}

/// Adds a toast created at `now`.
pub fn push_toast(toasts: &mut Vec<Toast>, level: ToastLevel, message: String, now: u64)
    ensures
        final(toasts)@ == old(toasts)@.push(Toast { level, message, created_at: now }),
{
    toasts.push(Toast { level, message, created_at: now });
}

/// What the status bar shows about the embedded server.
#[derive(Debug, Clone)]
pub struct ServerStatus {
    pub state: String,
    pub node_count: usize,
    pub folder_count: usize,
    pub endpoint_url: String,
}

/// The status shown before the backend first reports: stopped, empty, on the default endpoint.
pub fn initial_server_status() -> (r: ServerStatus)
    ensures
        r.state@ == "Stopped"@,
        r.node_count == 0,
        r.folder_count == 0,
        r.endpoint_url@ == "opc.tcp://0.0.0.0:4840"@,
{
    ServerStatus {
        state: String::from_str("Stopped"),
        node_count: 0,
        folder_count: 0,
        endpoint_url: String::from_str("opc.tcp://0.0.0.0:4840"),
    }
}

/// Whether two statuses differ in any field.
pub open spec fn status_differs_spec(a: ServerStatus, b: ServerStatus) -> bool {
    a.state@ != b.state@ || a.node_count != b.node_count || a.folder_count != b.folder_count
        || a.endpoint_url@ != b.endpoint_url@
}

/// Whether `current` must be sent: nothing was sent yet or it differs from the last one.
pub fn status_changed(last: &Option<ServerStatus>, current: &ServerStatus) -> (r: bool)
    ensures
        r == match last {
            None => true,
            Some(l) => status_differs_spec(*l, *current),
        },
{
    match last {
        None => true,
        Some(l) => l.state != current.state || l.node_count != current.node_count
            || l.folder_count != current.folder_count || l.endpoint_url != current.endpoint_url,
    }
}

/// A tick of the simulation poller that read `changed` values at sequence
/// number `seq`: they are sent, and `seq` becomes the last one, unless the
/// number did not move or nothing changed.
pub fn sim_tick(last_seq: &mut u64, seq: u64, changed: usize) -> (send: bool)
    ensures
        send == (seq != *old(last_seq) && changed > 0),
        *final(last_seq) == if send { seq } else { *old(last_seq) },
{
    if seq == *last_seq || changed == 0 {
        return false;
    }
    *last_seq = seq;
    true
}

/// A folder of the address space.
#[derive(Debug, Clone)]
pub struct FolderRow {
    pub node_id: String,
    pub display_name: String,
    pub parent_id: String,
}

/// The simulation modes a new variable can get.
#[derive(Debug, Clone, Copy, PartialEq, Eq, Structural)]
pub enum SimKind {
    Static,
    Random,
    Sine,
    Linear,
    Script,
}

/// The name shown for a simulation kind.
pub open spec fn sim_label_of(k: SimKind) -> Seq<char> {
    match k {
        SimKind::Static => "Static"@,
        SimKind::Random => "Random"@,
        SimKind::Sine => "Sine"@,
        SimKind::Linear => "Linear"@,
        SimKind::Script => "Script"@,
    }
}

/// The name shown for a simulation kind.
pub fn sim_label(k: SimKind) -> (r: &'static str)
    ensures
        r@ == sim_label_of(k),
{
    match k {
        SimKind::Static => "Static",
        SimKind::Random => "Random",
        SimKind::Sine => "Sine",
        SimKind::Linear => "Linear",
        SimKind::Script => "Script",
    }
}

/// Node id given to a folder or variable named `name`: `ns=2;s=` followed by
/// the name with spaces turned into underscores.
pub open spec fn node_id_for_name_spec(name: Seq<char>) -> Seq<char> {
    "ns=2;s="@ + text::replace_char(name, ' ', '_')
}

/// Node id given to a folder or variable named `name`.
pub fn node_id_for_name(name: &str) -> (r: String)
    ensures
        r@ == node_id_for_name_spec(name@),
{
    let mut v: Vec<char> = Vec::new();
    text::push_str_chars(&mut v, "ns=2;s=");
    let tail = text::replace_char_exec(name, ' ', '_');
    let mut i: usize = 0;
    let ghost head = v@;
    while i < tail.len()
        invariant
            i <= tail.len(),
            v@ == head + tail@.take(i as int),
        decreases tail.len() - i,
    {
        v.push(tail[i]);
        assert(tail@.take(i + 1) == tail@.take(i as int).push(tail@[i as int]));
        i = i + 1;
    }
    assert(tail@.take(tail.len() as int) == tail@);
    text::string_from_chars(&v)
}

/// Node id of a sub-folder named `name` under folder `parent_id`: `ns=2;s=`,
/// the parent id with colons turned into underscores, `_`, and the name with
/// spaces turned into underscores.
pub open spec fn subfolder_node_id_spec(parent_id: Seq<char>, name: Seq<char>) -> Seq<char> {
    "ns=2;s="@ + text::replace_char(parent_id, ':', '_') + "_"@ + text::replace_char(name, ' ', '_')
}

fn push_all(v: &mut Vec<char>, w: &Vec<char>)
    ensures
        final(v)@ == old(v)@ + w@,
{
    let mut i: usize = 0;
    while i < w.len()
        invariant
            i <= w.len(),
            v@ == old(v)@ + w@.take(i as int),
        decreases w.len() - i,
    {
        v.push(w[i]);
        assert(w@.take(i + 1) == w@.take(i as int).push(w@[i as int]));
        i = i + 1;
    }
    assert(w@.take(w.len() as int) == w@);
}

/// Node id of a sub-folder named `name` under folder `parent_id`.
pub fn subfolder_node_id(parent_id: &str, name: &str) -> (r: String)
    ensures
        r@ == subfolder_node_id_spec(parent_id@, name@),
{
    let mut v: Vec<char> = Vec::new();
    text::push_str_chars(&mut v, "ns=2;s=");
    push_all(&mut v, &text::replace_char_exec(parent_id, ':', '_'));
    text::push_str_chars(&mut v, "_");
    push_all(&mut v, &text::replace_char_exec(name, ' ', '_'));
    text::string_from_chars(&v)
}

/// The top-level folder to create from the typed name `typed`: nothing
/// while the name is blank, else the trimmed name with its node id.
pub fn folder_request(typed: &str) -> (r: Option<(String, String)>)
    ensures
        text::is_blank(typed@) ==> r is None,
        !text::is_blank(typed@) ==> (r matches Some(p) && p.1@ == text::trim(typed@) && p.0@
            == node_id_for_name_spec(text::trim(typed@))),
{
    if text::is_blank_str(typed) {
        return None;
    }
    let name = text::trim_string(typed);
    let node_id = node_id_for_name(name.as_str());
    Some((node_id, name))
}

/// The folder to create under `parent_id` from the typed name `typed`:
/// nothing while the name is blank, else the trimmed name with its node id.
pub fn subfolder_request(parent_id: &str, typed: &str) -> (r: Option<(String, String)>)
    ensures
        text::is_blank(typed@) ==> r is None,
        !text::is_blank(typed@) ==> (r matches Some(p) && p.1@ == text::trim(typed@) && p.0@
            == subfolder_node_id_spec(parent_id@, text::trim(typed@))),
{
    if text::is_blank_str(typed) {
        return None;
    }
    let name = text::trim_string(typed);
    let node_id = subfolder_node_id(parent_id, name.as_str());
    Some((node_id, name))
}

/// Node id of a variable added from the form: the form's own id, trimmed,
/// unless it is blank, in which case one derived from the name.
pub fn form_node_id(typed_id: &str, name: &str) -> (r: String)
    ensures
        text::is_blank(typed_id@) ==> r@ == node_id_for_name_spec(name@),
        !text::is_blank(typed_id@) ==> r@ == text::trim(typed_id@),
{
    if text::is_blank_str(typed_id) {
        node_id_for_name(name)
    } else {
        text::trim_string(typed_id)
    }
}

/// The folders of `fs` that are neither `id` itself nor directly under it.
pub open spec fn folders_after_removal(fs: Seq<FolderRow>, id: Seq<char>) -> Seq<FolderRow>
    decreases fs.len(),
{
    if fs.len() == 0 {
        fs
    } else {
        let rest = folders_after_removal(fs.drop_last(), id);
        if fs.last().node_id@ != id && fs.last().parent_id@ != id {
            rest.push(fs.last())
        } else {
            rest
        }
    }
}

/// Removes folder `node_id` and the folders directly under it, keeping the
/// order of the others.
pub fn remove_folder_rows(folders: &mut Vec<FolderRow>, node_id: &str)
    ensures
        final(folders)@ == folders_after_removal(old(folders)@, node_id@),
{
    let ghost start = folders@;
    let k = String::from_str(node_id);
    let mut rest: Vec<FolderRow> = Vec::new();
    std::mem::swap(&mut rest, folders);
    let n = rest.len();
    let mut kept: Vec<FolderRow> = Vec::new();
    let mut i: usize = 0;
    while i < n
        invariant
            start.len() == n,
            i <= n,
            rest@ == start.skip(i as int),
            k@ == node_id@,
            kept@ == folders_after_removal(start.take(i as int), node_id@),
        decreases n - i,
    {
        let f = rest.remove(0);
        assert(start.skip(i as int)[0] == start[i as int]);
        assert(start.skip(i as int).remove(0) == start.skip(i + 1));
        assert(start.take(i + 1).drop_last() == start.take(i as int));
        if f.node_id != k && f.parent_id != k {
            kept.push(f);
        }
        i = i + 1;
    }
    assert(start.take(n as int) == start);
    *folders = kept;
}

/// A variable of the address space: the fields the node list is kept by,
/// with its data type `D` and simulation settings `S` carried along.
pub struct NodeEntry<D, S> {
    pub node_id: String,
    pub display_name: String,
    pub parent_id: String,
    pub data_type: D,
    pub writable: bool,
    pub simulation: S,
}

/// The variables of `ns` that are neither `id` itself nor directly under it.
pub open spec fn nodes_after_removal<D, S>(ns: Seq<NodeEntry<D, S>>, id: Seq<char>) -> Seq<
    NodeEntry<D, S>,
>
    decreases ns.len(),
{
    if ns.len() == 0 {
        ns
    } else {
        let rest = nodes_after_removal(ns.drop_last(), id);
        if ns.last().node_id@ != id && ns.last().parent_id@ != id {
            rest.push(ns.last())
        } else {
            rest
        }
    }
}

/// Removes variable `node_id` and the variables directly under it, keeping
/// the order of the others.
pub fn remove_node_entries<D, S>(nodes: &mut Vec<NodeEntry<D, S>>, node_id: &str)
    ensures
        final(nodes)@ == nodes_after_removal(old(nodes)@, node_id@),
{
    let ghost start = nodes@;
    let k = String::from_str(node_id);
    let mut rest: Vec<NodeEntry<D, S>> = Vec::new();
    std::mem::swap(&mut rest, nodes);
    let n = rest.len();
    let mut kept: Vec<NodeEntry<D, S>> = Vec::new();
    let mut i: usize = 0;
    while i < n
        invariant
            start.len() == n,
            i <= n,
            rest@ == start.skip(i as int),
            k@ == node_id@,
            kept@ == nodes_after_removal(start.take(i as int), node_id@),
        decreases n - i,
    {
        let e = rest.remove(0);
        assert(start.skip(i as int)[0] == start[i as int]);
        assert(start.skip(i as int).remove(0) == start.skip(i + 1));
        assert(start.take(i + 1).drop_last() == start.take(i as int));
        if e.node_id != k && e.parent_id != k {
            kept.push(e);
        }
        i = i + 1;
    }
    assert(start.take(n as int) == start);
    *nodes = kept;
}

/// Removing variable `id` keeps exactly the variables that are neither `id`
/// itself nor directly under it: none that remain has `id` as its id or
/// parent, every one with neither remains, nothing else appears, and the
/// list is untouched when no variable mentions `id`.
pub proof fn lemma_node_removal_keeps_exactly_the_others<D, S>(ns: Seq<NodeEntry<D, S>>, id: Seq<char>)
    ensures
        forall|i: int|
            0 <= i < nodes_after_removal(ns, id).len() ==> (#[trigger] nodes_after_removal(ns, id)[i]).node_id@
                != id && nodes_after_removal(ns, id)[i].parent_id@ != id,
        forall|i: int|
            0 <= i < ns.len() && (#[trigger] ns[i]).node_id@ != id && ns[i].parent_id@ != id
                ==> nodes_after_removal(ns, id).contains(ns[i]),
        forall|i: int|
            0 <= i < nodes_after_removal(ns, id).len() ==> ns.contains(
                #[trigger] nodes_after_removal(ns, id)[i],
            ),
        (forall|i: int| 0 <= i < ns.len() ==> (#[trigger] ns[i]).node_id@ != id && ns[i].parent_id@ != id)
            ==> nodes_after_removal(ns, id) == ns,
    decreases ns.len(),
{
    if ns.len() > 0 {
        let p = ns.drop_last();
        lemma_node_removal_keeps_exactly_the_others(p, id);
        let r = nodes_after_removal(p, id);
        let x = ns.last();
        assert(x == ns[ns.len() - 1]);
        let out = nodes_after_removal(ns, id);
        assert forall|i: int| 0 <= i < r.len() implies ns.contains(#[trigger] r[i]) by {
            let j = choose|j: int| 0 <= j < p.len() && p[j] == r[i];
            assert(ns[j] == p[j]);
        }
        assert forall|i: int|
            0 <= i < ns.len() && (#[trigger] ns[i]).node_id@ != id && ns[i].parent_id@ != id implies out.contains(
                ns[i],
            ) by {
            if i < p.len() {
                assert(p[i] == ns[i]);
                assert(r.contains(p[i]));
                let k = choose|k: int| 0 <= k < r.len() && r[k] == p[i];
                if x.node_id@ != id && x.parent_id@ != id {
                    assert(out[k] == r[k]);
                }
            } else {
                assert(out[out.len() - 1] == x);
            }
        }
        if forall|i: int| 0 <= i < ns.len() ==> (#[trigger] ns[i]).node_id@ != id && ns[i].parent_id@ != id {
            assert forall|i: int| 0 <= i < p.len() implies (#[trigger] p[i]).node_id@ != id && p[i].parent_id@ != id by {
                assert(p[i] == ns[i]);
            }
            assert(ns =~= p.push(x));
        }
    }
}

/// Removing folder `id` keeps exactly the folders that are neither `id`
/// itself nor directly under it: none that remain has `id` as its id or
/// parent, every one with neither remains, and nothing else appears.
pub proof fn lemma_folder_removal_keeps_exactly_the_others(fs: Seq<FolderRow>, id: Seq<char>)
    ensures
        forall|i: int|
            0 <= i < folders_after_removal(fs, id).len() ==> (#[trigger] folders_after_removal(fs, id)[i]).node_id@
                != id && folders_after_removal(fs, id)[i].parent_id@ != id,
        forall|i: int|
            0 <= i < fs.len() && (#[trigger] fs[i]).node_id@ != id && fs[i].parent_id@ != id
                ==> folders_after_removal(fs, id).contains(fs[i]),
        forall|i: int|
            0 <= i < folders_after_removal(fs, id).len() ==> fs.contains(
                #[trigger] folders_after_removal(fs, id)[i],
            ),
    decreases fs.len(),
{
    if fs.len() > 0 {
        let p = fs.drop_last();
        lemma_folder_removal_keeps_exactly_the_others(p, id);
        let r = folders_after_removal(p, id);
        let x = fs.last();
        assert(x == fs[fs.len() - 1]);
        let out = folders_after_removal(fs, id);
        assert forall|i: int| 0 <= i < r.len() implies fs.contains(#[trigger] r[i]) by {
            let j = choose|j: int| 0 <= j < p.len() && p[j] == r[i];
            assert(fs[j] == p[j]);
        }
        assert forall|i: int|
            0 <= i < fs.len() && (#[trigger] fs[i]).node_id@ != id && fs[i].parent_id@ != id implies out.contains(
                fs[i],
            ) by {
            if i < p.len() {
                assert(p[i] == fs[i]);
                assert(r.contains(p[i]));
                let k = choose|k: int| 0 <= k < r.len() && r[k] == p[i];
                if x.node_id@ != id && x.parent_id@ != id {
                    assert(out[k] == r[k]);
                }
            } else {
                assert(out[out.len() - 1] == x);
            }
        }
    }
}

/// The changes asked of a variable; `None` leaves the field as it is.
pub struct NodeUpdate<D, S> {
    pub display_name: Option<String>,
    pub data_type: Option<D>,
    pub writable: Option<bool>,
    pub simulation: Option<S>,
}

/// Variable `e` with the changes `u` made.
pub open spec fn updated_entry<D, S>(e: NodeEntry<D, S>, u: NodeUpdate<D, S>) -> NodeEntry<D, S> {
    NodeEntry {
        node_id: e.node_id,
        display_name: match u.display_name {
            Some(v) => v,
            None => e.display_name,
        },
        parent_id: e.parent_id,
        data_type: match u.data_type {
            Some(v) => v,
            None => e.data_type,
        },
        writable: match u.writable {
            Some(v) => v,
            None => e.writable,
        },
        simulation: match u.simulation {
            Some(v) => v,
            None => e.simulation,
        },
    }
}

/// The message when no variable has id `node_id`.
pub open spec fn msg_node_not_found(node_id: Seq<char>) -> Seq<char> {
    "节点 "@ + node_id + " 未找到"@
}

/// Applies the changes `u` to the first variable of `nodes` with id
/// `node_id` and returns its position; when there is none, the list is
/// left as it is and the error names the id.
pub fn update_node_entry<D, S>(nodes: &mut Vec<NodeEntry<D, S>>, node_id: &str, u: NodeUpdate<D, S>) -> (r:
    Result<usize, String>)
    ensures
        match r {
            Ok(i) => {
                &&& i < old(nodes)@.len()
                &&& old(nodes)@[i as int].node_id@ == node_id@
                &&& forall|j: int| 0 <= j < i ==> #[trigger] old(nodes)@[j].node_id@ != node_id@
                &&& final(nodes)@ == old(nodes)@.update(i as int, updated_entry(old(nodes)@[i as int], u))
            },
            Err(e) => {
                &&& e@ == msg_node_not_found(node_id@)
                &&& forall|j: int| 0 <= j < old(nodes)@.len() ==> #[trigger] old(nodes)@[j].node_id@ != node_id@
                &&& final(nodes)@ == old(nodes)@
            },
        },
{
    let mut i: usize = 0;
    while i < nodes.len()
        invariant
            i <= nodes@.len(),
            nodes@ == old(nodes)@,
            forall|j: int| 0 <= j < i ==> #[trigger] old(nodes)@[j].node_id@ != node_id@,
        decreases nodes@.len() - i,
    {
        if text::str_eq(nodes[i].node_id.as_str(), node_id) {
            let mut e = nodes.remove(i);
            match u.display_name {
                Some(v) => e.display_name = v,
                None => {},
            }
            match u.data_type {
                Some(v) => e.data_type = v,
                None => {},
            }
            match u.writable {
                Some(v) => e.writable = v,
                None => {},
            }
            match u.simulation {
                Some(v) => e.simulation = v,
                None => {},
            }
            nodes.insert(i, e);
            assert(nodes@ =~= old(nodes)@.update(i as int, updated_entry(old(nodes)@[i as int], u)));
            return Ok(i);
        }
        i = i + 1;
    }
    let mut msg: Vec<char> = Vec::new();
    text::push_str_chars(&mut msg, "节点 ");
    text::push_str_chars(&mut msg, node_id);
    text::push_str_chars(&mut msg, " 未找到");
    Err(text::string_from_chars(&msg))
}

/// The map of latest values after applying `changed` in order.
pub open spec fn values_after(m: Map<Seq<char>, String>, changed: Seq<(String, String)>) -> Map<
    Seq<char>,
    String,
>
    decreases changed.len(),
{
    if changed.len() == 0 {
        m
    } else {
        values_after(m, changed.drop_last()).insert(changed.last().0@, changed.last().1)
    }
}

/// Records the latest simulated value of each node in `changed`; later
/// entries win.
pub fn apply_sim_values(values: &mut ConnMap<String>, changed: Vec<(String, String)>)
    requires
        old(values).wf(),
    ensures
        final(values).wf(),
        final(values)@ == values_after(old(values)@, changed@),
{
    let ghost start = changed@;
    let mut rest = changed;
    let n = rest.len();
    let mut i: usize = 0;
    while i < n
        invariant
            values.wf(),
            start.len() == n,
            i <= n,
            rest@ == start.skip(i as int),
            values@ == values_after(old(values)@, start.take(i as int)),
        decreases n - i,
    {
        let (k, v) = rest.remove(0);
        assert(start.skip(i as int)[0] == start[i as int]);
        assert(start.skip(i as int).remove(0) == start.skip(i + 1));
        assert(start.take(i + 1).drop_last() == start.take(i as int));
        values.insert(k, v);
        i = i + 1;
    }
    assert(start.take(n as int) == start);
}

/// The value shown for node `node_id`: its latest simulated value, else the
/// value stored with the node, else `—`.
pub fn displayed_value(values: &ConnMap<String>, node_id: &str, stored: &Option<String>) -> (r: String)
    requires
        values.wf(),
    ensures
        values@.contains_key(node_id@) ==> r@ == values@[node_id@]@,
        !values@.contains_key(node_id@) && stored is Some ==> r@ == stored->0@,
        !values@.contains_key(node_id@) && stored is None ==> r@ == "—"@,
{
    match values.get(node_id) {
        Some(v) => v.clone(),
        None => match stored {
            Some(s) => s.clone(),
            None => String::from_str("—"),
        },
    }
}

} // verus!

verus! {

/// Position of the last pair of `changed` for node `k`, or `-1` when there is none.
pub open spec fn last_index_for(changed: Seq<(String, String)>, k: Seq<char>) -> int
    decreases changed.len(),
{
    if changed.len() == 0 {
        -1
    } else if changed.last().0@ == k {
        changed.len() - 1
    } else {
        last_index_for(changed.drop_last(), k)
    }
}

/// After applying simulated values, a node shows the last value received for
/// it, and a node that received none keeps its earlier value.
pub proof fn lemma_latest_value_wins(m: Map<Seq<char>, String>, changed: Seq<(String, String)>, k: Seq<char>)
    ensures
        last_index_for(changed, k) >= 0 ==> {
            let j = last_index_for(changed, k);
            &&& j < changed.len()
            &&& changed[j].0@ == k
            &&& forall|j2: int| j < j2 < changed.len() ==> #[trigger] changed[j2].0@ != k
            &&& values_after(m, changed).contains_key(k)
            &&& values_after(m, changed)[k] == changed[j].1
        },
        last_index_for(changed, k) < 0 ==> {
            &&& forall|j: int| 0 <= j < changed.len() ==> #[trigger] changed[j].0@ != k
            &&& values_after(m, changed).contains_key(k) == m.contains_key(k)
            &&& m.contains_key(k) ==> values_after(m, changed)[k] == m[k]
        },
    decreases changed.len(),
{
    if changed.len() > 0 {
        let p = changed.drop_last();
        let n = changed.len() - 1;
        let e = changed.last();
        lemma_latest_value_wins(m, p, k);
        assert forall|j: int| 0 <= j < p.len() implies #[trigger] p[j] == changed[j] by {}
        assert(values_after(m, changed) == values_after(m, p).insert(e.0@, e.1));
        if e.0@ == k {
            assert(last_index_for(changed, k) == n);
            assert(changed[n] == e);
        } else {
            assert(last_index_for(changed, k) == last_index_for(p, k));
            assert(changed[n] == e);
            if last_index_for(p, k) >= 0 {
                let j = last_index_for(p, k);
                assert(changed[j] == p[j]);
                assert forall|j2: int| j < j2 < changed.len() implies #[trigger] changed[j2].0@ != k by {
                    if j2 < n {
                        assert(changed[j2] == p[j2]);
                    }
                }
            } else {
                assert forall|j: int| 0 <= j < changed.len() implies #[trigger] changed[j].0@ != k by {
                    if j < n {
                        assert(changed[j] == p[j]);
                    }
                }
            }
        }
    }
}

/// What the server backend reports to its front end (the address space and
/// the configuration, which carry the simulation settings, are handled
/// outside the library).
pub enum ServerEvent {
    Status(ServerStatus),
    SimValues { seq: u64, values: Vec<(String, String)> },
    Toast { level: ToastLevel, message: String },
}

/// State of the server front end that the library keeps.
pub struct ServerModel {
    pub status: ServerStatus,
    pub selected_node_id: Option<String>,
    /// Latest simulated value per node id.
    pub current_values: ConnMap<String>,
    pub last_sim_seq: u64,
    pub new_folder_name: String,
    pub toasts: Vec<Toast>,
}

impl ServerModel {
    /// Well-formed: node ids of the latest values are distinct.
    pub open spec fn wf(&self) -> bool {
        self.current_values.wf()
    }

    /// The state before the backend first reports.
    pub fn new() -> (r: Self)
        ensures
            r.wf(),
            r.status.state@ == "Stopped"@,
            r.status.node_count == 0,
            r.status.folder_count == 0,
            r.status.endpoint_url@ == "opc.tcp://0.0.0.0:4840"@,
            r.selected_node_id is None,
            r.current_values@ == Map::<Seq<char>, String>::empty(),
            r.last_sim_seq == 0,
            r.new_folder_name@.len() == 0,
            r.toasts@.len() == 0,
    {
        ServerModel {
            status: initial_server_status(),
            selected_node_id: None,
            current_values: ConnMap::new(),
            last_sim_seq: 0,
            new_folder_name: String::new(),
            toasts: Vec::new(),
        }
    }

    /// Takes in one backend event at monotonic time `now_ms`: a status
    /// replaces the shown one, simulated values update the latest value of
    /// their nodes (later ones winning) and record the sequence number, and a
    /// toast is queued.
    pub fn apply_event(&mut self, ev: ServerEvent, now_ms: u64)
        requires
            old(self).wf(),
        ensures
            final(self).wf(),
            match ev {
                ServerEvent::Status(st) => *final(self) == (ServerModel { status: st, ..*old(self) }),
                ServerEvent::SimValues { seq, values } => {
                    &&& final(self).current_values@ == values_after(old(self).current_values@, values@)
                    &&& final(self).last_sim_seq == seq
                    &&& final(self).status == old(self).status
                    &&& final(self).selected_node_id == old(self).selected_node_id
                    &&& final(self).new_folder_name == old(self).new_folder_name
                    &&& final(self).toasts == old(self).toasts
                },
                ServerEvent::Toast { level, message } => {
                    &&& final(self).toasts@ == old(self).toasts@.push(
                        (Toast { level, message, created_at: now_ms }),
                    )
                    &&& *final(self) == (ServerModel { toasts: final(self).toasts, ..*old(self) })
                },
            },
    {
        match ev {
            ServerEvent::Status(st) => {
                self.status = st;
            },
            ServerEvent::SimValues { seq, values } => {
                apply_sim_values(&mut self.current_values, values);
                self.last_sim_seq = seq;
            },
            ServerEvent::Toast { level, message } => {
                push_toast(&mut self.toasts, level, message, now_ms);
            },
        }
    }
}

} // verus!
