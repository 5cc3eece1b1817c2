//! Node groups of the master: named sets of node ids kept in insertion order.

use vstd::prelude::*;

use crate::ids;
use crate::master_app;
use crate::master_events;

verus! {

/// A named group of node ids.
#[derive(Debug, Clone)]
pub struct NodeGroup {
    pub id: String,
    pub name: String,
    pub node_ids: Vec<String>,
}

/// The characters of each string of `s`.
pub open spec fn texts(s: Seq<String>) -> Seq<Seq<char>> {
    s.map_values(|x: String| x@)
}

/// `cur` followed by those texts of `new` not already present (earlier ones
/// of `new` included), in order.
pub open spec fn add_missing(cur: Seq<Seq<char>>, new: Seq<Seq<char>>) -> Seq<Seq<char>>
    decreases new.len(),
{
    if new.len() == 0 {
        cur
    } else {
        let c = add_missing(cur, new.drop_last());
        if c.contains(new.last()) {
            c
        } else {
            c.push(new.last())
        }
    }
}

/// `cur` without the texts that occur in `gone`.
pub open spec fn without(cur: Seq<Seq<char>>, gone: Seq<Seq<char>>) -> Seq<Seq<char>>
    decreases cur.len(),
{
    if cur.len() == 0 {
        cur
    } else {
        let rest = without(cur.drop_last(), gone);
        if gone.contains(cur.last()) {
            rest
        } else {
            rest.push(cur.last())
        }
    }
}

/// The groups of `gs` whose id is not `id`, in order.
pub open spec fn groups_without_id(gs: Seq<NodeGroup>, id: Seq<char>) -> Seq<NodeGroup>
    decreases gs.len(),
{
    if gs.len() == 0 {
        gs
    } else {
        let rest = groups_without_id(gs.drop_last(), id);
        if gs.last().id@ == id {
            rest
        } else {
            rest.push(gs.last())
        }
    }
}

/// `i` is the first group of `gs` with id `id`.
pub open spec fn first_with_id(gs: Seq<NodeGroup>, id: Seq<char>, i: int) -> bool {
    &&& 0 <= i < gs.len()
    &&& gs[i].id@ == id
    &&& forall|j: int| 0 <= j < i ==> gs[j].id@ != id
}

/// Some group of `gs` has id `id`.
pub open spec fn has_group(gs: Seq<NodeGroup>, id: Seq<char>) -> bool {
    exists|j: int| 0 <= j < gs.len() && gs[j].id@ == id
}

/// Message when no group has the requested id.
pub open spec fn msg_group_not_found() -> Seq<char> {
    "Group not found"@
}

/// Whether `v` holds a string with the characters of `x`.
pub fn contains_text(v: &Vec<String>, x: &String) -> (r: bool)
    ensures
        r == texts(v@).contains(x@),
{
    let mut i: usize = 0;
    while i < v.len()
        invariant
            i <= v.len(),
            forall|j: int| 0 <= j < i ==> v@[j]@ != x@,
        decreases v.len() - i,
    {
        if v[i] == *x {
            assert(texts(v@)[i as int] == x@);
            return true;
        }
        i = i + 1;
    }
    assert forall|j: int| 0 <= j < texts(v@).len() implies texts(v@)[j] != x@ by {}
    false
}

/// A copy of `v`, string by string.
pub fn clone_texts(v: &Vec<String>) -> (r: Vec<String>)
    ensures
        texts(r@) == texts(v@),
{
    let mut out: Vec<String> = Vec::new();
    let mut i: usize = 0;
    while i < v.len()
        invariant
            i <= v.len(),
            texts(out@) == texts(v@.take(i as int)),
        decreases v.len() - i,
    {
        out.push(v[i].clone());
        assert(texts(v@.take(i + 1)) == texts(v@.take(i as int)).push(v@[i as int]@));
        i = i + 1;
    }
    assert(v@.take(v.len() as int) == v@);
    out
}

/// The position of the first group with id `id`.
fn find_group(groups: &Vec<NodeGroup>, id: &str) -> (r: Option<usize>)
    ensures
        match r {
            Some(i) => first_with_id(groups@, id@, i as int),
            None => !has_group(groups@, id@),
        },
{
    let k = String::from_str(id);
    let mut i: usize = 0;
    while i < groups.len()
        invariant
            i <= groups.len(),
            k@ == id@,
            forall|j: int| 0 <= j < i ==> groups@[j].id@ != id@,
        decreases groups.len() - i,
    {
        if groups[i].id == k {
            return Some(i);
        }
        i = i + 1;
    }
    None
}

/// Appends to `g` the ids of `node_ids` it does not hold yet.
fn add_ids(g: &mut NodeGroup, node_ids: Vec<String>)
    ensures
        final(g).id == old(g).id,
        final(g).name == old(g).name,
        texts(final(g).node_ids@) == add_missing(texts(old(g).node_ids@), texts(node_ids@)),
{
    let ghost start = texts(g.node_ids@);
    let mut i: usize = 0;
    while i < node_ids.len()
        invariant
            i <= node_ids.len(),
            g.id == old(g).id,
            g.name == old(g).name,
            texts(g.node_ids@) == add_missing(start, texts(node_ids@.take(i as int))),
        decreases node_ids.len() - i,
    {
        let nid = &node_ids[i];
        assert(texts(node_ids@.take(i + 1)).drop_last() == texts(node_ids@.take(i as int)));
        assert(texts(node_ids@.take(i + 1)).last() == nid@);
        if !contains_text(&g.node_ids, nid) {
            g.node_ids.push(nid.clone());
            assert(texts(g.node_ids@) == add_missing(start, texts(node_ids@.take(i as int))).push(
                nid@,
            ));
        }
        i = i + 1;
    }
    assert(node_ids@.take(node_ids.len() as int) == node_ids@);
}

/// Adds to the first group with id `group_id` every id of `node_ids` it does
/// not hold yet, in order; fails when no group has that id.
pub fn add_nodes_to_group(groups: &mut Vec<NodeGroup>, group_id: &str, node_ids: Vec<String>) -> (r:
    Result<(), String>)
    ensures
        r is Err <==> !has_group(old(groups)@, group_id@),
        r matches Err(e) ==> e@ == msg_group_not_found() && final(groups)@ == old(groups)@,
        r is Ok ==> exists|i: int|
            {
                &&& first_with_id(old(groups)@, group_id@, i)
                &&& final(groups)@.len() == old(groups)@.len()
                &&& forall|j: int|
                    0 <= j < old(groups)@.len() && j != i ==> #[trigger] final(groups)@[j]
                        == old(groups)@[j]
                &&& final(groups)@[i].id == old(groups)@[i].id
                &&& final(groups)@[i].name == old(groups)@[i].name
                &&& texts(final(groups)@[i].node_ids@) == add_missing(
                    texts(old(groups)@[i].node_ids@),
                    texts(node_ids@),
                )
            },
{
    match find_group(groups, group_id) {
        None => Err(String::from_str("Group not found")),
        Some(i) => {
            add_ids(&mut groups[i], node_ids);
            assert(first_with_id(old(groups)@, group_id@, i as int));
            Ok(())
        },
    }
}

/// Removes from `g` every id that occurs in `node_ids`.
fn remove_ids(g: &mut NodeGroup, node_ids: &Vec<String>)
    ensures
        final(g).id == old(g).id,
        final(g).name == old(g).name,
        texts(final(g).node_ids@) == without(texts(old(g).node_ids@), texts(node_ids@)),
{
    let ghost start = g.node_ids@;
    let mut kept: Vec<String> = Vec::new();
    let mut i: usize = 0;
    while i < g.node_ids.len()
        invariant
            i <= g.node_ids.len(),
            g.node_ids@ == start,
            g.id == old(g).id,
            g.name == old(g).name,
            start == old(g).node_ids@,
            texts(kept@) == without(texts(start.take(i as int)), texts(node_ids@)),
        decreases g.node_ids.len() - i,
    {
        let x = &g.node_ids[i];
        let gone = contains_text(node_ids, x);
        assert(texts(start.take(i + 1)) == texts(start.take(i as int)).push(x@));
        assert(texts(start.take(i + 1)).drop_last() == texts(start.take(i as int)));
        assert(texts(start.take(i + 1)).last() == x@);
        let ghost before = kept@;
        if !gone {
            let y = x.clone();
            kept.push(y);
            assert(texts(kept@) == texts(before).push(x@));
        }
        i = i + 1;
    }
    assert(start.take(start.len() as int) == start);
    g.node_ids = kept;
}

/// Removes the ids of `node_ids` from the first group with id `group_id`;
/// fails when no group has that id.
pub fn remove_nodes_from_group(groups: &mut Vec<NodeGroup>, group_id: &str, node_ids: Vec<String>) -> (r:
    Result<(), String>)
    ensures
        r is Err <==> !has_group(old(groups)@, group_id@),
        r matches Err(e) ==> e@ == msg_group_not_found() && final(groups)@ == old(groups)@,
        r is Ok ==> exists|i: int|
            {
                &&& first_with_id(old(groups)@, group_id@, i)
                &&& final(groups)@.len() == old(groups)@.len()
                &&& forall|j: int|
                    0 <= j < old(groups)@.len() && j != i ==> #[trigger] final(groups)@[j]
                        == old(groups)@[j]
                &&& final(groups)@[i].id == old(groups)@[i].id
                &&& final(groups)@[i].name == old(groups)@[i].name
                &&& texts(final(groups)@[i].node_ids@) == without(
                    texts(old(groups)@[i].node_ids@),
                    texts(node_ids@),
                )
            },
{
    match find_group(groups, group_id) {
        None => Err(String::from_str("Group not found")),
        Some(i) => {
            remove_ids(&mut groups[i], &node_ids);
            assert(first_with_id(old(groups)@, group_id@, i as int));
            Ok(())
        },
    }
}

/// Removes every group whose id is `id`.
pub fn delete_group(groups: &mut Vec<NodeGroup>, id: &str)
    ensures
        final(groups)@ == groups_without_id(old(groups)@, id@),
{
    let ghost start = groups@;
    let k = String::from_str(id);
    let mut kept: Vec<NodeGroup> = Vec::new();
    let mut rest: Vec<NodeGroup> = Vec::new();
    std::mem::swap(&mut rest, groups);
    assert(rest@ == start);
    let mut i: usize = 0;
    let n = rest.len();
    while i < n
        invariant
            start.len() == n,
            i <= n,
            rest@ == start.skip(i as int),
            k@ == id@,
            kept@ == groups_without_id(start.take(i as int), id@),
        decreases n - i,
    {
        let g = rest.remove(0);
        assert(start.skip(i as int)[0] == start[i as int]);
        assert(start.skip(i as int).remove(0) == start.skip(i + 1));
        assert(start.take(i + 1) == start.take(i as int).push(g));
        assert(start.take(i + 1).drop_last() == start.take(i as int));
        if g.id != k {
            kept.push(g);
        }
        i = i + 1;
    }
    assert(start.take(n as int) == start);
    *groups = kept;
}

/// Adds an empty group named `name` under a fresh random id and reports it.
pub fn create_group(groups: &mut Vec<NodeGroup>, name: String) -> (r: master_app::NodeGroupDto)
    ensures
        final(groups)@.len() == old(groups)@.len() + 1,
        final(groups)@.take(old(groups)@.len() as int) == old(groups)@,
        final(groups)@.last().name == name,
        final(groups)@.last().node_ids@.len() == 0,
        ids::is_uuid_v4_text(final(groups)@.last().id@),
        r.id@ == final(groups)@.last().id@,
        r.name == name,
        r.node_count == 0,
{
    let id = ids::new_uuid_string();
    let group = NodeGroup { id: id.clone(), name: name.clone(), node_ids: Vec::new() };
    groups.push(group);
    assert(groups@.take(old(groups)@.len() as int) == old(groups)@);
    master_app::NodeGroupDto { id, name, node_count: 0 }
}

/// Each group with its id, name and number of nodes, in order.
pub fn list_groups(groups: &Vec<NodeGroup>) -> (r: Vec<master_app::NodeGroupDto>)
    ensures
        r@.len() == groups@.len(),
        forall|i: int|
            0 <= i < groups@.len() ==> {
                &&& (#[trigger] r@[i]).id@ == groups@[i].id@
                &&& r@[i].name@ == groups@[i].name@
                &&& r@[i].node_count == groups@[i].node_ids@.len()
            },
{
    let mut out: Vec<master_app::NodeGroupDto> = Vec::new();
    let mut i: usize = 0;
    while i < groups.len()
        invariant
            i <= groups.len(),
            out@.len() == i,
            forall|j: int|
                0 <= j < i ==> {
                    &&& (#[trigger] out@[j]).id@ == groups@[j].id@
                    &&& out@[j].name@ == groups@[j].name@
                    &&& out@[j].node_count == groups@[j].node_ids@.len()
                },
        decreases groups.len() - i,
    {
        let g = &groups[i];
        out.push(
            master_app::NodeGroupDto {
                id: g.id.clone(),
                name: g.name.clone(),
                node_count: g.node_ids.len(),
            },
        );
        i = i + 1;
    }
    out
}

/// The group as the master front end lists it: id, name and node ids.
pub fn group_to_dto(g: &NodeGroup) -> (r: master_events::NodeGroupDto)
    ensures
        r.id@ == g.id@,
        r.name@ == g.name@,
        texts(r.node_ids@) == texts(g.node_ids@),
{
    master_events::NodeGroupDto {
        id: g.id.clone(),
        name: g.name.clone(),
        node_ids: clone_texts(&g.node_ids),
    }
}

} // verus!

verus! {

/// Adding ids to a group: an id is in the result exactly when it was in the
/// group or among the added ids; a group without repeats stays without
/// repeats; and the group's earlier ids keep their places.
pub proof fn lemma_add_missing_members(cur: Seq<Seq<char>>, new: Seq<Seq<char>>)
    ensures
        forall|x: Seq<char>| #[trigger] add_missing(cur, new).contains(x) <==> cur.contains(x) || new.contains(x),
        cur.no_duplicates() ==> add_missing(cur, new).no_duplicates(),
        add_missing(cur, new).len() >= cur.len(),
        forall|i: int| 0 <= i < cur.len() ==> #[trigger] add_missing(cur, new)[i] == cur[i],
    decreases new.len(),
{
    if new.len() > 0 {
        let np = new.drop_last();
        lemma_add_missing_members(cur, np);
        let c = add_missing(cur, np);
        let x = new.last();
        assert forall|y: Seq<char>| #[trigger] add_missing(cur, new).contains(y) <==> cur.contains(y)
            || new.contains(y) by {
            if np.contains(y) {
                let i = choose|i: int| 0 <= i < np.len() && np[i] == y;
                assert(new[i] == y);
            }
            if new.contains(y) {
                let i = choose|i: int| 0 <= i < new.len() && new[i] == y;
                if i < np.len() {
                    assert(np[i] == y);
                } else {
                    assert(y == x);
                }
            }
            if !c.contains(x) {
                let r = c.push(x);
                if r.contains(y) {
                    let i = choose|i: int| 0 <= i < r.len() && r[i] == y;
                    if i < c.len() {
                        assert(c[i] == y);
                    }
                }
                if c.contains(y) {
                    let i = choose|i: int| 0 <= i < c.len() && c[i] == y;
                    assert(r[i] == y);
                }
                if y == x {
                    assert(r[c.len() as int] == y);
                }
            }
        }
        if !c.contains(x) {
            let r = c.push(x);
            assert(forall|i: int| 0 <= i < cur.len() ==> r[i] == c[i]);
            if cur.no_duplicates() {
                assert forall|i: int, j: int| 0 <= i < r.len() && 0 <= j < r.len() && i != j implies r[i]
                    != r[j] by {
                    if i == c.len() {
                        assert(r[j] == c[j]);
                    } else if j == c.len() {
                        assert(r[i] == c[i]);
                    } else {
                        assert(r[i] == c[i] && r[j] == c[j]);
                    }
                }
            }
        }
    }
}

/// Adding ids twice is the same as adding them once.
pub proof fn lemma_add_missing_idempotent(cur: Seq<Seq<char>>, new: Seq<Seq<char>>)
    ensures
        add_missing(add_missing(cur, new), new) == add_missing(cur, new),
{
    lemma_add_missing_members(cur, new);
    lemma_add_none_missing(add_missing(cur, new), new);
}

/// Adding ids that are all present already changes nothing.
proof fn lemma_add_none_missing(cur: Seq<Seq<char>>, new: Seq<Seq<char>>)
    requires
        forall|x: Seq<char>| new.contains(x) ==> cur.contains(x),
    ensures
        add_missing(cur, new) == cur,
    decreases new.len(),
{
    if new.len() > 0 {
        let np = new.drop_last();
        assert forall|x: Seq<char>| np.contains(x) implies cur.contains(x) by {
            let i = choose|i: int| 0 <= i < np.len() && np[i] == x;
            assert(new[i] == x);
        }
        lemma_add_none_missing(cur, np);
        assert(new[new.len() - 1] == new.last());
        assert(new.contains(new.last()));
    }
}

/// Removing ids from a group: an id stays exactly when it was in the group
/// and is not among the removed ones.
pub proof fn lemma_without_members(cur: Seq<Seq<char>>, gone: Seq<Seq<char>>)
    ensures
        forall|x: Seq<char>| #[trigger] without(cur, gone).contains(x) <==> cur.contains(x) && !gone.contains(x),
        cur.no_duplicates() ==> without(cur, gone).no_duplicates(),
    decreases cur.len(),
{
    if cur.len() > 0 {
        let cp = cur.drop_last();
        lemma_without_members(cp, gone);
        let rest = without(cp, gone);
        let x = cur.last();
        assert forall|y: Seq<char>| #[trigger] without(cur, gone).contains(y) <==> cur.contains(y)
            && !gone.contains(y) by {
            if cp.contains(y) {
                let i = choose|i: int| 0 <= i < cp.len() && cp[i] == y;
                assert(cur[i] == y);
            }
            if cur.contains(y) {
                let i = choose|i: int| 0 <= i < cur.len() && cur[i] == y;
                if i < cp.len() {
                    assert(cp[i] == y);
                }
            }
            if !gone.contains(x) {
                let r = rest.push(x);
                if r.contains(y) {
                    let i = choose|i: int| 0 <= i < r.len() && r[i] == y;
                    if i < rest.len() {
                        assert(rest[i] == y);
                    }
                }
                if rest.contains(y) {
                    let i = choose|i: int| 0 <= i < rest.len() && rest[i] == y;
                    assert(r[i] == y);
                }
                if y == x {
                    assert(r[rest.len() as int] == y);
                }
            }
        }
        if cur.no_duplicates() {
            assert(cp.no_duplicates()) by {
                assert forall|i: int, j: int| 0 <= i < cp.len() && 0 <= j < cp.len() && i != j implies cp[i]
                    != cp[j] by {
                    assert(cp[i] == cur[i] && cp[j] == cur[j]);
                }
            }
            if !gone.contains(x) {
                let r = rest.push(x);
                assert(!rest.contains(x)) by {
                    if rest.contains(x) {
                        let i = choose|i: int| 0 <= i < cp.len() && cp[i] == x;
                        assert(cur[i] == x);
                        assert(cur[cur.len() - 1] == x);
                    }
                }
                assert forall|i: int, j: int| 0 <= i < r.len() && 0 <= j < r.len() && i != j implies r[i]
                    != r[j] by {
                    if i == rest.len() {
                        assert(r[j] == rest[j]);
                    } else if j == rest.len() {
                        assert(r[i] == rest[i]);
                    } else {
                        assert(r[i] == rest[i] && r[j] == rest[j]);
                    }
                }
            }
        }
    }
}

} // verus!
