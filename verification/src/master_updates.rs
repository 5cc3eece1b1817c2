//! How the master front end takes in backend events about connections and
//! node attributes, and the value panel's read/write bookkeeping.

use vstd::prelude::*;

use crate::master_events::{ConnectionInfo, NodeAttrsDto};
use crate::master_model::ValuePanelState;
use crate::panels;
use crate::text;

verus! {

/// Some connection of `list` has id `id`.
pub open spec fn lists_id(list: Seq<ConnectionInfo>, id: Seq<char>) -> bool {
    exists|i: int| 0 <= i < list.len() && list[i].id@ == id
}

/// The selected connection, kept only while `list` still has it.
pub open spec fn kept_selection(selected: Option<String>, list: Seq<ConnectionInfo>) -> Option<String> {
    match selected {
        Some(s) => if lists_id(list, s@) {
            selected
        } else {
            None
        },
        None => None,
    }
}

/// The selection kept when a new connection list arrives: dropped when the
/// selected connection is no longer listed.
pub fn keep_selected_conn(selected: Option<String>, list: &Vec<ConnectionInfo>) -> (r: Option<
    String,
>)
    ensures
        r == kept_selection(selected, list@),
{
    match selected {
        None => None,
        Some(sel) => {
            let mut i: usize = 0;
            while i < list.len()
                invariant
                    i <= list.len(),
                    selected == Some(sel),
                    forall|j: int| 0 <= j < i ==> list@[j].id@ != sel@,
                decreases list.len() - i,
            {
                if list[i].id == sel {
                    return Some(sel);
                }
                i = i + 1;
            }
            None
        },
    }
}

/// `new` is the list `old` after the first connection with id `id` took state `state` (unchanged when none has it).
pub open spec fn connection_state_set(old: Seq<ConnectionInfo>, new: Seq<ConnectionInfo>, id: Seq<char>, state: String) -> bool {
    &&& new.len() == old.len()
    &&& !lists_id(old, id) ==> new == old
    &&& lists_id(old, id) ==> exists|i: int|
        {
            &&& 0 <= i < old.len()
            &&& old[i].id@ == id
            &&& forall|j: int| 0 <= j < i ==> old[j].id@ != id
            &&& new == old.update(
                i,
                ConnectionInfo { state: state, ..old[i] },
            )
        }
}

/// Sets the state of the first listed connection with id `id`, if any.
pub fn set_connection_state(conns: &mut Vec<ConnectionInfo>, id: &str, state: String)
    ensures
        connection_state_set(old(conns)@, final(conns)@, id@, state),
{
    let k = String::from_str(id);
    let mut i: usize = 0;
    while i < conns.len()
        invariant
            i <= conns.len(),
            conns@ == old(conns)@,
            k@ == id@,
            forall|j: int| 0 <= j < i ==> old(conns)@[j].id@ != id@,
        decreases conns.len() - i,
    {
        if conns[i].id == k {
            let ghost before = conns@;
            conns[i].state = state;
            assert(conns@ == before.update(i as int, ConnectionInfo { state: conns@[i as int].state, ..before[i as int] }));
            return;
        }
        i = i + 1;
    }
}

/// Records that read request `req_id` was sent and clears the last write result.
pub fn begin_read(vp: &mut ValuePanelState, req_id: u64)
    ensures
        final(vp).pending_read_req == Some(req_id),
        final(vp).last_result is None,
        final(vp).attrs == old(vp).attrs,
        final(vp).pending_write_req == old(vp).pending_write_req,
        final(vp).write_value == old(vp).write_value,
{
    vp.pending_read_req = Some(req_id);
    vp.last_result = None;
}

/// Records that write request `req_id` was sent.
pub fn begin_write(vp: &mut ValuePanelState, req_id: u64)
    ensures
        final(vp).pending_write_req == Some(req_id),
        final(vp).pending_read_req == old(vp).pending_read_req,
        final(vp).attrs == old(vp).attrs,
        final(vp).write_value == old(vp).write_value,
        final(vp).last_result == old(vp).last_result,
{
    vp.pending_write_req = Some(req_id);
}

/// `new` is the value panel `old` after taking in attributes read for request `req_id`.
pub open spec fn node_attrs_applied(old: ValuePanelState, new: ValuePanelState, req_id: u64, attrs: NodeAttrsDto) -> bool {
    &&& new.attrs == Some(attrs)
    &&& old.pending_read_req == Some(req_id) ==> new.pending_read_req is None
    &&& old.pending_read_req != Some(req_id) ==> new.pending_read_req == old.pending_read_req
    &&& new.pending_write_req == old.pending_write_req
    &&& new.write_value == old.write_value
    &&& new.last_result == old.last_result
}

/// Takes in attributes read for request `req_id`: they are shown in any
/// case, and the pending read is settled when it is that request.
pub fn apply_node_attrs(vp: &mut ValuePanelState, req_id: u64, attrs: NodeAttrsDto)
    ensures
        node_attrs_applied(*old(vp), *final(vp), req_id, attrs),
{
    if vp.pending_read_req == Some(req_id) {
        vp.pending_read_req = None;
    }
    vp.attrs = Some(attrs);
}

/// `new` is the value panel `old` after write request `req_id` succeeded.
pub open spec fn write_ok_applied(old: ValuePanelState, new: ValuePanelState, req_id: u64) -> bool {
    &&& old.pending_write_req == Some(req_id) ==> new.pending_write_req is None
    &&& old.pending_write_req != Some(req_id) ==> new.pending_write_req == old.pending_write_req
    &&& new.pending_read_req == old.pending_read_req
    &&& new.attrs == old.attrs
    &&& new.write_value == old.write_value
    &&& new.last_result == old.last_result
}

/// Settles the pending write when request `req_id` succeeded.
pub fn apply_write_ok(vp: &mut ValuePanelState, req_id: u64)
    ensures
        write_ok_applied(*old(vp), *final(vp), req_id),
{
    if vp.pending_write_req == Some(req_id) {
        vp.pending_write_req = None;
    }
}

/// Clears what the value panel showed for the previously focused row.
pub fn reset_for_new_focus(vp: &mut ValuePanelState)
    ensures
        final(vp).attrs is None,
        final(vp).write_value@.len() == 0,
        final(vp).last_result is None,
        final(vp).pending_read_req == old(vp).pending_read_req,
        final(vp).pending_write_req == old(vp).pending_write_req,
{
    vp.attrs = None;
    vp.write_value = String::new();
    vp.last_result = None;
}

/// A node may be written when its user access level has the write bit.
pub fn is_writable(user_access_level: u8) -> (r: bool)
    ensures
        r == (user_access_level & 0x02 != 0),
{
    user_access_level & 0x02 != 0
}

/// Whether the write button is enabled: a non-blank value that passes the
/// type check for `data_type`, and no write pending.
pub fn write_enabled(vp: &ValuePanelState, data_type: &str) -> (r: bool)
    ensures
        r == (!text::is_blank(vp.write_value@) && panels::write_value_problem(
            data_type@,
            vp.write_value@,
        ) is None && vp.pending_write_req is None),
{
    !text::is_blank_str(vp.write_value.as_str()) && panels::parse_check(
        data_type,
        vp.write_value.as_str(),
    ).is_none() && vp.pending_write_req.is_none()
}

} // verus!
