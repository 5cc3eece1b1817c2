//! Records exchanged with the server's command front end: status, address
//! space folders and polled simulation values.

use vstd::prelude::*;

use crate::server::FolderRow;

verus! {

/// Status of the embedded server.
pub struct ServerStatusDto {
    pub state: String,
    pub node_count: usize,
    pub folder_count: usize,
}

/// One folder of the address space.
pub struct ServerFolderDto {
    pub node_id: String,
    pub display_name: String,
    pub parent_id: String,
}

/// One simulated value.
pub struct SimValueDto {
    pub node_id: String,
    pub value: String,
}

/// The simulated values that changed since a sequence number, and the
/// current sequence number.
pub struct SimulationDataDto {
    pub values: Vec<SimValueDto>,
    pub seq: u64,
}

/// The reply to a poll for simulated values: the changed `(node, value)`
/// pairs in order with the engine's sequence number, or nothing at sequence 0
/// when the simulation engine is not running.
pub fn simulation_data(polled: Option<(Vec<(String, String)>, u64)>) -> (r: SimulationDataDto)
    ensures
        polled is None ==> r.values@.len() == 0 && r.seq == 0,
        polled matches Some(p) ==> {
            &&& r.seq == p.1
            &&& r.values@.len() == p.0@.len()
            &&& forall|i: int|
                0 <= i < p.0@.len() ==> (#[trigger] r.values@[i]).node_id == p.0@[i].0
                    && r.values@[i].value == p.0@[i].1
        },
{
    match polled {
        None => SimulationDataDto { values: Vec::new(), seq: 0 },
        Some((changed, seq)) => {
            let ghost start = changed@;
            let mut rest = changed;
            let n = rest.len();
            let mut out: Vec<SimValueDto> = Vec::new();
            let mut i: usize = 0;
            while i < n
                invariant
                    start.len() == n,
                    i <= n,
                    rest@ == start.skip(i as int),
                    out@.len() == i,
                    forall|j: int|
                        0 <= j < i ==> (#[trigger] out@[j]).node_id == start[j].0 && out@[j].value
                            == start[j].1,
                decreases n - i,
            {
                let (node_id, value) = rest.remove(0);
                assert(start.skip(i as int)[0] == start[i as int]);
                assert(start.skip(i as int).remove(0) == start.skip(i + 1));
                out.push(SimValueDto { node_id, value });
                i = i + 1;
            }
            SimulationDataDto { values: out, seq }
        },
    }
}

/// The folders as reported to the front end, in order.
pub fn folder_dtos(folders: &Vec<FolderRow>) -> (r: Vec<ServerFolderDto>)
    ensures
        r@.len() == folders@.len(),
        forall|i: int|
            0 <= i < folders@.len() ==> {
                &&& (#[trigger] r@[i]).node_id == folders@[i].node_id
                &&& r@[i].display_name == folders@[i].display_name
                &&& r@[i].parent_id == folders@[i].parent_id
            },
{
    let mut out: Vec<ServerFolderDto> = Vec::new();
    let mut i: usize = 0;
    while i < folders.len()
        invariant
            i <= folders.len(),
            out@.len() == i,
            forall|j: int|
                0 <= j < i ==> {
                    &&& (#[trigger] out@[j]).node_id == folders@[j].node_id
                    &&& out@[j].display_name == folders@[j].display_name
                    &&& out@[j].parent_id == folders@[j].parent_id
                },
        decreases folders.len() - i,
    {
        let f = &folders[i];
        out.push(
            ServerFolderDto {
                node_id: f.node_id.clone(),
                display_name: f.display_name.clone(),
                parent_id: f.parent_id.clone(),
            },
        );
        i = i + 1;
    }
    out
}

} // verus!
