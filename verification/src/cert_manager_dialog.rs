//! State changes of the certificate-manager dialog.

use vstd::prelude::*;

use crate::master_events::{CertRoleDto, CertSummaryDto};
use crate::master_model::CertManagerState;

verus! {

/// What the certificate dialog asks of the application after a frame;
/// paths are kept as text.
pub struct DialogActions {
    pub close: bool,
    pub move_to: Option<(String, CertRoleDto)>,
    pub delete: Option<String>,
    pub refresh: bool,
}

/// The store a certificate is offered to move to: the other one.
pub fn move_target(role: CertRoleDto) -> (r: (&'static str, CertRoleDto))
    ensures
        role == CertRoleDto::Trusted ==> r.0@ == "→ 拒绝"@ && r.1 == CertRoleDto::Rejected,
        role == CertRoleDto::Rejected ==> r.0@ == "→ 信任"@ && r.1 == CertRoleDto::Trusted,
{
    match role {
        CertRoleDto::Trusted => ("→ 拒绝", CertRoleDto::Rejected),
        CertRoleDto::Rejected => ("→ 信任", CertRoleDto::Trusted),
    }
}

/// Records that both certificate lists are being re-read under the given
/// request ids and drops the selection.
pub fn begin_cert_refresh(state: &mut CertManagerState, trusted_req: u64, rejected_req: u64)
    ensures
        final(state).pending_trusted_req == Some(trusted_req),
        final(state).pending_rejected_req == Some(rejected_req),
        final(state).selected_path is None,
        final(state).trusted == old(state).trusted,
        final(state).rejected == old(state).rejected,
        final(state).error == old(state).error,
{
    state.pending_trusted_req = Some(trusted_req);
    state.pending_rejected_req = Some(rejected_req);
    state.selected_path = None;
}

/// `new` is the dialog `old` after the certificate list of store `role` read for request `req_id` arrived.
pub open spec fn cert_list_applied(old: CertManagerState, new: CertManagerState, req_id: u64, role: CertRoleDto, certs: Seq<CertSummaryDto>) -> bool {
    &&& role == CertRoleDto::Trusted && old.pending_trusted_req == Some(req_id) ==> {
        &&& new.trusted@ == certs
        &&& new.pending_trusted_req is None
        &&& new.rejected == old.rejected
        &&& new.pending_rejected_req == old.pending_rejected_req
    }
    &&& role == CertRoleDto::Rejected && old.pending_rejected_req == Some(req_id) ==> {
        &&& new.rejected@ == certs
        &&& new.pending_rejected_req is None
        &&& new.trusted == old.trusted
        &&& new.pending_trusted_req == old.pending_trusted_req
    }
    &&& !(role == CertRoleDto::Trusted && old.pending_trusted_req == Some(req_id)) && !(
        role == CertRoleDto::Rejected && old.pending_rejected_req == Some(req_id)) ==> new == old
    &&& new.selected_path == old.selected_path
    &&& new.error == old.error
}

/// Takes in the certificate list of store `role` read for request `req_id`,
/// when that is the request awaited for that store.
pub fn apply_cert_list(
    state: &mut CertManagerState,
    req_id: u64,
    role: CertRoleDto,
    certs: Vec<CertSummaryDto>,
)
    ensures
        cert_list_applied(*old(state), *final(state), req_id, role, certs@),
{
    match role {
        CertRoleDto::Trusted => {
            if state.pending_trusted_req == Some(req_id) {
                state.trusted = certs;
                state.pending_trusted_req = None;
            }
        },
        CertRoleDto::Rejected => {
            if state.pending_rejected_req == Some(req_id) {
                state.rejected = certs;
                state.pending_rejected_req = None;
            }
        },
    }
}

} // verus!
