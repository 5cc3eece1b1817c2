//! The master front end's state as a whole and how it takes in backend
//! events, keyboard shortcuts and row clicks; painting, file dialogs and
//! sending commands are left to the caller.

use vstd::prelude::*;

use crate::browse::{self, BrowseState};
use crate::cert_manager_dialog;
use crate::conn_dialog::ConnDialogState;
use crate::master_events::{BackendEvent, ConnectionInfo, NodeGroupDto, ToastLevel};
use crate::master_model::{self, CentralPanelTab, LogState, MethodCallState, Modal, Toast, ValuePanelState};
use crate::master_updates;
use crate::method_call_dialog;
use crate::monitor::{self, MonitorState};
use crate::text;

verus! {

/// State of the master front end (history tabs and the floating-point
/// monitoring settings of the browse panel are kept by the caller).
pub struct AppModel {
    pub connections: Vec<ConnectionInfo>,
    pub selected_conn: Option<String>,
    pub modal: Option<Modal>,
    pub browse: BrowseState,
    pub monitor: MonitorState,
    pub value_panel: ValuePanelState,
    pub logs: LogState,
    pub groups: Vec<NodeGroupDto>,
    pub group_input: String,
    pub toasts: Vec<Toast>,
    pub next_req_id: u64,
    pub central_tab: CentralPanelTab,
}

/// The message of the toast shown when writing to `node_id` succeeded.
pub open spec fn write_ok_message(node_id: Seq<char>) -> Seq<char> {
    "写入成功 ("@ + node_id + ")"@
}

/// What the caller does after the keyboard shortcuts of a frame.
pub struct ShortcutActions {
    /// Ask for a path and save the project.
    pub save_project: bool,
    /// Ask for a project and load it.
    pub open_project: bool,
    /// Unsubscribe these node ids of this connection.
    pub remove: Option<(String, Vec<String>)>,
}

impl AppModel {
    /// Well-formed: the browse tree, the table and the log keep their keys distinct.
    pub open spec fn wf(&self) -> bool {
        &&& self.browse.wf()
        &&& self.monitor.wf()
        &&& self.logs.wf()
    }

    /// Nothing loaded, no connection selected, no dialog open, the table shown.
    pub fn new() -> (r: Self)
        ensures
            r.wf(),
            r.connections@.len() == 0,
            r.selected_conn is None,
            r.modal is None,
            r.groups@.len() == 0,
            r.toasts@.len() == 0,
            r.next_req_id == 0,
            r.central_tab == CentralPanelTab::DataTable,
    {
        AppModel {
            connections: Vec::new(),
            selected_conn: None,
            modal: None,
            browse: BrowseState::default(),
            monitor: MonitorState::default(),
            value_panel: ValuePanelState::default(),
            logs: LogState::default(),
            groups: Vec::new(),
            group_input: String::new(),
            toasts: Vec::new(),
            next_req_id: 0,
            central_tab: CentralPanelTab::DataTable,
        }
    }

    /// Takes in one backend event at monotonic time `now_ms`: each event
    /// updates the part of the state it is about, answers to requests the
    /// front end no longer waits for are ignored, and dialogs only take in
    /// results while they are open.
    pub fn apply_event(&mut self, ev: BackendEvent, now_ms: u64)
        requires
            old(self).wf(),
        ensures
            final(self).wf(),
            match ev {
                BackendEvent::Connections(list) => *final(self) == (AppModel {
                    connections: list,
                    selected_conn: master_updates::kept_selection(old(self).selected_conn, list@),
                    ..*old(self)
                }),
                BackendEvent::ConnectionStateChanged { id, state } => {
                    &&& master_updates::connection_state_set(
                        old(self).connections@,
                        final(self).connections@,
                        id@,
                        state,
                    )
                    &&& *final(self) == (AppModel { connections: final(self).connections, ..*old(self) })
                },
                BackendEvent::BrowseResult { req_id, parent, items } => {
                    &&& browse::browse_result_applied(
                        old(self).browse,
                        final(self).browse,
                        req_id,
                        parent,
                        items@,
                    )
                    &&& *final(self) == (AppModel { browse: final(self).browse, ..*old(self) })
                },
                BackendEvent::MonitoredSnapshot { conn_id, seq, full, nodes } => {
                    &&& monitor::snapshot_applied(
                        old(self).monitor,
                        final(self).monitor,
                        conn_id@,
                        seq,
                        full,
                        nodes@,
                    )
                    &&& *final(self) == (AppModel { monitor: final(self).monitor, ..*old(self) })
                },
                BackendEvent::NodeAttrs { req_id, attrs } => {
                    &&& master_updates::node_attrs_applied(
                        old(self).value_panel,
                        final(self).value_panel,
                        req_id,
                        attrs,
                    )
                    &&& *final(self) == (AppModel { value_panel: final(self).value_panel, ..*old(self) })
                },
                BackendEvent::WriteOk { req_id, node_id } => {
                    &&& master_updates::write_ok_applied(
                        old(self).value_panel,
                        final(self).value_panel,
                        req_id,
                    )
                    &&& final(self).toasts@.len() == old(self).toasts@.len() + 1
                    &&& final(self).toasts@.take(old(self).toasts@.len() as int) == old(self).toasts@
                    &&& final(self).toasts@.last().level == ToastLevel::Info
                    &&& final(self).toasts@.last().message@ == write_ok_message(node_id@)
                    &&& final(self).toasts@.last().created_at == now_ms
                    &&& *final(self) == (AppModel {
                        value_panel: final(self).value_panel,
                        toasts: final(self).toasts,
                        ..*old(self)
                    })
                },
                BackendEvent::CommLogEntries { conn_id, entries } => {
                    &&& master_model::entries_appended(
                        old(self).logs,
                        final(self).logs,
                        conn_id@,
                        entries@,
                    )
                    &&& *final(self) == (AppModel { logs: final(self).logs, ..*old(self) })
                },
                BackendEvent::LogsCleared { conn_id } => {
                    &&& master_model::entries_cleared(old(self).logs, final(self).logs, conn_id@)
                    &&& *final(self) == (AppModel { logs: final(self).logs, ..*old(self) })
                },
                BackendEvent::Groups(list) => *final(self) == (AppModel { groups: list, ..*old(self) }),
                BackendEvent::MethodArgs { req_id, inputs, outputs } => match old(self).modal {
                    Some(Modal::MethodCall(s0)) => {
                        &&& final(self).modal matches Some(Modal::MethodCall(s1))
                            && method_call_dialog::method_args_applied(
                            s0,
                            s1,
                            req_id,
                            inputs@,
                            outputs@,
                        )
                        &&& *final(self) == (AppModel { modal: final(self).modal, ..*old(self) })
                    },
                    _ => *final(self) == *old(self),
                },
                BackendEvent::MethodCallResult { req_id, status, outputs } => match old(self).modal {
                    Some(Modal::MethodCall(s0)) => {
                        &&& final(self).modal matches Some(Modal::MethodCall(s1))
                            && method_call_dialog::method_result_applied(
                            s0,
                            s1,
                            req_id,
                            status,
                            outputs@,
                        )
                        &&& *final(self) == (AppModel { modal: final(self).modal, ..*old(self) })
                    },
                    _ => *final(self) == *old(self),
                },
                BackendEvent::CertificateList { req_id, role, certs } => match old(self).modal {
                    Some(Modal::CertManager(s0)) => {
                        &&& final(self).modal matches Some(Modal::CertManager(s1))
                            && cert_manager_dialog::cert_list_applied(s0, s1, req_id, role, certs@)
                        &&& *final(self) == (AppModel { modal: final(self).modal, ..*old(self) })
                    },
                    _ => *final(self) == *old(self),
                },
                BackendEvent::Toast { level, message } => *final(self) == (AppModel {
                    toasts: final(self).toasts,
                    ..*old(self)
                }) && final(self).toasts@ == old(self).toasts@.push(
                    (Toast { level, message, created_at: now_ms }),
                ),
            },
    {
        match ev {
            BackendEvent::Connections(list) => {
                let sel = master_updates::keep_selected_conn(self.selected_conn.clone(), &list);
                self.selected_conn = sel;
                self.connections = list;
            },
            BackendEvent::ConnectionStateChanged { id, state } => {
                master_updates::set_connection_state(&mut self.connections, id.as_str(), state);
            },
            BackendEvent::BrowseResult { req_id, parent, items } => {
                self.browse.apply_browse_result(req_id, parent, items);
            },
            BackendEvent::MonitoredSnapshot { conn_id, seq, full, nodes } => {
                self.monitor.apply_monitored_snapshot(conn_id.as_str(), seq, full, nodes);
            },
            BackendEvent::NodeAttrs { req_id, attrs } => {
                master_updates::apply_node_attrs(&mut self.value_panel, req_id, attrs);
            },
            BackendEvent::WriteOk { req_id, node_id } => {
                master_updates::apply_write_ok(&mut self.value_panel, req_id);
                let mut msg: Vec<char> = Vec::new();
                text::push_str_chars(&mut msg, "写入成功 (");
                text::push_str_chars(&mut msg, node_id.as_str());
                text::push_str_chars(&mut msg, ")");
                let message = text::string_from_chars(&msg);
                master_model::push_toast(&mut self.toasts, ToastLevel::Info, message, now_ms);
            },
            BackendEvent::CommLogEntries { conn_id, entries } => {
                self.logs.append_entries(conn_id, entries);
            },
            BackendEvent::LogsCleared { conn_id } => {
                self.logs.clear_entries(conn_id.as_str());
            },
            BackendEvent::Groups(list) => {
                self.groups = list;
            },
            BackendEvent::MethodArgs { req_id, inputs, outputs } => {
                let mut m: Option<Modal> = None;
                std::mem::swap(&mut m, &mut self.modal);
                match m {
                    Some(Modal::MethodCall(st)) => {
                        let mut st = st;
                        method_call_dialog::apply_method_args(&mut st, req_id, inputs, outputs);
                        self.modal = Some(Modal::MethodCall(st));
                    },
                    other => {
                        self.modal = other;
                    },
                }
            },
            BackendEvent::MethodCallResult { req_id, status, outputs } => {
                let mut m: Option<Modal> = None;
                std::mem::swap(&mut m, &mut self.modal);
                match m {
                    Some(Modal::MethodCall(st)) => {
                        let mut st = st;
                        method_call_dialog::apply_method_result(&mut st, req_id, status, outputs);
                        self.modal = Some(Modal::MethodCall(st));
                    },
                    other => {
                        self.modal = other;
                    },
                }
            },
            BackendEvent::CertificateList { req_id, role, certs } => {
                let mut m: Option<Modal> = None;
                std::mem::swap(&mut m, &mut self.modal);
                match m {
                    Some(Modal::CertManager(st)) => {
                        let mut st = st;
                        cert_manager_dialog::apply_cert_list(&mut st, req_id, role, certs);
                        self.modal = Some(Modal::CertManager(st));
                    },
                    other => {
                        self.modal = other;
                    },
                }
            },
            BackendEvent::Toast { level, message } => {
                master_model::push_toast(&mut self.toasts, level, message, now_ms);
            },
        }
    }
}

impl AppModel {
    /// The data-change filter new variables are to be monitored with, when enabled.
    pub fn current_filter_req(&self) -> (r: Option<crate::master_events::DataChangeFilterReq>)
        ensures
            r == browse::filter_of(self.browse),
    {
        self.browse.current_filter_req()
    }

    /// Takes in the shortcuts pressed in a frame: none while a dialog is
    /// open; otherwise Ctrl/Cmd+N opens the new-connection dialog,
    /// Ctrl/Cmd+S and Ctrl/Cmd+O ask the caller to save or open a project,
    /// and Delete removes the selected table rows of the selected
    /// connection, returning their ids to unsubscribe.
    pub fn handle_shortcuts(&mut self, new_conn: bool, save: bool, open: bool, delete: bool) -> (r:
        ShortcutActions)
        requires
            old(self).wf(),
        ensures
            final(self).wf(),
            old(self).modal is Some ==> {
                &&& *final(self) == *old(self)
                &&& !r.save_project && !r.open_project && r.remove is None
            },
            old(self).modal is None ==> {
                &&& r.save_project == save
                &&& r.open_project == open
                &&& new_conn ==> (final(self).modal matches Some(Modal::NewConnection(d))
                    && crate::conn_dialog::is_fresh_dialog(d))
                &&& !new_conn ==> final(self).modal is None
                &&& match old(self).selected_conn {
                    Some(conn) if delete && old(self).monitor.selected_rows.items@.len() > 0 => {
                        &&& r.remove matches Some(rm) && rm.0 == conn && monitor::texts_of(
                            rm.1@,
                        ).to_set() == old(self).monitor.selected_rows@.dom()
                        &&& final(self).monitor.selected_rows@ == Map::<Seq<char>, ()>::empty()
                        &&& final(self).monitor.filter_dirty
                        &&& old(self).monitor.per_conn@.contains_key(conn@) ==> row_entries_after(
                            *final(self),
                            conn@,
                        ) == monitor::without_keys(
                            monitor::rows_of(old(self).monitor.per_conn@, conn@),
                            old(self).monitor.selected_rows@.dom(),
                        )
                    },
                    _ => r.remove is None && final(self).monitor == old(self).monitor,
                }
                &&& *final(self) == (AppModel {
                    modal: final(self).modal,
                    monitor: final(self).monitor,
                    ..*old(self)
                })
            },
    {
        let mut acts = ShortcutActions { save_project: false, open_project: false, remove: None };
        if self.modal.is_some() {
            return acts;
        }
        if new_conn {
            self.modal = Some(Modal::NewConnection(ConnDialogState::default()));
        }
        acts.save_project = save;
        acts.open_project = open;
        if delete && self.monitor.selected_rows.items.len() > 0 {
            match &self.selected_conn {
                Some(conn) => {
                    let conn = conn.clone();
                    let ids = self.monitor.remove_selected_rows(conn.as_str());
                    acts.remove = Some((conn, ids));
                },
                None => {},
            }
        }
        acts
    }

    /// Opens the method call dialog for the method node `node_id` of
    /// connection `conn_id` and returns the id of the request for its
    /// argument list, which the dialog then waits for.  The method is called
    /// on a node of the browse tree that has it among its children (on the
    /// method node itself when there is none) and the dialog is titled with
    /// the node's display name (its id when the node is unknown).
    pub fn open_method_call(&mut self, conn_id: &str, node_id: &str) -> (req_id: u64)
        requires
            old(self).wf(),
        ensures
            final(self).wf(),
            final(self).next_req_id == (if old(self).next_req_id == u64::MAX {
                0
            } else {
                (old(self).next_req_id + 1) as u64
            }),
            req_id == final(self).next_req_id,
            final(self).modal matches Some(Modal::MethodCall(s)) && {
                &&& s.conn_id@ == conn_id@
                &&& s.method_id@ == node_id@
                &&& method_object_ok(old(self).browse.nodes@, s.object_id@, node_id@)
                &&& s.display_name@ == method_title(old(self).browse.nodes@, node_id@)
                &&& s.pending_args_req == Some(req_id)
                &&& s.inputs_meta@.len() == 0
                &&& s.outputs_meta@.len() == 0
                &&& s.input_values@.len() == 0
                &&& s.pending_call_req is None
                &&& s.last_result_status is None
                &&& s.last_result_outputs@.len() == 0
                &&& s.error is None
            },
            *final(self) == (AppModel {
                modal: final(self).modal,
                next_req_id: final(self).next_req_id,
                ..*old(self)
            }),
    {
        let parent = match self.browse.find_parent_object(node_id) {
            Some(p) => p,
            None => String::from_str(node_id),
        };
        let display_name = match self.browse.nodes.get(node_id) {
            Some(st) => st.item.display_name.clone(),
            None => String::from_str(node_id),
        };
        let req_id = master_model::alloc_req_id(&mut self.next_req_id);
        let mut st = MethodCallState::new(
            String::from_str(conn_id),
            parent,
            String::from_str(node_id),
            display_name,
        );
        st.pending_args_req = Some(req_id);
        self.modal = Some(Modal::MethodCall(st));
        req_id
    }

    /// Takes in a click on the table row of `node_id` at position
    /// `filtered_idx` of the filtered rows: the selection changes as
    /// `MonitorState::apply_row_click` describes and the value panel forgets
    /// what it showed for the previous row.
    pub fn click_row(&mut self, filtered_idx: usize, node_id: String, ctrl: bool, shift: bool)
        requires
            old(self).wf(),
        ensures
            final(self).wf(),
            final(self).monitor.focused_row == Some(node_id),
            monitor::row_click_applied(
                old(self).monitor,
                final(self).monitor,
                filtered_idx,
                node_id@,
                ctrl,
                shift,
            ),
            final(self).value_panel.attrs is None,
            final(self).value_panel.write_value@.len() == 0,
            final(self).value_panel.last_result is None,
            final(self).value_panel.pending_read_req == old(self).value_panel.pending_read_req,
            final(self).value_panel.pending_write_req == old(self).value_panel.pending_write_req,
            final(self).monitor.per_conn == old(self).monitor.per_conn,
            final(self).monitor.filtered_cache == old(self).monitor.filtered_cache,
            *final(self) == (AppModel {
                monitor: final(self).monitor,
                value_panel: final(self).value_panel,
                ..*old(self)
            }),
    {
        self.monitor.apply_row_click(filtered_idx, node_id, ctrl, shift);
        master_updates::reset_for_new_focus(&mut self.value_panel);
    }
}

/// Whether `p` is a node of `nodes` among whose loaded children `node` is.
pub open spec fn is_parent_node(
    nodes: Map<Seq<char>, master_model::BrowseNodeState>,
    p: Seq<char>,
    node: Seq<char>,
) -> bool {
    nodes.contains_key(p) && (nodes[p].children matches Some(c) && browse::texts(c@).contains(node))
}

/// The object a method dialog for `node` is opened on: a node whose loaded
/// children include `node`, or `node` itself when there is none.
pub open spec fn method_object_ok(
    nodes: Map<Seq<char>, master_model::BrowseNodeState>,
    object: Seq<char>,
    node: Seq<char>,
) -> bool {
    ||| is_parent_node(nodes, object, node)
    ||| object == node && forall|k: Seq<char>| !#[trigger] is_parent_node(nodes, k, node)
}

/// The title of a method dialog for `node`: its display name when the node
/// is known, else its id.
pub open spec fn method_title(nodes: Map<Seq<char>, master_model::BrowseNodeState>, node: Seq<char>) -> Seq<char> {
    if nodes.contains_key(node) {
        nodes[node].item.display_name@
    } else {
        node
    }
}

/// The rows of connection `conn` in the table of `m`.
pub open spec fn row_entries_after(m: AppModel, conn: Seq<char>) -> Seq<(Seq<char>, crate::master_events::MonitoredRow)> {
    monitor::rows_of(m.monitor.per_conn@, conn)
}

} // verus!
