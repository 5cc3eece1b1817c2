use opcuasim::app_model::AppModel;
use opcuasim::master_events::{
    BackendEvent, BrowseItem, CertRoleDto, CertSummaryDto, ConnectionInfo, LogRow, MethodArgInfo, MonitoredRow,
    NodeAttrsDto, NodeGroupDto, ToastLevel,
};
use opcuasim::master_model::{CentralPanelTab, CertManagerState, MethodCallState, Modal};

fn conn(id: &str, name: &str) -> ConnectionInfo {
    ConnectionInfo {
        id: id.to_string(),
        name: name.to_string(),
        endpoint_url: String::new(),
        security_policy: "None".to_string(),
        security_mode: "None".to_string(),
        auth_type: "Anonymous".to_string(),
        state: "Disconnected".to_string(),
    }
}

fn mrow(id: &str) -> MonitoredRow {
    MonitoredRow {
        node_id: id.to_string(),
        display_name: id.to_string(),
        data_type: "Int32".to_string(),
        value: Some("1".to_string()),
        quality: None,
        source_timestamp: None,
        server_timestamp: None,
        access_mode: "Polling".to_string(),
        interval_ms_bits: 500.0f64.to_bits(),
        update_seq: 0,
        user_access_level: 1,
    }
}

fn log(seq: u64) -> LogRow {
    LogRow {
        seq,
        timestamp_ms: 0,
        direction: "Request".to_string(),
        service: "Read".to_string(),
        detail: String::new(),
        status: None,
    }
}

#[test]
fn new_model_is_empty() {
    let m = AppModel::new();
    assert!(m.connections.is_empty());
    assert!(m.modal.is_none());
    assert_eq!(m.central_tab, CentralPanelTab::DataTable);
    assert_eq!(m.next_req_id, 0);
}

#[test]
fn connection_list_events() {
    let mut m = AppModel::new();
    m.selected_conn = Some("2".to_string());
    m.apply_event(BackendEvent::Connections(vec![conn("1", "a"), conn("2", "b")]), 0);
    assert_eq!(m.selected_conn.as_deref(), Some("2"));
    assert_eq!(m.connections.len(), 2);
    m.apply_event(BackendEvent::ConnectionStateChanged { id: "2".to_string(), state: "Connected".to_string() }, 0);
    assert_eq!(m.connections[1].state, "Connected");
    m.apply_event(BackendEvent::Connections(vec![conn("1", "a")]), 0);
    assert_eq!(m.selected_conn, None);
}

#[test]
fn browse_monitor_and_log_events() {
    let mut m = AppModel::new();
    m.browse.begin_browse_root("c".to_string(), 4);
    m.apply_event(
        BackendEvent::BrowseResult {
            req_id: 4,
            parent: None,
            items: vec![BrowseItem {
                node_id: "Objects".to_string(),
                display_name: "Objects".to_string(),
                node_class: "Object".to_string(),
                data_type: None,
                has_children: true,
            }],
        },
        0,
    );
    assert!(m.browse.root_loaded);
    assert!(m.browse.pending.is_empty());
    m.apply_event(BackendEvent::MonitoredSnapshot { conn_id: "c".to_string(), seq: 3, full: true, nodes: vec![mrow("a"), mrow("b")] }, 0);
    assert_eq!(m.monitor.ensure_filter("c").to_vec(), vec!["a", "b"]);
    m.apply_event(BackendEvent::CommLogEntries { conn_id: "c".to_string(), entries: vec![log(1), log(2)] }, 0);
    assert_eq!(m.logs.per_conn.get("c").unwrap().entries.len(), 2);
    m.apply_event(BackendEvent::LogsCleared { conn_id: "c".to_string() }, 0);
    assert!(m.logs.per_conn.get("c").unwrap().entries.is_empty());
    m.apply_event(BackendEvent::Groups(vec![NodeGroupDto { id: "g".to_string(), name: "G".to_string(), node_ids: vec![] }]), 0);
    assert_eq!(m.groups.len(), 1);
}

#[test]
fn method_dialog_opens_on_parent_object() {
    let mut m = AppModel::new();
    m.browse.begin_browse_root("c".to_string(), 1);
    let obj = |id: &str, name: &str| BrowseItem {
        node_id: id.to_string(),
        display_name: name.to_string(),
        node_class: "Object".to_string(),
        data_type: None,
        has_children: true,
    };
    m.browse.apply_browse_result(1, None, vec![obj("ns=2;s=Pump", "Pump")]);
    m.browse.begin_browse_node("ns=2;s=Pump", 2);
    m.browse.apply_browse_result(2, Some("ns=2;s=Pump".to_string()), vec![obj("ns=2;s=Start", "Start")]);
    m.next_req_id = 7;
    let req = m.open_method_call("c", "ns=2;s=Start");
    assert_eq!(req, 8);
    assert_eq!(m.next_req_id, 8);
    match &m.modal {
        Some(Modal::MethodCall(s)) => {
            assert_eq!(s.conn_id, "c");
            assert_eq!(s.object_id, "ns=2;s=Pump");
            assert_eq!(s.method_id, "ns=2;s=Start");
            assert_eq!(s.display_name, "Start");
            assert_eq!(s.pending_args_req, Some(8));
        }
        _ => panic!("no method dialog"),
    }
    let req = m.open_method_call("c", "ns=2;s=Elsewhere");
    assert_eq!(req, 9);
    match &m.modal {
        Some(Modal::MethodCall(s)) => {
            assert_eq!(s.object_id, "ns=2;s=Elsewhere");
            assert_eq!(s.display_name, "ns=2;s=Elsewhere");
            assert_eq!(s.pending_args_req, Some(9));
        }
        _ => panic!("no method dialog"),
    }
}

#[test]
fn value_panel_events_and_toasts() {
    let mut m = AppModel::new();
    m.value_panel.pending_read_req = Some(3);
    m.value_panel.pending_write_req = Some(4);
    m.apply_event(
        BackendEvent::NodeAttrs {
            req_id: 3,
            attrs: NodeAttrsDto {
                node_id: "n".to_string(),
                display_name: "n".to_string(),
                description: String::new(),
                data_type: "Int32".to_string(),
                access_level: "3".to_string(),
                value: None,
                quality: None,
                timestamp: None,
            },
        },
        10,
    );
    assert_eq!(m.value_panel.pending_read_req, None);
    assert!(m.value_panel.attrs.is_some());
    m.apply_event(BackendEvent::WriteOk { req_id: 4, node_id: "ns=2;s=X".to_string() }, 20);
    assert_eq!(m.value_panel.pending_write_req, None);
    assert_eq!(m.toasts.len(), 1);
    assert_eq!(m.toasts[0].message, "写入成功 (ns=2;s=X)");
    assert_eq!(m.toasts[0].level, ToastLevel::Info);
    assert_eq!(m.toasts[0].created_at, 20);
    m.apply_event(BackendEvent::Toast { level: ToastLevel::Error, message: "boom".to_string() }, 30);
    assert_eq!(m.toasts.len(), 2);
    assert_eq!(m.toasts[1].message, "boom");
}

#[test]
fn dialog_events_only_reach_open_dialogs() {
    let mut m = AppModel::new();
    m.apply_event(BackendEvent::MethodArgs { req_id: 1, inputs: vec![], outputs: vec![] }, 0);
    assert!(m.modal.is_none());
    let mut st = MethodCallState::new("c".to_string(), "o".to_string(), "m".to_string(), "M".to_string());
    st.pending_args_req = Some(1);
    m.modal = Some(Modal::MethodCall(st));
    m.apply_event(
        BackendEvent::MethodArgs {
            req_id: 1,
            inputs: vec![MethodArgInfo { name: "x".to_string(), data_type: "Boolean".to_string(), description: String::new() }],
            outputs: vec![],
        },
        0,
    );
    match &m.modal {
        Some(Modal::MethodCall(s)) => {
            assert_eq!(s.input_values, vec!["false".to_string()]);
            assert!(s.pending_args_req.is_none());
        }
        _ => panic!("dialog closed"),
    }
    let mut cm = CertManagerState::default();
    cm.pending_rejected_req = Some(8);
    m.modal = Some(Modal::CertManager(cm));
    m.apply_event(
        BackendEvent::CertificateList {
            req_id: 8,
            role: CertRoleDto::Rejected,
            certs: vec![CertSummaryDto {
                path: "p".to_string(),
                file_name: "f".to_string(),
                role: CertRoleDto::Rejected,
                thumbprint: String::new(),
                subject_cn: String::new(),
                issuer_cn: String::new(),
                valid_from: String::new(),
                valid_to: String::new(),
            }],
        },
        0,
    );
    match &m.modal {
        Some(Modal::CertManager(s)) => assert_eq!(s.rejected.len(), 1),
        _ => panic!("dialog closed"),
    }
}

fn selected(m: &AppModel) -> Vec<String> {
    let mut v: Vec<String> = m.monitor.selected_rows.items.iter().map(|e| e.0.clone()).collect();
    v.sort();
    v
}

#[test]
fn shortcuts_and_clicks() {
    let mut m = AppModel::new();
    let a = m.handle_shortcuts(false, true, false, false);
    assert!(a.save_project && !a.open_project && a.remove.is_none());
    m.apply_event(BackendEvent::MonitoredSnapshot { conn_id: "c".to_string(), seq: 1, full: true, nodes: vec![mrow("a"), mrow("b"), mrow("c")] }, 0);
    m.selected_conn = Some("c".to_string());
    m.monitor.ensure_filter("c");
    m.value_panel.write_value = "draft".to_string();
    m.click_row(0, "a".to_string(), false, false);
    assert!(m.value_panel.write_value.is_empty());
    assert_eq!(selected(&m), vec!["a"]);
    assert_eq!(m.monitor.last_clicked_filtered_idx, Some(0));
    assert_eq!(m.monitor.focused_row.as_deref(), Some("a"));
    m.click_row(2, "c".to_string(), false, true);
    assert_eq!(selected(&m), vec!["a", "b", "c"]);
    assert_eq!(m.monitor.last_clicked_filtered_idx, Some(0));
    assert_eq!(m.monitor.focused_row.as_deref(), Some("c"));
    m.click_row(1, "b".to_string(), true, false);
    assert_eq!(selected(&m), vec!["a", "c"]);
    assert_eq!(m.monitor.last_clicked_filtered_idx, Some(1));
    m.click_row(2, "c".to_string(), false, true);
    assert_eq!(selected(&m), vec!["b", "c"]);
    m.click_row(0, "a".to_string(), true, true);
    assert_eq!(selected(&m), vec!["a", "b", "c"]);
    assert_eq!(m.monitor.last_clicked_filtered_idx, Some(1));
    let a = m.handle_shortcuts(false, false, false, true);
    let (conn_id, mut ids) = a.remove.unwrap();
    ids.sort();
    assert_eq!(conn_id, "c");
    assert_eq!(ids, vec!["a", "b", "c"]);
    assert!(m.monitor.ensure_filter("c").is_empty());
    let a = m.handle_shortcuts(true, false, true, true);
    assert!(a.open_project);
    assert!(a.remove.is_none());
    assert!(matches!(m.modal, Some(Modal::NewConnection(_))));
    let a = m.handle_shortcuts(false, true, true, true);
    assert!(!a.save_project && !a.open_project);
}
