use opcuasim::master_events::{DataChangeTriggerKindReq, DeadbandKindReq};
use opcuasim::master_app::{auth_from_req, config_from_req};
use opcuasim::master_events::CreateConnectionReq;
use opcuasim::browse::{node_class_icon, BrowseState};
use opcuasim::cert_manager_dialog::{apply_cert_list, begin_cert_refresh, move_target};
use opcuasim::conn_dialog::{AuthKind, ConnDialogState};
use opcuasim::connections::sort_connections_by_name;
use opcuasim::groups::{add_nodes_to_group, create_group, delete_group, group_to_dto, list_groups, remove_nodes_from_group, NodeGroup};
use opcuasim::conn_map::ConnMap;
use opcuasim::master_app::{
    auth_from_request, auth_label, create_connection, load_connections, AuthConfig, ConnectionProjectEntry,
    CreateConnectionRequest,
};
use opcuasim::master_events::{AuthKindReq, BrowseItem, CertRoleDto, CertSummaryDto, ConnectionInfo, LogRow, MethodArgInfo, MethodArgValue, NodeAttrsDto, ToastLevel};
use opcuasim::master_model::{
    alloc_req_id, newest_seq, push_toast, retain_fresh_toasts, tab_after_close, CentralPanelTab, CertManagerState,
    LogDirectionFilter, LogPerConn, LogState, MethodCallState, Toast, ValuePanelState, LOG_CAPACITY,
};
use opcuasim::master_updates::{
    apply_node_attrs, apply_write_ok, begin_read, begin_write, is_writable, keep_selected_conn, reset_for_new_focus,
    set_connection_state, write_enabled,
};
use opcuasim::method_call_dialog::{apply_method_args, apply_method_result, begin_call, call_args, output_name, sync_input_values};

fn row(seq: u64, dir: &str, service: &str, detail: &str) -> LogRow {
    LogRow {
        seq,
        timestamp_ms: 0,
        direction: dir.to_string(),
        service: service.to_string(),
        detail: detail.to_string(),
        status: None,
    }
}

fn conn(id: &str, name: &str) -> ConnectionInfo {
    ConnectionInfo {
        id: id.to_string(),
        name: name.to_string(),
        endpoint_url: String::new(),
        security_policy: "None".to_string(),
        security_mode: "None".to_string(),
        auth_type: "Anonymous".to_string(),
        state: "Disconnected".to_string(),
    }
}

fn item(id: &str) -> BrowseItem {
    BrowseItem {
        node_id: id.to_string(),
        display_name: id.to_string(),
        node_class: "Object".to_string(),
        data_type: None,
        has_children: true,
    }
}

fn arg(name: &str, ty: &str) -> MethodArgInfo {
    MethodArgInfo { name: name.to_string(), data_type: ty.to_string(), description: String::new() }
}

fn cert(path: &str) -> CertSummaryDto {
    CertSummaryDto {
        path: path.to_string(),
        file_name: path.to_string(),
        role: CertRoleDto::Trusted,
        thumbprint: String::new(),
        subject_cn: String::new(),
        issuer_cn: String::new(),
        valid_from: String::new(),
        valid_to: String::new(),
    }
}

fn attrs(id: &str) -> NodeAttrsDto {
    NodeAttrsDto {
        node_id: id.to_string(),
        display_name: id.to_string(),
        description: String::new(),
        data_type: "Double".to_string(),
        access_level: "3".to_string(),
        value: Some("1.5".to_string()),
        quality: Some("Good".to_string()),
        timestamp: None,
    }
}

#[test]
fn log_buffer_keeps_the_newest_rows() {
    let mut p = LogPerConn::new();
    let rows: Vec<LogRow> = (0..(LOG_CAPACITY as u64 + 5)).map(|i| row(i, "Request", "Read", "")).collect();
    p.append(rows, false);
    assert_eq!(p.entries.len(), LOG_CAPACITY);
    assert_eq!(p.entries[0].seq, 5);
    assert_eq!(p.entries.last().unwrap().seq, LOG_CAPACITY as u64 + 4);
    assert!(p.paused_buf.is_empty());
}

#[test]
fn pause_then_resume_equals_live_append() {
    let mut live = LogPerConn::new();
    live.append(vec![row(1, "Request", "A", "")], false);
    live.append(vec![row(2, "Response", "B", ""), row(3, "Request", "C", "")], false);

    let mut paused = LogPerConn::new();
    paused.append(vec![row(1, "Request", "A", "")], false);
    paused.append(vec![row(2, "Response", "B", ""), row(3, "Request", "C", "")], true);
    assert_eq!(paused.entries.len(), 1);
    assert_eq!(paused.paused_buf.len(), 2);
    paused.flush_paused();
    assert!(paused.paused_buf.is_empty());
    let a: Vec<u64> = live.entries.iter().map(|r| r.seq).collect();
    let b: Vec<u64> = paused.entries.iter().map(|r| r.seq).collect();
    assert_eq!(a, b);
}

#[test]
fn log_filter_by_direction_and_search() {
    let mut st = LogState::default();
    assert!(st.filter_dirty);
    st.append_entries(
        "c1".to_string(),
        vec![
            row(1, "Request", "Read", "ns=2;s=Temp"),
            row(2, "Response", "Read", "Good"),
            row(3, "Request", "Write", "ns=2;s=PRESSURE"),
        ],
    );
    st.ensure_filter("c1");
    assert_eq!(st.filtered_cache, vec![0, 1, 2]);
    st.filter = LogDirectionFilter::Request;
    st.ensure_filter("c1");
    assert_eq!(st.filtered_cache, vec![0, 2]);
    st.search = "  pressure ".to_string();
    st.ensure_filter("c1");
    assert_eq!(st.filtered_cache, vec![2]);
    st.filter = LogDirectionFilter::Response;
    st.search = "READ".to_string();
    st.ensure_filter("c1");
    assert_eq!(st.filtered_cache, vec![1]);
    st.ensure_filter("unknown");
    assert!(st.filtered_cache.is_empty());
    assert_eq!(st.last_filter_key.0, "unknown");
}

#[test]
fn log_filter_cache_is_reused_until_something_changes() {
    let mut st = LogState::default();
    st.append_entries("c".to_string(), vec![row(1, "Request", "Read", "")]);
    st.ensure_filter("c");
    assert!(!st.filter_dirty);
    st.filtered_cache = vec![42];
    st.ensure_filter("c");
    assert_eq!(st.filtered_cache, vec![42]);
    st.append_entries("c".to_string(), vec![row(2, "Request", "Read", "")]);
    st.ensure_filter("c");
    assert_eq!(st.filtered_cache, vec![0, 1]);
}

#[test]
fn log_paused_rows_and_clearing() {
    let mut st = LogState::default();
    st.paused = true;
    st.append_entries("c".to_string(), vec![row(1, "Request", "Read", "")]);
    let p = st.per_conn.get("c").unwrap();
    assert!(p.entries.is_empty());
    assert_eq!(p.paused_buf.len(), 1);
    st.paused = false;
    st.append_entries("c".to_string(), vec![row(2, "Request", "Read", "")]);
    st.clear_entries("c");
    let p = st.per_conn.get("c").unwrap();
    assert!(p.entries.is_empty());
    assert_eq!(p.paused_buf.len(), 1);
}

#[test]
fn newest_sequence_number() {
    assert_eq!(newest_seq(&vec![], 7), 7);
    assert_eq!(newest_seq(&vec![row(3, "", "", ""), row(9, "", "", ""), row(5, "", "", "")], 1), 9);
    assert_eq!(newest_seq(&vec![row(2, "", "", "")], 10), 2);
}

#[test]
fn toasts_expire_after_four_seconds() {
    let mut ts: Vec<Toast> = Vec::new();
    push_toast(&mut ts, ToastLevel::Info, "a".to_string(), 1_000);
    push_toast(&mut ts, ToastLevel::Error, "b".to_string(), 3_000);
    assert_eq!(ts.len(), 2);
    retain_fresh_toasts(&mut ts, 4_999);
    assert_eq!(ts.len(), 2);
    retain_fresh_toasts(&mut ts, 5_000);
    assert_eq!(ts.len(), 1);
    assert_eq!(ts[0].message, "b");
    retain_fresh_toasts(&mut ts, 0);
    assert_eq!(ts.len(), 1);
    retain_fresh_toasts(&mut ts, 7_000);
    assert!(ts.is_empty());
}

#[test]
fn request_ids_wrap() {
    let mut n = 0u64;
    assert_eq!(alloc_req_id(&mut n), 1);
    assert_eq!(alloc_req_id(&mut n), 2);
    let mut m = u64::MAX;
    assert_eq!(alloc_req_id(&mut m), 0);
    assert_eq!(m, 0);
}

#[test]
fn closing_history_tabs() {
    assert_eq!(tab_after_close(CentralPanelTab::History(0), 0, 0), CentralPanelTab::DataTable);
    assert_eq!(tab_after_close(CentralPanelTab::History(2), 1, 3), CentralPanelTab::History(1));
    assert_eq!(tab_after_close(CentralPanelTab::History(0), 1, 3), CentralPanelTab::History(0));
    assert_eq!(tab_after_close(CentralPanelTab::History(0), 0, 2), CentralPanelTab::History(0));
    assert_eq!(tab_after_close(CentralPanelTab::History(3), 3, 3), CentralPanelTab::History(2));
    assert_eq!(tab_after_close(CentralPanelTab::DataTable, 0, 2), CentralPanelTab::DataTable);
}

#[test]
fn connection_dialog_validation() {
    let d = ConnDialogState::default();
    assert_eq!(d.name, "New Connection");
    assert_eq!(d.endpoint_url, "opc.tcp://localhost:4840");
    assert_eq!(d.timeout_ms, 5000);
    assert_eq!(AuthKind::Anonymous.label(), "Anonymous");
    assert_eq!(AuthKind::UserPassword.label(), "UserPassword");
    assert_eq!(AuthKind::Certificate.label(), "Certificate");

    let mut ok = ConnDialogState::default();
    ok.name = "  Plant A ".to_string();
    ok.endpoint_url = " opc.tcp://h:4840 ".to_string();
    let req = ok.validate().unwrap();
    assert_eq!(req.name, "Plant A");
    assert_eq!(req.endpoint_url, "opc.tcp://h:4840");
    assert!(matches!(req.auth, AuthKindReq::Anonymous));
    assert_eq!(req.timeout_ms, 5000);

    let mut e = ConnDialogState::default();
    e.name = "   ".to_string();
    assert_eq!(e.validate().unwrap_err(), "连接名不能为空");
    let mut e = ConnDialogState::default();
    e.endpoint_url = String::new();
    assert_eq!(e.validate().unwrap_err(), "Endpoint URL 不能为空");
    let mut e = ConnDialogState::default();
    e.auth = AuthKind::UserPassword;
    assert_eq!(e.validate().unwrap_err(), "用户名不能为空");
    e.username = "op".to_string();
    e.password = "pw".to_string();
    match e.validate().unwrap().auth {
        AuthKindReq::UserPassword { username, password } => {
            assert_eq!(username, "op");
            assert_eq!(password, "pw");
        }
        _ => panic!("expected user/password"),
    }
    let mut e = ConnDialogState::default();
    e.auth = AuthKind::Certificate;
    e.cert_path = "c.der".to_string();
    assert_eq!(e.validate().unwrap_err(), "证书与私钥路径都不能为空");
    e.key_path = "k.pem".to_string();
    assert!(matches!(e.validate().unwrap().auth, AuthKindReq::Certificate { .. }));
}

#[test]
fn created_connections_get_uuid_ids_and_defaults() {
    let req = CreateConnectionRequest {
        name: "A".to_string(),
        endpoint_url: "opc.tcp://x".to_string(),
        security_policy: None,
        security_mode: Some("Sign".to_string()),
        auth_type: Some("UserPassword".to_string()),
        username: Some("u".to_string()),
        password: None,
        cert_path: None,
        key_path: None,
        timeout_ms: None,
    };
    let mut table = ConnMap::new();
    let info = create_connection(&mut table, req);
    assert_eq!(table.items.len(), 1);
    let cfg = table.get(&info.id).unwrap().clone();
    assert_eq!(cfg.id.len(), 36);
    assert_eq!(cfg.id.as_bytes()[14], b'4');
    assert!(matches!(cfg.id.as_bytes()[19], b'8' | b'9' | b'a' | b'b'));
    assert!(uuid::Uuid::parse_str(&cfg.id).is_ok());
    assert_eq!(cfg.security_policy, "None");
    assert_eq!(cfg.security_mode, "Sign");
    assert_eq!(cfg.timeout_ms, 5000);
    match &cfg.auth {
        AuthConfig::UserPassword { username, password } => {
            assert_eq!(username, "u");
            assert_eq!(password, "");
        }
        _ => panic!("expected user/password"),
    }
    assert_eq!(info.id, cfg.id);
    assert_eq!(info.auth_type, "UserPassword");
    assert_eq!(info.state, "Disconnected");
    let other_info = create_connection(&mut table, CreateConnectionRequest {
        name: "B".to_string(),
        endpoint_url: "e".to_string(),
        security_policy: None,
        security_mode: None,
        auth_type: None,
        username: None,
        password: None,
        cert_path: None,
        key_path: None,
        timeout_ms: Some(10),
    });
    assert_eq!(table.items.len(), 2);
    let other = table.get(&other_info.id).unwrap();
    assert_ne!(other.id, cfg.id);
    assert_eq!(other.timeout_ms, 10);
    assert_eq!(auth_label(&other.auth), "Anonymous");
    assert_eq!(other_info.auth_type, "Anonymous");
    assert_eq!(table.get(&cfg.id).unwrap().name, "A");
    assert!(matches!(
        auth_from_request(&Some("Certificate".to_string()), None, None, Some("c".to_string()), None),
        AuthConfig::Certificate { .. }
    ));
    assert!(matches!(auth_from_request(&Some("Other".to_string()), None, None, None, None), AuthConfig::Anonymous));
}

#[test]
fn groups_add_remove_delete() {
    let mut gs: Vec<NodeGroup> = Vec::new();
    let dto = create_group(&mut gs, "Boilers".to_string());
    assert_eq!(dto.name, "Boilers");
    assert_eq!(dto.node_count, 0);
    assert_eq!(gs.len(), 1);
    let id = dto.id.clone();
    assert_eq!(
        add_nodes_to_group(&mut gs, "missing", vec!["a".to_string()]),
        Err("Group not found".to_string())
    );
    add_nodes_to_group(&mut gs, &id, vec!["a".to_string(), "b".to_string(), "a".to_string()]).unwrap();
    assert_eq!(gs[0].node_ids, vec!["a".to_string(), "b".to_string()]);
    add_nodes_to_group(&mut gs, &id, vec!["b".to_string(), "c".to_string()]).unwrap();
    assert_eq!(gs[0].node_ids, vec!["a".to_string(), "b".to_string(), "c".to_string()]);
    remove_nodes_from_group(&mut gs, &id, vec!["a".to_string(), "zzz".to_string()]).unwrap();
    assert_eq!(gs[0].node_ids, vec!["b".to_string(), "c".to_string()]);
    assert!(remove_nodes_from_group(&mut gs, "nope", vec![]).is_err());
    let listed = list_groups(&gs);
    assert_eq!(listed.len(), 1);
    assert_eq!(listed[0].node_count, 2);
    let d = group_to_dto(&gs[0]);
    assert_eq!(d.node_ids, gs[0].node_ids);
    delete_group(&mut gs, &id);
    assert!(gs.is_empty());
}

#[test]
fn connections_are_listed_by_name_stably() {
    let sorted = sort_connections_by_name(vec![conn("1", "b"), conn("2", "a"), conn("3", "b"), conn("4", "A")]);
    let ids: Vec<&str> = sorted.iter().map(|c| c.id.as_str()).collect();
    assert_eq!(ids, vec!["4", "2", "1", "3"]);
}

#[test]
fn connection_events() {
    let list = vec![conn("1", "a"), conn("2", "b")];
    assert_eq!(keep_selected_conn(Some("2".to_string()), &list), Some("2".to_string()));
    assert_eq!(keep_selected_conn(Some("9".to_string()), &list), None);
    assert_eq!(keep_selected_conn(None, &list), None);
    let mut conns = list.clone();
    set_connection_state(&mut conns, "2", "Connected".to_string());
    assert_eq!(conns[1].state, "Connected");
    assert_eq!(conns[0].state, "Disconnected");
    set_connection_state(&mut conns, "9", "Connected".to_string());
    assert_eq!(conns[0].state, "Disconnected");
}

#[test]
fn value_panel_requests() {
    let mut vp = ValuePanelState::default();
    vp.last_result = Some("old".to_string());
    begin_read(&mut vp, 5);
    assert_eq!(vp.pending_read_req, Some(5));
    assert_eq!(vp.last_result, None);
    apply_node_attrs(&mut vp, 4, attrs("n"));
    assert_eq!(vp.pending_read_req, Some(5));
    assert!(vp.attrs.is_some());
    apply_node_attrs(&mut vp, 5, attrs("n"));
    assert_eq!(vp.pending_read_req, None);
    begin_write(&mut vp, 6);
    assert_eq!(vp.pending_write_req, Some(6));
    vp.write_value = "1.5".to_string();
    assert!(!write_enabled(&vp, "Double"));
    apply_write_ok(&mut vp, 7);
    assert_eq!(vp.pending_write_req, Some(6));
    apply_write_ok(&mut vp, 6);
    assert_eq!(vp.pending_write_req, None);
    assert!(write_enabled(&vp, "Double"));
    assert!(!write_enabled(&vp, "Int32"));
    vp.write_value = "  ".to_string();
    assert!(!write_enabled(&vp, "String"));
    reset_for_new_focus(&mut vp);
    assert!(vp.attrs.is_none());
    assert!(vp.write_value.is_empty());
    assert!(is_writable(2));
    assert!(is_writable(3));
    assert!(!is_writable(1));
}

#[test]
fn method_call_dialog_flow() {
    let mut st = MethodCallState::new("c".to_string(), "obj".to_string(), "m".to_string(), "Start".to_string());
    assert_eq!(st.conn_id, "c");
    assert!(st.pending_args_req.is_none() && st.input_values.is_empty());
    st.pending_args_req = Some(3);
    apply_method_args(&mut st, 2, vec![arg("x", "Int32")], vec![]);
    assert!(st.inputs_meta.is_empty());
    apply_method_args(&mut st, 3, vec![arg("x", "Int32"), arg("on", "Boolean"), arg("s", "String")], vec![arg("out", "Double")]);
    assert_eq!(st.pending_args_req, None);
    assert_eq!(st.input_values, vec!["0".to_string(), "false".to_string(), String::new()]);
    st.input_values = vec!["1".to_string()];
    sync_input_values(&mut st);
    assert_eq!(st.input_values.len(), 3);
    st.input_values[0] = "7".to_string();
    let args: Vec<(String, String)> = call_args(&st).into_iter().map(|a| (a.data_type, a.value)).collect();
    assert_eq!(args[0], ("Int32".to_string(), "7".to_string()));
    assert_eq!(args.len(), 3);
    begin_call(&mut st, 9);
    assert_eq!(st.pending_call_req, Some(9));
    apply_method_result(&mut st, 8, "Bad".to_string(), vec![]);
    assert_eq!(st.pending_call_req, Some(9));
    apply_method_result(
        &mut st,
        9,
        "Good".to_string(),
        vec![MethodArgValue { data_type: "Double".to_string(), value: "2.5".to_string() }],
    );
    assert_eq!(st.last_result_status, Some("Good".to_string()));
    assert_eq!(st.last_result_outputs.len(), 1);
    assert_eq!(output_name(&st, 0), "out");
    assert_eq!(output_name(&st, 12), "[12]");
}

#[test]
fn certificate_dialog_flow() {
    let mut st = CertManagerState::default();
    st.selected_path = Some("x".to_string());
    begin_cert_refresh(&mut st, 1, 2);
    assert_eq!(st.selected_path, None);
    apply_cert_list(&mut st, 2, CertRoleDto::Trusted, vec![cert("t")]);
    assert!(st.trusted.is_empty());
    apply_cert_list(&mut st, 1, CertRoleDto::Trusted, vec![cert("t")]);
    assert_eq!(st.trusted.len(), 1);
    assert_eq!(st.pending_trusted_req, None);
    apply_cert_list(&mut st, 2, CertRoleDto::Rejected, vec![cert("r1"), cert("r2")]);
    assert_eq!(st.rejected.len(), 2);
    assert_eq!(move_target(CertRoleDto::Trusted), ("→ 拒绝", CertRoleDto::Rejected));
    assert_eq!(move_target(CertRoleDto::Rejected), ("→ 信任", CertRoleDto::Trusted));
}

#[test]
fn browse_tree_flow() {
    let mut t = BrowseState::default();
    assert!(!t.open);
    assert_eq!(f64::from_bits(t.interval_ms_bits), 1000.0);
    assert_eq!(t.access_mode, "Subscription");
    assert!(t.current_filter_req().is_none());
    t.begin_browse_root("c1".to_string(), 1);
    assert!(t.pending.contains(&1) && t.pending.len() == 1);
    t.apply_browse_result(1, None, vec![item("Objects"), item("Types")]);
    assert!(t.pending.is_empty());
    assert!(t.root_loaded);
    assert_eq!(t.roots, vec!["Objects".to_string(), "Types".to_string()]);
    t.begin_browse_node("Objects", 2);
    assert!(t.nodes.get("Objects").unwrap().loading);
    t.apply_browse_result(2, Some("Objects".to_string()), vec![item("Pump"), item("Valve")]);
    let st = t.nodes.get("Objects").unwrap();
    assert!(!st.loading && st.expanded);
    assert_eq!(st.children, Some(vec!["Pump".to_string(), "Valve".to_string()]));
    assert_eq!(t.find_parent_object("Valve"), Some("Objects".to_string()));
    assert_eq!(t.find_parent_object("Nowhere"), None);
    t.toggle_selection("Pump", true);
    assert!(t.selected.get("Pump").is_some());
    t.toggle_selection("Pump", false);
    assert!(t.selected.get("Pump").is_none());
    assert!(t.open);
    t.toggle_selection("Pump", true);
    t.toggle_selection("Valve", true);
    t.toggle_selection("Unknown", true);
    t.filter_enabled = true;
    t.deadband_kind = DeadbandKindReq::Absolute;
    t.deadband_value_bits = 0.5f64.to_bits();
    let mut reqs = t.selected_node_requests();
    reqs.sort_by(|a, b| a.node_id.cmp(&b.node_id));
    assert_eq!(reqs.len(), 2);
    assert_eq!(reqs[0].node_id, "Pump");
    assert_eq!(reqs[1].node_id, "Valve");
    assert_eq!(reqs[0].access_mode, "Subscription");
    let f = reqs[0].filter.unwrap();
    assert_eq!(f.trigger, DataChangeTriggerKindReq::StatusValue);
    assert_eq!(f.deadband_kind, DeadbandKindReq::Absolute);
    assert_eq!(f64::from_bits(f.deadband_value_bits), 0.5);
    assert!(t.selected.items.is_empty());
    assert_eq!(node_class_icon("Method"), "⚙");
    assert_eq!(node_class_icon("Object"), "📁");
    assert_eq!(node_class_icon("Variable"), "🔢");
    assert_eq!(node_class_icon("View"), "•");
}

#[test]
fn dialog_requests_become_configurations() {
    let cfg = config_from_req(CreateConnectionReq {
        name: "Line".to_string(),
        endpoint_url: "opc.tcp://plc:4840".to_string(),
        security_policy: "Basic256Sha256".to_string(),
        security_mode: "SignAndEncrypt".to_string(),
        auth: AuthKindReq::Certificate { cert_path: "c.der".to_string(), key_path: "k.pem".to_string() },
        timeout_ms: 2500,
    });
    assert!(uuid::Uuid::parse_str(&cfg.id).is_ok());
    assert_eq!(cfg.id.as_bytes()[14], b'4');
    assert_eq!(cfg.name, "Line");
    assert_eq!(cfg.security_policy, "Basic256Sha256");
    assert_eq!(cfg.timeout_ms, 2500);
    match cfg.auth {
        AuthConfig::Certificate { cert_path, key_path } => {
            assert_eq!(cert_path, "c.der");
            assert_eq!(key_path, "k.pem");
        }
        _ => panic!("expected certificate"),
    }
    assert!(matches!(auth_from_req(AuthKindReq::Anonymous), AuthConfig::Anonymous));
}

#[test]
fn fresh_toasts_are_kept_by_a_second_sweep() {
    let mut ts: Vec<Toast> = Vec::new();
    for (i, at) in [100u64, 2_000, 4_500].iter().enumerate() {
        push_toast(&mut ts, ToastLevel::Warn, format!("t{i}"), *at);
    }
    retain_fresh_toasts(&mut ts, 4_200);
    let once: Vec<String> = ts.iter().map(|t| t.message.clone()).collect();
    retain_fresh_toasts(&mut ts, 4_200);
    let twice: Vec<String> = ts.iter().map(|t| t.message.clone()).collect();
    assert_eq!(once, vec!["t1".to_string(), "t2".to_string()]);
    assert_eq!(once, twice);
}

#[test]
fn adding_the_same_ids_twice_changes_nothing() {
    let mut gs: Vec<NodeGroup> = Vec::new();
    let id = create_group(&mut gs, "G".to_string()).id;
    let ids = vec!["x".to_string(), "y".to_string(), "x".to_string()];
    add_nodes_to_group(&mut gs, &id, ids.clone()).unwrap();
    let once = gs[0].node_ids.clone();
    add_nodes_to_group(&mut gs, &id, ids).unwrap();
    assert_eq!(gs[0].node_ids, once);
    assert_eq!(once, vec!["x".to_string(), "y".to_string()]);
}

#[test]
fn blank_log_search_lists_every_row() {
    let mut st = LogState::default();
    st.append_entries("c".to_string(), vec![row(1, "Request", "A", ""), row(2, "Response", "B", "")]);
    st.search = "   ".to_string();
    st.ensure_filter("c");
    assert_eq!(st.filtered_cache, vec![0, 1]);
}

#[test]
fn dialog_confirm_sends_or_shows_the_problem() {
    let mut d = ConnDialogState::default();
    d.name = "  Plant ".to_string();
    let req = d.confirm().unwrap();
    assert_eq!(req.name, "Plant");
    assert_eq!(req.endpoint_url, "opc.tcp://localhost:4840");
    assert!(d.error.is_none());
    assert_eq!(d.name, "  Plant ");
    d.endpoint_url = "   ".to_string();
    assert!(d.confirm().is_none());
    assert_eq!(d.error.as_deref(), Some("Endpoint URL 不能为空"));
    assert_eq!(d.name, "  Plant ");
}

#[test]
fn loaded_project_replaces_the_connection_table() {
    let mut table = ConnMap::new();
    let _ = create_connection(
        &mut table,
        CreateConnectionRequest {
            name: "old".to_string(),
            endpoint_url: "e".to_string(),
            security_policy: None,
            security_mode: None,
            auth_type: None,
            username: None,
            password: None,
            cert_path: None,
            key_path: None,
            timeout_ms: None,
        },
    );
    let entries = vec![
        ConnectionProjectEntry {
            name: "A".to_string(),
            endpoint_url: "opc.tcp://a".to_string(),
            security_policy: "Basic256".to_string(),
            security_mode: "Sign".to_string(),
            auth: AuthConfig::UserPassword { username: "u".to_string(), password: "p".to_string() },
            timeout_ms: 700,
        },
        ConnectionProjectEntry {
            name: "B".to_string(),
            endpoint_url: "opc.tcp://b".to_string(),
            security_policy: "None".to_string(),
            security_mode: "None".to_string(),
            auth: AuthConfig::Anonymous,
            timeout_ms: 5000,
        },
    ];
    let ids = load_connections(&mut table, &entries);
    assert_eq!(ids.len(), 2);
    assert_eq!(table.items.len(), 2);
    let a = table.get(&ids[0]).unwrap();
    assert_eq!(a.id, ids[0]);
    assert_eq!(a.name, "A");
    assert_eq!(a.security_policy, "Basic256");
    assert_eq!(a.timeout_ms, 700);
    match &a.auth {
        AuthConfig::UserPassword { username, password } => assert_eq!((username.as_str(), password.as_str()), ("u", "p")),
        _ => panic!("auth lost"),
    }
    assert_eq!(table.get(&ids[1]).unwrap().name, "B");
    assert!(ids.iter().all(|i| i.len() == 36 && i.as_bytes()[14] == b'4'));
}
