use opcuasim::server::{remove_node_entries, update_node_entry, NodeEntry, NodeUpdate};
use opcuasim::server::{ServerEvent, ServerModel};
use opcuasim::server::{folder_request, push_toast, retain_fresh_toasts, subfolder_request, Toast, ToastLevel};
use opcuasim::conn_map::ConnMap;
use opcuasim::history::{active_quick_range, awaiting_tab, quick_range_for, HistoryWait};
use opcuasim::master_events::MonitoredRow;
use opcuasim::monitor::MonitorState;
use opcuasim::polling::{MonitorFetch, SeqTracker};
use opcuasim::server::{
    apply_sim_values, displayed_value, form_node_id, initial_server_status, node_id_for_name, remove_folder_rows,
    sim_label, sim_tick, status_changed, subfolder_node_id, FolderRow, ServerStatus, SimKind,
};
use opcuasim::server_app::{folder_dtos, simulation_data};

fn mrow(id: &str, name: &str, value: Option<&str>) -> MonitoredRow {
    MonitoredRow {
        node_id: id.to_string(),
        display_name: name.to_string(),
        data_type: "Double".to_string(),
        value: value.map(|v| v.to_string()),
        quality: Some("Good".to_string()),
        source_timestamp: None,
        server_timestamp: None,
        access_mode: "Subscription".to_string(),
        interval_ms_bits: 1000.0f64.to_bits(),
        update_seq: 1,
        user_access_level: 3,
    }
}

fn ids(m: &MonitorState, conn: &str) -> Vec<String> {
    let mut out = Vec::new();
    if let Some(per) = m.per_conn.get(conn) {
        for (k, _) in per.rows.iter() {
            out.push(k.clone());
        }
    }
    out
}

fn folder(id: &str, parent: &str) -> FolderRow {
    FolderRow { node_id: id.to_string(), display_name: id.to_string(), parent_id: parent.to_string() }
}

#[test]
fn snapshots_update_in_place_and_append() {
    let mut m = MonitorState::default();
    m.apply_monitored_snapshot("c", 1, true, vec![mrow("a", "A", Some("1")), mrow("b", "B", Some("2"))]);
    assert_eq!(ids(&m, "c"), vec!["a", "b"]);
    assert!(m.filter_dirty);
    m.apply_monitored_snapshot("c", 2, false, vec![mrow("c", "C", None), mrow("a", "A", Some("9"))]);
    assert_eq!(ids(&m, "c"), vec!["a", "b", "c"]);
    assert_eq!(m.row_of("c", "a").unwrap().value.as_deref(), Some("9"));
    assert_eq!(m.per_conn.get("c").unwrap().seq, 2);
    m.apply_monitored_snapshot("c", 3, true, vec![mrow("b", "B", Some("5")), mrow("b", "B", Some("6"))]);
    assert_eq!(ids(&m, "c"), vec!["b"]);
    assert_eq!(m.row_of("c", "b").unwrap().value.as_deref(), Some("6"));
    assert!(m.row_of("c", "a").is_none());
    assert!(m.row_of("other", "b").is_none());
}

#[test]
fn monitor_search_filter() {
    let mut m = MonitorState::default();
    m.apply_monitored_snapshot(
        "c",
        1,
        true,
        vec![mrow("ns=2;s=Temp", "Temperature", Some("21.5")), mrow("ns=2;s=Pres", "Pressure", None), mrow("ns=2;s=Flow", "Flow", Some("TEMP-OK"))],
    );
    assert_eq!(m.ensure_filter("c").to_vec(), vec!["ns=2;s=Temp", "ns=2;s=Pres", "ns=2;s=Flow"]);
    m.search = "  temp ".to_string();
    assert_eq!(m.ensure_filter("c").to_vec(), vec!["ns=2;s=Temp", "ns=2;s=Flow"]);
    m.search = "sure".to_string();
    assert_eq!(m.ensure_filter("c").to_vec(), vec!["ns=2;s=Pres"]);
    m.search = "21.5".to_string();
    assert_eq!(m.ensure_filter("c").to_vec(), vec!["ns=2;s=Temp"]);
    m.search = "ure flow".to_string();
    assert!(m.ensure_filter("c").is_empty());
    m.search = "pres pressure".to_string();
    assert_eq!(m.ensure_filter("c").to_vec(), vec!["ns=2;s=Pres"]);
    assert_eq!(m.last_search_for_filter, "pres pressure");
    assert_eq!(m.last_conn_for_filter.as_deref(), Some("c"));
    assert!(m.ensure_filter("nobody").is_empty());
}

#[test]
fn monitor_filter_is_cached_until_dirty() {
    let mut m = MonitorState::default();
    m.apply_monitored_snapshot("c", 1, true, vec![mrow("a", "A", None)]);
    m.ensure_filter("c");
    m.filtered_cache = vec!["stale".to_string()];
    assert_eq!(m.ensure_filter("c").to_vec(), vec!["stale"]);
    m.filter_dirty = true;
    assert_eq!(m.ensure_filter("c").to_vec(), vec!["a"]);
}

#[test]
fn row_clicks_select_toggle_and_ranges() {
    let mut m = MonitorState::default();
    m.filtered_cache = vec!["a".to_string(), "b".to_string(), "c".to_string(), "d".to_string()];
    m.apply_row_click(1, "b".to_string(), false, false);
    assert_eq!(m.focused_row.as_deref(), Some("b"));
    assert_eq!(m.last_clicked_filtered_idx, Some(1));
    assert!(m.selected_rows.get("b").is_some());
    m.apply_row_click(3, "d".to_string(), false, true);
    assert_eq!(m.last_clicked_filtered_idx, Some(1));
    for id in ["b", "c", "d"] {
        assert!(m.selected_rows.get(id).is_some(), "{id}");
    }
    assert!(m.selected_rows.get("a").is_none());
    m.apply_row_click(0, "a".to_string(), true, false);
    assert!(m.selected_rows.get("a").is_some());
    assert_eq!(m.last_clicked_filtered_idx, Some(0));
    m.apply_row_click(0, "a".to_string(), true, false);
    assert!(m.selected_rows.get("a").is_none());
    m.apply_row_click(2, "c".to_string(), false, false);
    assert_eq!(m.selected_rows.items.len(), 1);
    let mut fresh = MonitorState::default();
    fresh.filtered_cache = vec!["x".to_string()];
    fresh.apply_row_click(0, "x".to_string(), false, true);
    assert!(fresh.selected_rows.get("x").is_some());
    assert_eq!(fresh.last_clicked_filtered_idx, None);
}

#[test]
fn removing_selected_rows_keeps_the_others_in_order() {
    let mut m = MonitorState::default();
    m.apply_monitored_snapshot("c", 1, true, vec![mrow("a", "A", None), mrow("b", "B", None), mrow("c", "C", None), mrow("d", "D", None)]);
    m.filtered_cache = ids(&m, "c");
    m.apply_row_click(1, "b".to_string(), false, false);
    m.apply_row_click(3, "d".to_string(), true, false);
    let mut removed = m.remove_selected_rows("c");
    removed.sort();
    assert_eq!(removed, vec!["b", "d"]);
    assert_eq!(ids(&m, "c"), vec!["a", "c"]);
    assert!(m.selected_rows.items.is_empty());
    assert!(m.filter_dirty);
}

#[test]
fn value_panel_detail_node() {
    let mut m = MonitorState::default();
    assert_eq!(m.detail_node(), None);
    m.filtered_cache = vec!["a".to_string(), "b".to_string()];
    m.apply_row_click(0, "a".to_string(), false, false);
    assert_eq!(m.detail_node().as_deref(), Some("a"));
    m.apply_row_click(1, "b".to_string(), true, false);
    assert_eq!(m.detail_node(), None);
    m.focused_row = None;
    m.apply_row_click(1, "b".to_string(), true, false);
    m.focused_row = None;
    assert_eq!(m.detail_node().as_deref(), Some("a"));
}

#[test]
fn quick_ranges() {
    assert_eq!(quick_range_for(0, 300), Some(300));
    assert_eq!(quick_range_for(1000, 1062), Some(60));
    assert_eq!(quick_range_for(0, 63), None);
    assert_eq!(quick_range_for(100, 100 + 86398), Some(86400));
    assert_eq!(quick_range_for(0, 0), None);
    assert_eq!(quick_range_for(i64::MAX, i64::MIN), None);
    assert_eq!(active_quick_range("2024-01-01T00:00:00Z", "2024-01-01T00:05:00Z"), Some(300));
    assert_eq!(active_quick_range("2024-01-01T00:00:00+08:00", "2024-01-01T01:00:01+08:00"), Some(3600));
    assert_eq!(active_quick_range("2024-01-01T00:00:00Z", "2024-01-01T00:07:00Z"), None);
    assert_eq!(active_quick_range("not a time", "2024-01-01T00:05:00Z"), None);
}

#[test]
fn monitor_poll_decisions() {
    let mut t = SeqTracker::new();
    assert_eq!(t.last_for("c"), 0);
    assert_eq!(t.monitor_fetch("c", 0), MonitorFetch::Skip);
    assert_eq!(t.monitor_fetch("c", 5), MonitorFetch::All);
    assert!(t.monitor_fetched("c", 5, true, 0));
    assert_eq!(t.last_for("c"), 5);
    assert_eq!(t.monitor_fetch("c", 5), MonitorFetch::Skip);
    assert_eq!(t.monitor_fetch("c", 8), MonitorFetch::Since(5));
    assert!(!t.monitor_fetched("c", 8, false, 0));
    assert_eq!(t.monitor_fetch("c", 8), MonitorFetch::Skip);
    assert!(t.monitor_fetched("c", 9, false, 2));
    t.record("d", 3);
    assert_eq!(t.last_for("d"), 3);
    assert_eq!(t.last_for("c"), 9);
}

#[test]
fn log_poll_records_newest_entry() {
    let mut t = SeqTracker::new();
    assert!(!t.log_fetched("c", &vec![]));
    assert_eq!(t.last_for("c"), 0);
    assert!(t.log_fetched("c", &vec![4, 9, 7]));
    assert_eq!(t.last_for("c"), 9);
    assert!(!t.log_fetched("c", &vec![]));
    assert_eq!(t.last_for("c"), 9);
    assert!(t.log_fetched("c", &vec![10]));
    assert_eq!(t.last_for("c"), 10);
    assert_eq!(t.last_for("d"), 0);
}

#[test]
fn server_status_and_ticks() {
    let s = initial_server_status();
    assert_eq!(s.state, "Stopped");
    assert_eq!(s.endpoint_url, "opc.tcp://0.0.0.0:4840");
    assert!(status_changed(&None, &s));
    assert!(!status_changed(&Some(s.clone()), &s));
    let mut t = s.clone();
    t.node_count = 3;
    assert!(status_changed(&Some(s.clone()), &t));
    let other = ServerStatus { state: "Running".to_string(), ..s.clone() };
    assert!(status_changed(&Some(s), &other));
    let mut last = 0u64;
    assert!(!sim_tick(&mut last, 0, 4));
    assert!(!sim_tick(&mut last, 3, 0));
    assert_eq!(last, 0);
    assert!(sim_tick(&mut last, 3, 2));
    assert_eq!(last, 3);
}

#[test]
fn server_node_ids_and_labels() {
    assert_eq!(node_id_for_name("Tank Level"), "ns=2;s=Tank_Level");
    assert_eq!(subfolder_node_id("ns=2;s=Plant", "Line 1"), "ns=2;s=ns=2;s=Plant_Line_1");
    assert_eq!(subfolder_node_id("a:b", "c"), "ns=2;s=a_b_c");
    assert_eq!(form_node_id("  ns=2;s=X ", "ignored"), "ns=2;s=X");
    assert_eq!(form_node_id("   ", "New Var"), "ns=2;s=New_Var");
    assert_eq!(sim_label(SimKind::Static), "Static");
    assert_eq!(sim_label(SimKind::Random), "Random");
    assert_eq!(sim_label(SimKind::Sine), "Sine");
    assert_eq!(sim_label(SimKind::Linear), "Linear");
    assert_eq!(sim_label(SimKind::Script), "Script");
}

#[test]
fn folder_removal_and_reporting() {
    let mut fs = vec![folder("A", "Objects"), folder("B", "A"), folder("C", "B"), folder("D", "Objects")];
    remove_folder_rows(&mut fs, "A");
    let left: Vec<&str> = fs.iter().map(|f| f.node_id.as_str()).collect();
    assert_eq!(left, vec!["C", "D"]);
    let dtos = folder_dtos(&fs);
    assert_eq!(dtos.len(), 2);
    assert_eq!(dtos[0].node_id, "C");
    assert_eq!(dtos[0].parent_id, "B");
}

#[test]
fn simulated_values() {
    let mut vals: ConnMap<String> = ConnMap::new();
    apply_sim_values(
        &mut vals,
        vec![("n1".to_string(), "1".to_string()), ("n2".to_string(), "2".to_string()), ("n1".to_string(), "3".to_string())],
    );
    assert_eq!(vals.get("n1").map(|s| s.as_str()), Some("3"));
    assert_eq!(displayed_value(&vals, "n2", &None), "2");
    assert_eq!(displayed_value(&vals, "n9", &Some("stored".to_string())), "stored");
    assert_eq!(displayed_value(&vals, "n9", &None), "—");
    let d = simulation_data(Some((vec![("n1".to_string(), "7".to_string())], 12)));
    assert_eq!(d.seq, 12);
    assert_eq!(d.values.len(), 1);
    assert_eq!(d.values[0].node_id, "n1");
    assert_eq!(d.values[0].value, "7");
    let none = simulation_data(None);
    assert_eq!(none.seq, 0);
    assert!(none.values.is_empty());
}

#[test]
fn server_folder_requests_and_toasts() {
    assert_eq!(folder_request("  "), None);
    assert_eq!(folder_request(" Line 2 "), Some(("ns=2;s=Line_2".to_string(), "Line 2".to_string())));
    assert_eq!(subfolder_request("Objects", ""), None);
    assert_eq!(
        subfolder_request("ns=2;s=A:B", " Sub dir "),
        Some(("ns=2;s=ns=2;s=A_B_Sub_dir".to_string(), "Sub dir".to_string()))
    );
    let mut ts: Vec<Toast> = Vec::new();
    push_toast(&mut ts, ToastLevel::Info, "started".to_string(), 10_000);
    push_toast(&mut ts, ToastLevel::Error, "failed".to_string(), 12_000);
    retain_fresh_toasts(&mut ts, 14_000);
    assert_eq!(ts.len(), 1);
    assert_eq!(ts[0].message, "failed");
    assert_eq!(ts[0].level, ToastLevel::Error);
}

#[test]
fn search_uses_unicode_lower_case() {
    let mut m = MonitorState::default();
    m.apply_monitored_snapshot("c", 1, true, vec![mrow("n1", "ΣΑΣ", None), mrow("n2", "Ab", None)]);
    m.search = "σας".to_string();
    assert_eq!(m.ensure_filter("c").to_vec(), vec!["n1"]);
    m.search = "AB".to_string();
    assert_eq!(m.ensure_filter("c").to_vec(), vec!["n2"]);
}

#[test]
fn server_model_events() {
    let mut m = ServerModel::new();
    assert_eq!(m.status.state, "Stopped");
    m.apply_event(
        ServerEvent::Status(ServerStatus {
            state: "Running".to_string(),
            node_count: 2,
            folder_count: 1,
            endpoint_url: "opc.tcp://0.0.0.0:4840".to_string(),
        }),
        1,
    );
    assert_eq!(m.status.state, "Running");
    m.apply_event(
        ServerEvent::SimValues {
            seq: 9,
            values: vec![("a".to_string(), "1".to_string()), ("a".to_string(), "2".to_string())],
        },
        2,
    );
    assert_eq!(m.last_sim_seq, 9);
    assert_eq!(m.current_values.get("a").map(|s| s.as_str()), Some("2"));
    m.apply_event(ServerEvent::Toast { level: opcuasim::server::ToastLevel::Error, message: "x".to_string() }, 3);
    assert_eq!(m.toasts.len(), 1);
    assert_eq!(m.toasts[0].created_at, 3);
}

#[test]
fn blank_search_lists_every_row() {
    let mut m = MonitorState::default();
    m.apply_monitored_snapshot("c", 1, true, vec![mrow("x", "X", None), mrow("y", "Y", Some("7"))]);
    m.search = " \t ".to_string();
    assert_eq!(m.ensure_filter("c").to_vec(), vec!["x", "y"]);
}

#[test]
fn history_result_goes_to_the_waiting_tab() {
    let w = |req: Option<u64>, node: &str| HistoryWait { pending_req: req, node_id: node.to_string() };
    let tabs = vec![w(None, "a"), w(Some(3), "b"), w(Some(4), "a"), w(Some(4), "a")];
    assert_eq!(awaiting_tab(&tabs, 4, "a"), Some(2));
    assert_eq!(awaiting_tab(&tabs, 3, "b"), Some(1));
    assert_eq!(awaiting_tab(&tabs, 3, "a"), None);
    assert_eq!(awaiting_tab(&tabs, 5, "a"), None);
    assert_eq!(awaiting_tab(&Vec::new(), 1, "a"), None);
}

fn entry(id: &str, parent: &str) -> NodeEntry<&'static str, u8> {
    NodeEntry {
        node_id: id.to_string(),
        display_name: id.to_string(),
        parent_id: parent.to_string(),
        data_type: "Double",
        writable: false,
        simulation: 0,
    }
}

#[test]
fn server_node_list_remove_and_update() {
    let mut nodes = vec![entry("f/a", "f"), entry("g/b", "g"), entry("f", "root"), entry("h/c", "h")];
    remove_node_entries(&mut nodes, "f");
    let ids: Vec<&str> = nodes.iter().map(|n| n.node_id.as_str()).collect();
    assert_eq!(ids, vec!["g/b", "h/c"]);
    let r = update_node_entry(
        &mut nodes,
        "h/c",
        NodeUpdate { display_name: Some("C".to_string()), data_type: None, writable: Some(true), simulation: Some(3) },
    );
    assert_eq!(r, Ok(1));
    assert_eq!(nodes[1].display_name, "C");
    assert_eq!(nodes[1].data_type, "Double");
    assert!(nodes[1].writable);
    assert_eq!(nodes[1].simulation, 3);
    assert_eq!(nodes[0].display_name, "g/b");
    let r = update_node_entry(
        &mut nodes,
        "zz",
        NodeUpdate { display_name: None, data_type: Some("Int32"), writable: None, simulation: None },
    );
    assert_eq!(r, Err("节点 zz 未找到".to_string()));
    assert_eq!(nodes.len(), 2);
}

#[test]
fn log_poller_never_sends_an_entry_twice() {
    let mut t = SeqTracker::new();
    let logs: Vec<Vec<u64>> = vec![vec![], vec![1, 2], vec![1, 2], vec![1, 2, 3, 4], vec![2, 4, 5]];
    let mut sent: Vec<u64> = Vec::new();
    for log in logs {
        let last = t.last_for("c");
        let batch: Vec<u64> = log.into_iter().filter(|s| *s > last).collect();
        if t.log_fetched("c", &batch) {
            assert!(!batch.is_empty());
            sent.extend(batch);
        }
    }
    assert_eq!(sent, vec![1, 2, 3, 4, 5]);
}

#[test]
fn monitor_poller_sends_full_first_then_partial() {
    let mut t = SeqTracker::new();
    let mut fulls: Vec<bool> = Vec::new();
    for (seq, fetched) in [(0u64, 3usize), (4, 3), (4, 3), (6, 0), (7, 2), (9, 1)] {
        let full = match t.monitor_fetch("c", seq) {
            MonitorFetch::Skip => continue,
            MonitorFetch::All => true,
            MonitorFetch::Since(_) => false,
        };
        if t.monitor_fetched("c", seq, full, fetched) {
            fulls.push(full);
        }
    }
    assert_eq!(fulls, vec![true, false, false]);
}
