//! Messages exchanged between the master front end and its backend: the
//! records the backend reports (connections, browse items, attributes,
//! communication-log rows, groups) and the requests the front end builds.

use vstd::prelude::*;

verus! {

/// Severity of a toast notification in the master front end.
#[derive(Debug, Clone, Copy, PartialEq, Eq, Structural)]
pub enum ToastLevel {
    Info,
    Warn,
    Error,
}

/// How a new connection authenticates.
#[derive(Debug, Clone)]
pub enum AuthKindReq {
    Anonymous,
    UserPassword { username: String, password: String },
    Certificate { cert_path: String, key_path: String },
}

/// A validated request to create a connection.
#[derive(Debug, Clone)]
pub struct CreateConnectionReq {
    pub name: String,
    pub endpoint_url: String,
    pub security_policy: String,
    pub security_mode: String,
    pub auth: AuthKindReq,
    pub timeout_ms: u64,
}

/// A connection as listed by the backend.
#[derive(Debug, Clone)]
pub struct ConnectionInfo {
    pub id: String,
    pub name: String,
    pub endpoint_url: String,
    pub security_policy: String,
    pub security_mode: String,
    pub auth_type: String,
    pub state: String,
}

/// One child reference returned by a browse.
#[derive(Debug, Clone)]
pub struct BrowseItem {
    pub node_id: String,
    pub display_name: String,
    pub node_class: String,
    pub data_type: Option<String>,
    pub has_children: bool,
}

/// Attributes read from one node.
#[derive(Debug, Clone)]
pub struct NodeAttrsDto {
    pub node_id: String,
    pub display_name: String,
    pub description: String,
    pub data_type: String,
    pub access_level: String,
    pub value: Option<String>,
    pub quality: Option<String>,
    pub timestamp: Option<String>,
}

/// One entry of a connection's communication log.
#[derive(Debug, Clone)]
pub struct LogRow {
    pub seq: u64,
    /// UTC milliseconds.
    pub timestamp_ms: i64,
    /// `"Request"` or `"Response"`.
    pub direction: String,
    pub service: String,
    pub detail: String,
    pub status: Option<String>,
}

/// The latest sample of one monitored node.
#[derive(Debug, Clone)]
pub struct MonitoredRow {
    pub node_id: String,
    pub display_name: String,
    pub data_type: String,
    pub value: Option<String>,
    pub quality: Option<String>,
    pub source_timestamp: Option<String>,
    pub server_timestamp: Option<String>,
    pub access_mode: String,
    /// Sampling interval in milliseconds, held as the bit pattern of an
    /// IEEE-754 double (`f64::to_bits`); nothing here computes with it.
    pub interval_ms_bits: u64,
    pub update_seq: u64,
    pub user_access_level: u8,
}

/// A named group of node ids.
#[derive(Debug, Clone)]
pub struct NodeGroupDto {
    pub id: String,
    pub name: String,
    pub node_ids: Vec<String>,
}

/// Declared input or output argument of a method.
#[derive(Debug, Clone)]
pub struct MethodArgInfo {
    pub name: String,
    pub data_type: String,
    pub description: String,
}

/// An argument value in text form together with its data type.
#[derive(Debug, Clone)]
pub struct MethodArgValue {
    pub data_type: String,
    pub value: String,
}

/// The two certificate stores of the local PKI.
#[derive(Debug, Clone, Copy, PartialEq, Eq, Structural)]
pub enum CertRoleDto {
    Trusted,
    Rejected,
}

/// Summary of one certificate file; `path` is the file's path in text form.
#[derive(Debug, Clone)]
pub struct CertSummaryDto {
    pub path: String,
    pub file_name: String,
    pub role: CertRoleDto,
    pub thumbprint: String,
    pub subject_cn: String,
    pub issuer_cn: String,
    pub valid_from: String,
    pub valid_to: String,
}

/// Which changes of a monitored value are reported.
#[derive(Debug, Clone, Copy, PartialEq, Eq, Structural)]
pub enum DataChangeTriggerKindReq {
    Status,
    StatusValue,
    StatusValueTimestamp,
}

/// How a numeric value must move before a change is reported.
#[derive(Debug, Clone, Copy, PartialEq, Eq, Structural)]
pub enum DeadbandKindReq {
    /// No deadband (`None` in the wire protocol's terms).
    NoDeadband,
    Absolute,
    Percent,
}

/// The data-change filter asked for a monitored node.
#[derive(Debug, Clone, Copy, PartialEq, Eq, Structural)]
pub struct DataChangeFilterReq {
    pub trigger: DataChangeTriggerKindReq,
    pub deadband_kind: DeadbandKindReq,
    /// The deadband, as the bit pattern of an IEEE-754 double.
    pub deadband_value_bits: u64,
}

/// A node to start monitoring.
#[derive(Debug, Clone)]
pub struct MonitoredNodeReq {
    pub node_id: String,
    pub display_name: String,
    pub data_type: Option<String>,
    /// `"Subscription"` or `"Polling"`.
    pub access_mode: String,
    /// Sampling interval in milliseconds, as the bit pattern of an IEEE-754 double.
    pub interval_ms_bits: u64,
    pub filter: Option<DataChangeFilterReq>,
}

/// What the backend reports to the master front end (the history results,
/// whose samples are floating point, are handled outside the library).
pub enum BackendEvent {
    Connections(Vec<ConnectionInfo>),
    ConnectionStateChanged { id: String, state: String },
    BrowseResult { req_id: u64, parent: Option<String>, items: Vec<BrowseItem> },
    MonitoredSnapshot { conn_id: String, seq: u64, full: bool, nodes: Vec<MonitoredRow> },
    NodeAttrs { req_id: u64, attrs: NodeAttrsDto },
    WriteOk { req_id: u64, node_id: String },
    CommLogEntries { conn_id: String, entries: Vec<LogRow> },
    LogsCleared { conn_id: String },
    Groups(Vec<NodeGroupDto>),
    MethodArgs { req_id: u64, inputs: Vec<MethodArgInfo>, outputs: Vec<MethodArgInfo> },
    MethodCallResult { req_id: u64, status: String, outputs: Vec<MethodArgValue> },
    CertificateList { req_id: u64, role: CertRoleDto, certs: Vec<CertSummaryDto> },
    Toast { level: ToastLevel, message: String },
}

} // verus!
