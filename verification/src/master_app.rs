//! Connection, browse and attribute records exchanged with the master's
//! command front end, and the rules that turn a connection request into a
//! connection configuration.

use vstd::prelude::*;

use crate::conn_map::ConnMap;
use crate::ids;
use crate::master_events::{AuthKindReq, CreateConnectionReq};

verus! {

/// A request to create a connection; absent fields take defaults.
pub struct CreateConnectionRequest {
    pub name: String,
    pub endpoint_url: String,
    pub security_policy: Option<String>,
    pub security_mode: Option<String>,
    pub auth_type: Option<String>,
    pub username: Option<String>,
    pub password: Option<String>,
    pub cert_path: Option<String>,
    pub key_path: Option<String>,
    pub timeout_ms: Option<u64>,
}

/// How a configured connection authenticates.
#[derive(Debug, Clone)]
pub enum AuthConfig {
    Anonymous,
    UserPassword { username: String, password: String },
    Certificate { cert_path: String, key_path: String },
}

/// The configuration of one connection.
#[derive(Debug, Clone)]
pub struct ConnectionConfig {
    pub id: String,
    pub name: String,
    pub endpoint_url: String,
    pub security_policy: String,
    pub security_mode: String,
    pub auth: AuthConfig,
    pub timeout_ms: u64,
}

/// A connection as reported to the front end.
pub struct ConnectionInfoDto {
    pub id: String,
    pub name: String,
    pub endpoint_url: String,
    pub security_policy: String,
    pub security_mode: String,
    pub auth_type: String,
    pub state: String,
}

/// One browse result.
pub struct BrowseResultDto {
    pub node_id: String,
    pub display_name: String,
    pub node_class: String,
    pub data_type: Option<String>,
    pub has_children: bool,
}

/// A group as listed: its id, name and how many nodes it holds.
pub struct NodeGroupDto {
    pub id: String,
    pub name: String,
    pub node_count: usize,
}

/// Notification that a connection changed state.
pub struct ConnectionStateEvent {
    pub id: String,
    pub state: String,
}

/// Notification of changed values on one connection.
pub struct DataChangedEvent {
    pub connection_id: String,
    pub items: Vec<DataChangeItemDto>,
}

/// One changed value.
pub struct DataChangeItemDto {
    pub node_id: String,
    pub value: String,
    pub quality: String,
    pub timestamp: String,
}

/// Attributes of one node.
pub struct NodeAttributesDto {
    pub node_id: String,
    pub display_name: String,
    pub description: String,
    pub data_type: String,
    pub access_level: String,
    pub value: Option<String>,
    pub quality: Option<String>,
    pub timestamp: Option<String>,
}

/// The text of `o`, or the empty text when absent.
pub open spec fn text_or_empty(o: Option<String>) -> Seq<char> {
    match o {
        Some(s) => s@,
        None => Seq::empty(),
    }
}

/// The text of `o`, or `"None"` when absent.
pub open spec fn text_or_none_word(o: Option<String>) -> Seq<char> {
    match o {
        Some(s) => s@,
        None => "None"@,
    }
}

/// The authentication asked for by auth type `t` and the given credentials:
/// user/password for `UserPassword`, certificate for `Certificate`,
/// anonymous otherwise; absent credentials count as empty.
pub open spec fn auth_matches(
    t: Option<String>,
    username: Option<String>,
    password: Option<String>,
    cert_path: Option<String>,
    key_path: Option<String>,
    a: AuthConfig,
) -> bool {
    if t matches Some(t) && t@ == "UserPassword"@ {
        a matches AuthConfig::UserPassword { username: u, password: p } && u@ == text_or_empty(
            username,
        ) && p@ == text_or_empty(password)
    } else if t matches Some(t) && t@ == "Certificate"@ {
        a matches AuthConfig::Certificate { cert_path: c, key_path: k } && c@ == text_or_empty(
            cert_path,
        ) && k@ == text_or_empty(key_path)
    } else {
        a is Anonymous
    }
}

/// Certificate authentication takes its certificate path from the request's
/// certificate path and its key path from the request's key path (absent
/// ones empty), whatever the user name and password are.
pub proof fn lemma_certificate_paths_from_same_fields(
    t: String,
    username: Option<String>,
    password: Option<String>,
    cert_path: Option<String>,
    key_path: Option<String>,
    a: AuthConfig,
)
    requires
        t@ == "Certificate"@,
        auth_matches(Some(t), username, password, cert_path, key_path, a),
    ensures
        a matches AuthConfig::Certificate { cert_path: c, key_path: k } && c@ == text_or_empty(cert_path)
            && k@ == text_or_empty(key_path),
        cert_path matches Some(cp) ==> a matches AuthConfig::Certificate { cert_path: c, .. } && c@ == cp@,
        key_path matches Some(kp) ==> a matches AuthConfig::Certificate { key_path: k, .. } && k@ == kp@,
{
    reveal_strlit("Certificate");
    reveal_strlit("UserPassword");
    assert("Certificate"@[0] != "UserPassword"@[0]);
}

/// User/password authentication takes its user name from the request's user
/// name and its password from the request's password (absent ones empty),
/// whatever the certificate paths are.
pub proof fn lemma_user_credentials_from_same_fields(
    t: String,
    username: Option<String>,
    password: Option<String>,
    cert_path: Option<String>,
    key_path: Option<String>,
    a: AuthConfig,
)
    requires
        t@ == "UserPassword"@,
        auth_matches(Some(t), username, password, cert_path, key_path, a),
    ensures
        a matches AuthConfig::UserPassword { username: u, password: p } && u@ == text_or_empty(username)
            && p@ == text_or_empty(password),
        username matches Some(un) ==> a matches AuthConfig::UserPassword { username: u, .. } && u@ == un@,
        password matches Some(pw) ==> a matches AuthConfig::UserPassword { password: p, .. } && p@ == pw@,
{
}

/// Two requests that differ only in the key path give the same certificate
/// path, and two that differ only in the certificate path give the same key
/// path: each path is read from its own field.
pub proof fn lemma_certificate_paths_independent(
    t: String,
    u: Option<String>,
    p: Option<String>,
    c1: Option<String>,
    k1: Option<String>,
    c2: Option<String>,
    k2: Option<String>,
    a1: AuthConfig,
    a2: AuthConfig,
)
    requires
        t@ == "Certificate"@,
        auth_matches(Some(t), u, p, c1, k1, a1),
        auth_matches(Some(t), u, p, c2, k2, a2),
    ensures
        text_or_empty(c1) == text_or_empty(c2) ==> (a1 matches AuthConfig::Certificate { cert_path: x, .. }
            && a2 matches AuthConfig::Certificate { cert_path: y, .. } && x@ == y@),
        text_or_empty(k1) == text_or_empty(k2) ==> (a1 matches AuthConfig::Certificate { key_path: x, .. }
            && a2 matches AuthConfig::Certificate { key_path: y, .. } && x@ == y@),
{
    lemma_certificate_paths_from_same_fields(t, u, p, c1, k1, a1);
    lemma_certificate_paths_from_same_fields(t, u, p, c2, k2, a2);
}

/// The authentication a request asks for.
pub open spec fn requested_auth_config(req: CreateConnectionRequest, a: AuthConfig) -> bool {
    auth_matches(req.auth_type, req.username, req.password, req.cert_path, req.key_path, a)
}

/// The label of an authentication kind.
pub open spec fn auth_label_of(a: AuthConfig) -> Seq<char> {
    match a {
        AuthConfig::Anonymous => "Anonymous"@,
        AuthConfig::UserPassword { .. } => "UserPassword"@,
        AuthConfig::Certificate { .. } => "Certificate"@,
    }
}

/// The name of the authentication kind of `a`.
pub fn auth_label(a: &AuthConfig) -> (r: &'static str)
    ensures
        r@ == auth_label_of(*a),
{
    match a {
        AuthConfig::Anonymous => "Anonymous",
        AuthConfig::UserPassword { .. } => "UserPassword",
        AuthConfig::Certificate { .. } => "Certificate",
    }
}

fn unwrap_text(o: Option<String>) -> (r: String)
    ensures
        r@ == text_or_empty(o),
{
    match o {
        Some(s) => s,
        None => String::new(),
    }
}

fn unwrap_or_none_word(o: Option<String>) -> (r: String)
    ensures
        r@ == text_or_none_word(o),
{
    match o {
        Some(s) => s,
        None => String::from_str("None"),
    }
}

/// The authentication configuration a request asks for.
pub fn auth_from_request(
    auth_type: &Option<String>,
    username: Option<String>,
    password: Option<String>,
    cert_path: Option<String>,
    key_path: Option<String>,
) -> (r: AuthConfig)
    ensures
        auth_matches(*auth_type, username, password, cert_path, key_path, r),
{
    let is_user = match auth_type {
        Some(t) => crate::text::str_eq(t.as_str(), "UserPassword"),
        None => false,
    };
    let is_cert = match auth_type {
        Some(t) => crate::text::str_eq(t.as_str(), "Certificate"),
        None => false,
    };
    if is_user {
        AuthConfig::UserPassword { username: unwrap_text(username), password: unwrap_text(password) }
    } else if is_cert {
        AuthConfig::Certificate { cert_path: unwrap_text(cert_path), key_path: unwrap_text(key_path) }
    } else {
        AuthConfig::Anonymous
    }
}

/// Adds to the connection table `connections` the configuration of a new
/// connection built from `request` under a random id, and returns the record
/// that reports it: security policy and mode default to `None`, the timeout
/// to 5000 ms, and the new connection is `Disconnected`.
pub fn create_connection(
    connections: &mut ConnMap<ConnectionConfig>,
    request: CreateConnectionRequest,
) -> (r: ConnectionInfoDto)
    requires
        old(connections).wf(),
    ensures
        final(connections).wf(),
        final(connections)@ == old(connections)@.insert(r.id@, final(connections)@[r.id@]),
        ids::is_uuid_v4_text(r.id@),
        ({
            let c = final(connections)@[r.id@];
            &&& c.id@ == r.id@
            &&& c.name == request.name
            &&& c.endpoint_url == request.endpoint_url
            &&& c.security_policy@ == text_or_none_word(request.security_policy)
            &&& c.security_mode@ == text_or_none_word(request.security_mode)
            &&& requested_auth_config(request, c.auth)
            &&& c.timeout_ms == match request.timeout_ms {
                Some(t) => t,
                None => 5000,
            }
            &&& r.name@ == c.name@
            &&& r.endpoint_url@ == c.endpoint_url@
            &&& r.security_policy@ == c.security_policy@
            &&& r.security_mode@ == c.security_mode@
            &&& r.auth_type@ == auth_label_of(c.auth)
        }),
        r.state@ == "Disconnected"@,
{
    let id = ids::new_uuid_string();
    let auth = auth_from_request(
        &request.auth_type,
        request.username,
        request.password,
        request.cert_path,
        request.key_path,
    );
    let config = ConnectionConfig {
        id: id.clone(),
        name: request.name,
        endpoint_url: request.endpoint_url,
        security_policy: unwrap_or_none_word(request.security_policy),
        security_mode: unwrap_or_none_word(request.security_mode),
        auth,
        timeout_ms: match request.timeout_ms {
            Some(t) => t,
            None => 5000,
        },
    };
    let dto = ConnectionInfoDto {
        id: id.clone(),
        name: config.name.clone(),
        endpoint_url: config.endpoint_url.clone(),
        security_policy: config.security_policy.clone(),
        security_mode: config.security_mode.clone(),
        auth_type: String::from_str(auth_label(&config.auth)),
        state: String::from_str("Disconnected"),
    };
    connections.insert(id, config);
    dto
}

/// A connection as a project file stores it: everything but the id.
pub struct ConnectionProjectEntry {
    pub name: String,
    pub endpoint_url: String,
    pub security_policy: String,
    pub security_mode: String,
    pub auth: AuthConfig,
    pub timeout_ms: u64,
}

/// The configuration of the stored connection `e` under id `id`.
pub open spec fn config_of_entry(id: String, e: ConnectionProjectEntry) -> ConnectionConfig {
    ConnectionConfig {
        id: id,
        name: e.name,
        endpoint_url: e.endpoint_url,
        security_policy: e.security_policy,
        security_mode: e.security_mode,
        auth: e.auth,
        timeout_ms: e.timeout_ms,
    }
}

/// The connection table after the stored connections `es` were added, in
/// order, to an empty table under the ids `ids`.
pub open spec fn loaded_table(ids: Seq<String>, es: Seq<ConnectionProjectEntry>) -> Map<
    Seq<char>,
    ConnectionConfig,
>
    decreases es.len(),
{
    if es.len() == 0 || ids.len() < es.len() {
        Map::empty()
    } else {
        let n = es.len() - 1;
        loaded_table(ids.take(n), es.take(n)).insert(ids[n]@, config_of_entry(ids[n], es[n]))
    }
}

/// A copy of `a`.
fn clone_auth(a: &AuthConfig) -> (r: AuthConfig)
    ensures
        r == *a,
{
    match a {
        AuthConfig::Anonymous => AuthConfig::Anonymous,
        AuthConfig::UserPassword { username, password } => AuthConfig::UserPassword {
            username: username.clone(),
            password: password.clone(),
        },
        AuthConfig::Certificate { cert_path, key_path } => AuthConfig::Certificate {
            cert_path: cert_path.clone(),
            key_path: key_path.clone(),
        },
    }
}

/// Replaces the connection table `connections` with the connections of a
/// loaded project, each under a new random id, and returns those ids in the
/// order of `entries`.
pub fn load_connections(
    connections: &mut ConnMap<ConnectionConfig>,
    entries: &Vec<ConnectionProjectEntry>,
) -> (new_ids: Vec<String>)
    requires
        old(connections).wf(),
    ensures
        final(connections).wf(),
        new_ids@.len() == entries@.len(),
        forall|i: int| 0 <= i < new_ids@.len() ==> ids::is_uuid_v4_text(#[trigger] new_ids@[i]@),
        final(connections)@ == loaded_table(new_ids@, entries@),
{
    *connections = ConnMap::new();
    let mut new_ids: Vec<String> = Vec::new();
    let mut i: usize = 0;
    while i < entries.len()
        invariant
            i <= entries@.len(),
            new_ids@.len() == i,
            connections.wf(),
            forall|k: int| 0 <= k < new_ids@.len() ==> ids::is_uuid_v4_text(#[trigger] new_ids@[k]@),
            connections@ == loaded_table(new_ids@, entries@.take(i as int)),
        decreases entries@.len() - i,
    {
        let e = &entries[i];
        let id = ids::new_uuid_string();
        let config = ConnectionConfig {
            id: id.clone(),
            name: e.name.clone(),
            endpoint_url: e.endpoint_url.clone(),
            security_policy: e.security_policy.clone(),
            security_mode: e.security_mode.clone(),
            auth: clone_auth(&e.auth),
            timeout_ms: e.timeout_ms,
        };
        let ghost before = new_ids@;
        connections.insert(id.clone(), config);
        new_ids.push(id);
        proof {
            let es = entries@.take(i + 1);
            assert(es.take(i as int) =~= entries@.take(i as int));
            assert(new_ids@.take(i as int) =~= before);
            assert(es[i as int] == entries@[i as int]);
        }
        i = i + 1;
    }
    assert(entries@.take(entries@.len() as int) =~= entries@);
    new_ids
}

/// The authentication configuration for the authentication a dialog requested.
pub fn auth_from_req(auth: AuthKindReq) -> (r: AuthConfig)
    ensures
        match auth {
            AuthKindReq::Anonymous => r is Anonymous,
            AuthKindReq::UserPassword { username, password } => r == AuthConfig::UserPassword {
                username,
                password,
            },
            AuthKindReq::Certificate { cert_path, key_path } => r == AuthConfig::Certificate {
                cert_path,
                key_path,
            },
        },
{
    match auth {
        AuthKindReq::Anonymous => AuthConfig::Anonymous,
        AuthKindReq::UserPassword { username, password } => AuthConfig::UserPassword {
            username,
            password,
        },
        AuthKindReq::Certificate { cert_path, key_path } => AuthConfig::Certificate {
            cert_path,
            key_path,
        },
    }
}

/// The configuration of a connection the dialog asked for, under a fresh
/// random id; every other field is taken from the request.
pub fn config_from_req(req: CreateConnectionReq) -> (r: ConnectionConfig)
    ensures
        ids::is_uuid_v4_text(r.id@),
        r.name == req.name,
        r.endpoint_url == req.endpoint_url,
        r.security_policy == req.security_policy,
        r.security_mode == req.security_mode,
        r.timeout_ms == req.timeout_ms,
        match req.auth {
            AuthKindReq::Anonymous => r.auth is Anonymous,
            AuthKindReq::UserPassword { username, password } => r.auth == AuthConfig::UserPassword {
                username,
                password,
            },
            AuthKindReq::Certificate { cert_path, key_path } => r.auth == AuthConfig::Certificate {
                cert_path,
                key_path,
            },
        },
{
    let id = ids::new_uuid_string();
    ConnectionConfig {
        id,
        name: req.name,
        endpoint_url: req.endpoint_url,
        security_policy: req.security_policy,
        security_mode: req.security_mode,
        auth: auth_from_req(req.auth),
        timeout_ms: req.timeout_ms,
    }
}

} // verus!
