//! The "new connection" dialog: its form state and the validation that turns
//! it into a connection request.

use vstd::prelude::*;

use crate::master_events::{AuthKindReq, CreateConnectionReq};
use crate::text;

verus! {

/// How the dialog's connection authenticates.
#[derive(Debug, Clone, Copy, PartialEq, Eq, Structural)]
pub enum AuthKind {
    Anonymous,
    UserPassword,
    Certificate,
}

impl AuthKind {
    /// The name shown for this kind in the dialog.
    pub fn label(self) -> (r: &'static str)
        ensures
            r@ == match self {
                AuthKind::Anonymous => "Anonymous"@,
                AuthKind::UserPassword => "UserPassword"@,
                AuthKind::Certificate => "Certificate"@,
            },
    {
        match self {
            AuthKind::Anonymous => "Anonymous",
            AuthKind::UserPassword => "UserPassword",
            AuthKind::Certificate => "Certificate",
        }
    }
}

/// Form state of the dialog.
pub struct ConnDialogState {
    pub name: String,
    pub endpoint_url: String,
    pub security_policy: String,
    pub security_mode: String,
    pub auth: AuthKind,
    pub username: String,
    pub password: String,
    pub cert_path: String,
    pub key_path: String,
    pub timeout_ms: u64,
    pub error: Option<String>,
}

/// Message shown when the name is blank.
pub open spec fn msg_name_blank() -> Seq<char> {
    "连接名不能为空"@
}

/// Message shown when the endpoint URL is blank.
pub open spec fn msg_url_blank() -> Seq<char> {
    "Endpoint URL 不能为空"@
}

/// Message shown when user/password authentication has a blank user name.
pub open spec fn msg_user_blank() -> Seq<char> {
    "用户名不能为空"@
}

/// Message shown when certificate authentication lacks a certificate or key path.
pub open spec fn msg_cert_blank() -> Seq<char> {
    "证书与私钥路径都不能为空"@
}

/// The first problem found in `s`, in the order the dialog checks them.
pub open spec fn validation_error(s: ConnDialogState) -> Option<Seq<char>> {
    if text::is_blank(s.name@) {
        Some(msg_name_blank())
    } else if text::is_blank(s.endpoint_url@) {
        Some(msg_url_blank())
    } else {
        match s.auth {
            AuthKind::Anonymous => None,
            AuthKind::UserPassword => if text::is_blank(s.username@) {
                Some(msg_user_blank())
            } else {
                None
            },
            AuthKind::Certificate => if text::is_blank(s.cert_path@) || text::is_blank(s.key_path@) {
                Some(msg_cert_blank())
            } else {
                None
            },
        }
    }
}

/// The authentication a valid form requests.
pub open spec fn requested_auth(s: ConnDialogState, a: AuthKindReq) -> bool {
    match s.auth {
        AuthKind::Anonymous => a is Anonymous,
        AuthKind::UserPassword => a matches AuthKindReq::UserPassword { username, password } && username
            == s.username && password == s.password,
        AuthKind::Certificate => a matches AuthKindReq::Certificate { cert_path, key_path }
            && cert_path == s.cert_path && key_path == s.key_path,
    }
}

/// A dialog as first opened: a placeholder name and local endpoint, no
/// security, anonymous, empty credentials, a 5000 ms timeout, no error.
pub open spec fn is_fresh_dialog(r: ConnDialogState) -> bool {
    &&& r.name@ == "New Connection"@
    &&& r.endpoint_url@ == "opc.tcp://localhost:4840"@
    &&& r.security_policy@ == "None"@
    &&& r.security_mode@ == "None"@
    &&& r.auth == AuthKind::Anonymous
    &&& r.username@.len() == 0
    &&& r.password@.len() == 0
    &&& r.cert_path@.len() == 0
    &&& r.key_path@.len() == 0
    &&& r.timeout_ms == 5000
    &&& r.error is None
}

impl Default for ConnDialogState {
    fn default() -> (r: Self)
        ensures
            is_fresh_dialog(r),
            r.name@ == "New Connection"@,
            r.endpoint_url@ == "opc.tcp://localhost:4840"@,
            r.security_policy@ == "None"@,
            r.security_mode@ == "None"@,
            r.auth == AuthKind::Anonymous,
            r.username@.len() == 0,
            r.password@.len() == 0,
            r.cert_path@.len() == 0,
            r.key_path@.len() == 0,
            r.timeout_ms == 5000,
            r.error is None,
    {
        ConnDialogState {
            name: String::from_str("New Connection"),
            endpoint_url: String::from_str("opc.tcp://localhost:4840"),
            security_policy: String::from_str("None"),
            security_mode: String::from_str("None"),
            auth: AuthKind::Anonymous,
            username: String::new(),
            password: String::new(),
            cert_path: String::new(),
            key_path: String::new(),
            timeout_ms: 5000,
            error: None,
        }
    }
}

impl ConnDialogState {
    /// Checks the form and builds the request.  Name and endpoint URL must
    /// not be blank; user/password authentication needs a user name and
    /// certificate authentication needs both paths.  The request carries the
    /// trimmed name and URL and every other field unchanged.
    pub fn validate(&self) -> (r: Result<CreateConnectionReq, String>)
        ensures
            r is Err <==> validation_error(*self) is Some,
            r matches Err(e) ==> Some(e@) == validation_error(*self),
            r matches Ok(req) ==> {
                &&& req.name@ == text::trim(self.name@)
                &&& req.endpoint_url@ == text::trim(self.endpoint_url@)
                &&& req.security_policy == self.security_policy
                &&& req.security_mode == self.security_mode
                &&& requested_auth(*self, req.auth)
                &&& req.timeout_ms == self.timeout_ms
            },
    {
        if crate::text::is_blank_str(self.name.as_str()) {
            return Err(String::from_str("连接名不能为空"));
        }
        if crate::text::is_blank_str(self.endpoint_url.as_str()) {
            return Err(String::from_str("Endpoint URL 不能为空"));
        }
        let auth = match self.auth {
            AuthKind::Anonymous => AuthKindReq::Anonymous,
            AuthKind::UserPassword => {
                if crate::text::is_blank_str(self.username.as_str()) {
                    return Err(String::from_str("用户名不能为空"));
                }
                AuthKindReq::UserPassword {
                    username: self.username.clone(),
                    password: self.password.clone(),
                }
            },
            AuthKind::Certificate => {
                if crate::text::is_blank_str(self.cert_path.as_str())
                    || crate::text::is_blank_str(self.key_path.as_str()) {
                    return Err(String::from_str("证书与私钥路径都不能为空"));
                }
                AuthKindReq::Certificate {
                    cert_path: self.cert_path.clone(),
                    key_path: self.key_path.clone(),
                }
            },
        };
        Ok(
            CreateConnectionReq {
                name: crate::text::trim_string(self.name.as_str()),
                endpoint_url: crate::text::trim_string(self.endpoint_url.as_str()),
                security_policy: self.security_policy.clone(),
                security_mode: self.security_mode.clone(),
                auth,
                timeout_ms: self.timeout_ms,
            },
        )
    }

    /// The confirm button: when the form is valid, returns the request to
    /// send (the dialog then closes) and leaves the form as it is; otherwise
    /// returns `None` and shows the problem in the dialog, which stays open.
    pub fn confirm(&mut self) -> (r: Option<CreateConnectionReq>)
        ensures
            r is Some <==> validation_error(*old(self)) is None,
            r matches Some(req) ==> {
                &&& *final(self) == *old(self)
                &&& req.name@ == text::trim(old(self).name@)
                &&& req.endpoint_url@ == text::trim(old(self).endpoint_url@)
                &&& req.security_policy == old(self).security_policy
                &&& req.security_mode == old(self).security_mode
                &&& requested_auth(*old(self), req.auth)
                &&& req.timeout_ms == old(self).timeout_ms
            },
            r is None ==> {
                &&& final(self).error matches Some(e) && Some(e@) == validation_error(*old(self))
                &&& *final(self) == (ConnDialogState { error: final(self).error, ..*old(self) })
            },
    {
        match self.validate() {
            Ok(req) => Some(req),
            Err(e) => {
                self.error = Some(e);
                None
            },
        }
    }
}

} // verus!
