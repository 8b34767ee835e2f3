use vstd::prelude::*;
use vstd::string::StringExecFns;

verus! {

/// The envelope of every answer of the panel's API.
pub struct ApiResponse<T> {
    pub success: bool,
    pub msg: String,
    pub obj: Option<T>,
}

impl<T> ApiResponse<T> {
    /// A successful answer carrying `data`, with the message `Success`.
    pub fn success(data: T) -> (r: Self)
        ensures
            r.success,
            r.msg@ == "Success"@,
            r.obj == Some(data),
    {
        ApiResponse { success: true, msg: String::from_str("Success"), obj: Some(data) }
    }

    /// A successful answer carrying `data`, with the message `msg`.
    pub fn success_with_msg(data: T, msg: &str) -> (r: Self)
        ensures
            r.success,
            r.msg@ == msg@,
            r.obj == Some(data),
    {
        ApiResponse { success: true, msg: String::from_str(msg), obj: Some(data) }
    }
}

impl ApiResponse<()> {
    /// A successful answer with the message `msg` and nothing else.
    pub fn success_no_data(msg: &str) -> (r: Self)
        ensures
            r.success,
            r.msg@ == msg@,
            r.obj is None,
    {
        ApiResponse { success: true, msg: String::from_str(msg), obj: None }
    }
}

/// The user on whose behalf a request runs.
pub struct AuthUser {
    pub user_id: i64,
    pub username: String,
}

/// Credentials offered at login.
pub struct LoginRequest {
    pub username: String,
    pub password: String,
}

/// The answer to a successful login.
pub struct LoginResponse {
    pub token: String,
    pub username: String,
}

/// A request to change the signed-in user's name and password.
pub struct ChangePasswordRequest {
    pub old_password: String,
    pub new_username: String,
    pub new_password: String,
}

/// A request to replace a user's credentials.
pub struct UpdateCredentialsRequest {
    pub old_username: String,
    pub old_password: String,
    pub new_username: String,
    pub new_password: String,
}

/// A request to change the panel's web root and port.
pub struct UpdateConfigReq {
    pub web_root: String,
    pub port: u16,
}

/// A freshly generated key pair for reality security.
pub struct RealityKeysResponse {
    pub private_key: String,
    pub public_key: String,
}

/// A request to check a domain as a reality target.
pub struct RealityCheckRequest {
    pub domain: String,
}

/// The outcome of checking a domain as a reality target.
pub struct RealityCheckResponse {
    pub is_valid: bool,
    pub has_tls13: bool,
    pub key_exchange: String,
    pub latency: u128,
    pub message: String,
}

/// The claims of a session token.
pub struct Claims {
    pub sub: String,
    pub username: String,
    pub password_version: i64,
    pub exp: i64,
    pub iat: i64,
}

} // verus!
