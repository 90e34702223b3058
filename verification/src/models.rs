//! Plain request/response shells that the service layer exchanges with its
//! clients, kept apart from the crawl engine itself.

use vstd::prelude::*;

verus! {

/// Server-level configuration; read from the environment by the caller and
/// handed in as plain values.
pub struct Config {
    pub database_url: String,
    pub server_port: u16,
}

/// Payload of a user-creation call.
pub struct CreateUserRequest {
    pub name: String,
    pub email: String,
}

/// Payload of a user-update call; absent fields stay unchanged.
pub struct UpdateUserRequest {
    pub name: Option<String>,
    pub email: Option<String>,
}

/// Uniform envelope for service replies: either data with `success` set, or
/// a message with `success` cleared, never both.
pub struct ApiResponse<T> {
    pub success: bool,
    pub message: Option<String>,
    pub data: Option<T>,
}

impl<T> ApiResponse<T> {
    /// A successful reply carrying `data` and no message.
    pub fn success(data: T) -> (r: Self)
        ensures
            r.success,
            r.message is None,
            r.data == Some(data),
    {
        Self { success: true, message: None, data: Some(data) }
    }

    /// A failed reply carrying `message` and no data.
    pub fn error(message: &str) -> (r: Self)
        ensures
            !r.success,
            r.message matches Some(m) && m@ == message@,
            r.data is None,
    {
        Self { success: false, message: Some(message.to_owned()), data: None }
    }
}

} // verus!
