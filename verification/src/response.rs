//! The error taxonomy of the engine and the response envelope of the
//! control API.  Every failure carries a non-empty human-readable message;
//! no operation partially succeeds silently.

use vstd::prelude::*;

verus! {

/// Why an operation failed.
#[derive(Clone, Copy, Debug, PartialEq, Eq, Structural)]
pub enum HostsError {
    /// The hosts file is in the disabled state.
    Disabled,
    /// An expected file is absent.
    NotFound,
    /// Both the active and the disabled location are populated.
    Conflict,
    /// A create request carried a malformed address or hostname.
    ValidationFailed,
    /// The underlying filesystem or privileged-execution channel failed.
    IoFailure,
    /// The bearer token is missing, invalid or expired.
    Unauthorized,
}

impl HostsError {
    /// The human-readable message of each failure.
    pub open spec fn message_s(&self) -> Seq<char> {
        match self {
            HostsError::Disabled => "Hosts file is currently disabled"@,
            HostsError::NotFound => "Hosts file not found"@,
            HostsError::Conflict => "Hosts file state is inconsistent"@,
            HostsError::ValidationFailed => "Invalid host entry fields"@,
            HostsError::IoFailure => "File operation failed"@,
            HostsError::Unauthorized => "Invalid or missing API token"@,
        }
    }

    pub fn message(&self) -> (m: String)
        ensures
            m@ == self.message_s(),
            m@.len() > 0,
    {
        proof {
            reveal_strlit("Hosts file is currently disabled");
            reveal_strlit("Hosts file not found");
            reveal_strlit("Hosts file state is inconsistent");
            reveal_strlit("Invalid host entry fields");
            reveal_strlit("File operation failed");
            reveal_strlit("Invalid or missing API token");
        }
        match self {
            HostsError::Disabled => String::from_str("Hosts file is currently disabled"),
            HostsError::NotFound => String::from_str("Hosts file not found"),
            HostsError::Conflict => String::from_str("Hosts file state is inconsistent"),
            HostsError::ValidationFailed => String::from_str("Invalid host entry fields"),
            HostsError::IoFailure => String::from_str("File operation failed"),
            HostsError::Unauthorized => String::from_str("Invalid or missing API token"),
        }
    }
}

/// The envelope of every control-API response.
#[derive(Debug)]
pub struct ApiResponse<T> {
    pub success: bool,
    pub data: Option<T>,
    pub message: Option<String>,
    pub error: Option<String>,
}

impl<T> ApiResponse<T> {
    /// Success carries no error; failure carries a non-empty error and no
    /// data.
    pub open spec fn well_formed(&self) -> bool {
        &&& (self.success <==> self.error is None)
        &&& (self.error is Some ==> self.error.unwrap()@.len() > 0)
        &&& (!self.success ==> self.data is None)
    }

    pub fn ok(data: T) -> (r: Self)
        ensures
            r.success,
            r.data == Some(data),
            r.message is None,
            r.error is None,
            r.well_formed(),
    {
        ApiResponse { success: true, data: Some(data), message: None, error: None }
    }

    pub fn ok_with_message(data: T, message: String) -> (r: Self)
        ensures
            r.success,
            r.data == Some(data),
            r.message == Some(message),
            r.error is None,
            r.well_formed(),
    {
        ApiResponse { success: true, data: Some(data), message: Some(message), error: None }
    }

    pub fn failure(error: String) -> (r: Self)
        requires
            error@.len() > 0,
        ensures
            !r.success,
            r.data is None,
            r.message is None,
            r.error == Some(error),
            r.well_formed(),
    {
        ApiResponse { success: false, data: None, message: None, error: Some(error) }
    }

    /// The envelope of a failed engine operation.
    pub fn from_error(e: &HostsError) -> (r: Self)
        ensures
            !r.success,
            r.data is None,
            r.message is None,
            r.error is Some && r.error.unwrap()@ == e.message_s(),
            r.well_formed(),
    {
        Self::failure(e.message())
    }
}

} // verus!
