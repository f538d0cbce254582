//! Response envelopes handed to the route layer.

use vstd::prelude::*;

verus! {

/// Uniform success/error wrapper around a payload.
pub struct ApiResponse<T> {
    pub message: String,
    pub status: String,
    pub data: Option<T>,
}

impl<T> ApiResponse<T> {
    /// A success envelope: status `"200"`, the given message and payload.
    pub fn ok(message: String, data: Option<T>) -> (r: Self)
        ensures
            r.message == message,
            r.status@ == "200"@,
            r.data == data,
    {
        ApiResponse { message, status: String::from_str("200"), data }
    }

    /// An error envelope: the given status and message, no payload.
    pub fn error(status: String, message: String) -> (r: Self)
        ensures
            r.message == message,
            r.status == status,
            r.data is None,
    {
        ApiResponse { message, status, data: None }
    }
}

/// Pagination metadata attached to a paginated response.
pub struct Pagination {
    pub page: u32,
    pub per_page: u32,
    pub total: u64,
}

/// A collection payload together with its pagination metadata.
pub struct PaginatedResponse<T> {
    pub message: String,
    pub status: String,
    pub data: Vec<T>,
    pub pagination: Pagination,
}

/// An empty payload.
pub struct Empty;

} // verus!
