//! The envelopes that answers are wrapped in.

use vstd::prelude::*;

verus! {

/// An answer with its status, `"success"` or `"error"`, a message and, where
/// there is any, data.
#[derive(Debug)]
pub struct ApiResponse<T> {
    pub status: String,
    pub message: String,
    pub data: Option<T>,
}

impl<T> ApiResponse<T> {
    /// An answer with the status `"success"`.
    pub fn success(message: &str, data: Option<T>) -> (response: ApiResponse<T>)
        ensures
            response.status@ == "success"@,
            response.message@ == message@,
            response.data == data,
    {
        ApiResponse { status: "success".to_owned(), message: message.to_owned(), data }
    }

    /// An answer with the status `"error"`.
    pub fn error(message: &str, data: Option<T>) -> (response: ApiResponse<T>)
        ensures
            response.status@ == "error"@,
            response.message@ == message@,
            response.data == data,
    {
        ApiResponse { status: "error".to_owned(), message: message.to_owned(), data }
    }
}

/// An error with a status code and, where there are any, details.
#[derive(Debug)]
pub struct DetailedErrorResponse {
    pub code: u16,
    pub message: String,
    pub details: Option<String>,
}

/// One page of a longer list: the items of the page, the number of items in
/// the whole list, the number of the page and how many items a page holds.
#[derive(Debug)]
pub struct PaginatedResponse<T> {
    pub items: Vec<T>,
    pub total: u64,
    pub page: u32,
    pub page_size: u32,
}

} // verus!
