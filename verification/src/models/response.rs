//! The answer to a request, as the commands give it.

use vstd::prelude::*;

verus! {

/// A message, and the data that was asked for where there is any.
#[derive(Debug)]
pub struct ApiResponse<T> {
    pub message: String,
    pub data: Option<T>,
}

impl<T> ApiResponse<T> {
    /// The answer to a request that went well.
    pub fn success(data: Option<T>) -> (response: Self)
        ensures
            response.message@ == "Success"@,
            response.data == data,
    {
        ApiResponse { message: "Success".to_owned(), data }
    }

    /// The answer to a request that failed: the message, and no data.
    pub fn error(message: String) -> (response: Self)
        ensures
            response.message == message,
            response.data is None,
    {
        ApiResponse { message, data: None }
    }
}

} // verus!
