//! The answer of the server to a request.

use crate::models::error::{ApiError, ErrorType};
use vstd::prelude::*;

verus! {

/// What the server wraps around everything it sends.
#[derive(Debug)]
pub struct ApiResponse<T> {
    pub code: i32,
    pub message: String,
    pub data: Option<T>,
}

impl<T> ApiResponse<T> {
    /// What the server sent; a network error where it sent nothing.
    pub fn into_data(self) -> (data: Result<T, ApiError>)
        ensures
            match self.data {
                Some(value) => data == Ok::<T, ApiError>(value),
                None => data is Err && data->Err_0.status_code == 0 && data->Err_0.error_type
                    == ErrorType::Network && data->Err_0.message@ == "服务器返回空数据"@,
            },
    {
        match self.data {
            Some(value) => Ok(value),
            None => Err(ApiError::network("服务器返回空数据".to_owned())),
        }
    }
}

} // verus!
