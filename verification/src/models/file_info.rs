//! Files as the server describes them, and the requests that name one.

use vstd::prelude::*;

verus! {

/// One file of a listing that the server sent.
#[derive(Debug)]
pub struct FileInfo {
    pub name: String,
    pub size: u64,
    pub file_type: String,
    pub last_modified: u64,
    pub path: String,
}

/// The request to delete the file at `path`.
#[derive(Debug)]
pub struct DeleteRequest {
    pub path: String,
}

/// The request to download the file at `path`.
#[derive(Debug)]
pub struct DownloadRequest {
    pub path: String,
}

impl Clone for FileInfo {
    fn clone(&self) -> (copy: Self)
        ensures
            copy == *self,
    {
        FileInfo {
            name: self.name.clone(),
            size: self.size,
            file_type: self.file_type.clone(),
            last_modified: self.last_modified,
            path: self.path.clone(),
        }
    }
}

} // verus!
