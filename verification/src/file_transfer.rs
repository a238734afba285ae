//! Errors of the file-transfer service, and what each answers over HTTP.
//!
//! The service itself — routes, sockets, request bodies — belongs to the
//! executable layer; here stand the error shapes, with the failure texts
//! they carry as plain strings, and the decision which HTTP status and
//! body each error answers with.

use vstd::prelude::*;

verus! {

/// Errors that prevent the file-transfer service from running at all.
#[derive(Debug)]
pub enum FileTransferError {
    FromIo(String),
    FromHyperError(String),
    FromAddressParseError(String),
    FromUtf8Error(String),
    /// The configured listening address is already taken.
    BindingAddressInUse { address: String },
}

/// Errors of one file-transfer request.
#[derive(Debug)]
pub enum FileTransferRequestError {
    FromIo(String),
    /// Deleting the named path failed.
    DeleteIoError { err: String, path: String },
    /// Uploading to the named path failed.
    Upload { err: String, path: String },
    /// The request names a path outside the transfer area.
    InvalidPath { path: String },
    /// The request names a path that holds no file.
    FileNotFound(String),
    /// The request path could not be read at all.
    PathRejection(String),
}

impl FileTransferError {
    /// Every service-level error answers as an internal server error.
    pub fn http_status(&self) -> (r: u16)
        ensures
            r == 500,
    {
        500
    }
}

impl FileTransferRequestError {
    /// The HTTP status a request error answers with: an internal error
    /// for faults of the service's own, forbidden for a delete or
    /// upload the file system refused, and not-found for requests
    /// naming no usable path.
    pub fn http_status(&self) -> (r: u16)
        ensures
            ({
                match self {
                    FileTransferRequestError::FromIo(..) => r == 500,
                    FileTransferRequestError::PathRejection(..) => r == 500,
                    FileTransferRequestError::DeleteIoError { .. } => r == 403,
                    FileTransferRequestError::Upload { .. } => r == 403,
                    FileTransferRequestError::InvalidPath { .. } => r == 404,
                    FileTransferRequestError::FileNotFound(..) => r == 404,
                }
            }),
    {
        match self {
            FileTransferRequestError::FromIo(..) => 500,
            FileTransferRequestError::PathRejection(..) => 500,
            FileTransferRequestError::DeleteIoError { .. } => 403,
            FileTransferRequestError::Upload { .. } => 403,
            FileTransferRequestError::InvalidPath { .. } => 404,
            FileTransferRequestError::FileNotFound(..) => 404,
        }
    }

    /// The response body: internal faults are not described to the
    /// requester, refused deletes and uploads name the path, and
    /// not-found answers name what was asked for.
    pub fn response_body(&self) -> (r: String)
        ensures
            ({
                match self {
                    FileTransferRequestError::FromIo(..) => r@ == "Internal error"@,
                    FileTransferRequestError::PathRejection(..) => r@ == "Internal error"@,
                    FileTransferRequestError::DeleteIoError { path, .. } => r@
                        == "Cannot delete path "@ + path@,
                    FileTransferRequestError::Upload { path, .. } => r@
                        == "Cannot upload to path "@ + path@,
                    FileTransferRequestError::InvalidPath { path } => r@ == "Invalid file path: "@
                        + path@,
                    FileTransferRequestError::FileNotFound(path) => r@ == "File not found: "@
                        + path@,
                }
            }),
    {
        match self {
            FileTransferRequestError::FromIo(..) => String::from_str("Internal error"),
            FileTransferRequestError::PathRejection(..) => String::from_str("Internal error"),
            FileTransferRequestError::DeleteIoError { path, .. } => {
                let mut r = String::from_str("Cannot delete path ");
                r.append(path.as_str());
                r
            },
            FileTransferRequestError::Upload { path, .. } => {
                let mut r = String::from_str("Cannot upload to path ");
                r.append(path.as_str());
                r
            },
            FileTransferRequestError::InvalidPath { path } => {
                let mut r = String::from_str("Invalid file path: ");
                r.append(path.as_str());
                r
            },
            FileTransferRequestError::FileNotFound(path) => {
                let mut r = String::from_str("File not found: ");
                r.append(path.as_str());
                r
            },
        }
    }
}

} // verus!
