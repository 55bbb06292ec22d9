//! The proxy's errors, their user-facing text and the reply sent for each.

use vstd::prelude::*;

verus! {

/// What can go wrong while serving an asset.
#[derive(Debug, Clone, PartialEq, Eq)]
pub enum AppError {
    AssetNotFound,
    FailedToGetAsset,
    CacheMiss,
    Serde(String),
    Client(String),
    Asset(String),
}

/// The text shown for an error.
pub open spec fn error_text(err: AppError) -> Seq<char> {
    match err {
        AppError::CacheMiss => "Failed to fetch asset from cache"@,
        AppError::AssetNotFound => "Asset not found"@,
        AppError::FailedToGetAsset => "Failed to fetch asset"@,
        AppError::Serde(_) => "Failed to decode response"@,
        AppError::Client(_) => "Failed to make request"@,
        AppError::Asset(_) => "Failed to fetch asset"@,
    }
}

impl AppError {
    /// The text shown for this error.
    pub fn message(&self) -> (text: String)
        ensures
            text@ == error_text(*self),
    {
        match self {
            AppError::CacheMiss => String::from_str("Failed to fetch asset from cache"),
            AppError::AssetNotFound => String::from_str("Asset not found"),
            AppError::FailedToGetAsset => String::from_str("Failed to fetch asset"),
            AppError::Serde(_) => String::from_str("Failed to decode response"),
            AppError::Client(_) => String::from_str("Failed to make request"),
            AppError::Asset(_) => String::from_str("Failed to fetch asset"),
        }
    }
}

/// The error raised when an asset cannot be found or fetched.
pub fn not_found() -> (err: AppError)
    ensures
        err == AppError::AssetNotFound,
{
    AppError::AssetNotFound
}

/// The error raised when an asset archive cannot be read; it keeps the
/// underlying failure's text.
pub fn asset_error(message: String) -> (err: AppError)
    ensures
        err == AppError::Asset(message),
{
    AppError::Asset(message)
}

/// The body of an error reply.
pub struct ErrorMessage {
    pub code: i8,
    pub status_code: u16,
    pub message: String,
}

/// The application code of the reply to `err`.
pub open spec fn reply_code(err: AppError) -> i8 {
    if err is AssetNotFound {
        -4i8
    } else {
        -5i8
    }
}

/// The HTTP status of the reply to `err`: 404 for a missing asset, 500 otherwise.
pub open spec fn reply_status(err: AppError) -> u16 {
    if err is AssetNotFound {
        404
    } else {
        500
    }
}

/// The reply sent to a client whose request failed with `err`.
pub fn error_reply(err: &AppError) -> (reply: ErrorMessage)
    ensures
        reply.code == reply_code(*err),
        reply.status_code == reply_status(*err),
        reply.message@ == error_text(*err),
{
    let (code, status_code): (i8, u16) = match err {
        AppError::AssetNotFound => (-4, 404),
        _ => (-5, 500),
    };
    ErrorMessage { code, status_code, message: err.message() }
}

} // verus!
