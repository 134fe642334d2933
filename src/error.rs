//! The error types of the pipeline's stages.
use vstd::prelude::*;

use crate::text::joined;

verus! {

/// Why a paged listing failed.
#[derive(Clone, Copy, Debug, PartialEq, Eq, Structural)]
pub enum FetchErrorKind {
    /// The remote store could not be reached or answered with an error status.
    Remote,
    /// A page held more items than were asked for, or reached past the total.
    MalformedPage,
}

/// A failed paged listing; fatal to the whole run.
#[derive(Clone, Debug)]
pub struct FetchError {
    pub kind: FetchErrorKind,
    pub message: String,
}

/// Why one upload failed.
#[derive(Clone, Copy, Debug, PartialEq, Eq, Structural)]
pub enum UploadErrorKind {
    /// Transport failure or an error status from the destination service.
    Transport,
    /// The item's file could not be found or read.
    MissingFile,
    /// The destination already holds the document.
    Duplicate,
    /// The upload did not finish in time.
    Timeout,
    /// The file is too large to be prepared for upload.
    TooLarge,
}

/// A failed upload of one item; recorded as data, never propagated.
#[derive(Clone, Debug)]
pub struct UploadError {
    pub kind: UploadErrorKind,
    pub reason: String,
}

/// A failed embedding commit; fatal to the embedding stage only.
#[derive(Clone, Debug)]
pub struct EmbedError {
    pub reason: String,
}

/// The errors of the embedding service's client.
#[derive(Clone, Debug)]
pub enum LLMError {
    AuthError,
    /// The transport failed.
    ReqwestError(String),
    BadRequest(String),
    ServiceError(String),
    /// No workspace has this name.
    WorkspaceIdError(String),
    /// Several workspaces have this name.
    MultipleWorkspacesError(String),
    DocumentExistsError(String),
    /// A local file could not be read.
    FileSystemError(String),
    DocumentNotFoundWorkspaceError(String),
    /// A PDF could not be loaded.
    PDFLoadError(String),
    MultipartFormError(String),
    FileTooLarge,
    CustomError(String),
    UnhandledError(String),
    Cancelled,
}

/// The message of a client error.
pub open spec fn llm_message(e: LLMError) -> Seq<char> {
    match e {
            LLMError::AuthError => "Authentication error"@,
            LLMError::ReqwestError(s) => "Request error: "@ + s@,
            LLMError::BadRequest(s) => "Bad request: "@ + s@,
            LLMError::ServiceError(s) => "Service error: "@ + s@,
            LLMError::WorkspaceIdError(s) => "Workspace '"@ + s@ + "' not found"@,
            LLMError::MultipleWorkspacesError(s) => "Multiple workspaces with name "@ + s@ + " found"@,
            LLMError::DocumentExistsError(s) => "Document exists: "@ + s@,
            LLMError::FileSystemError(_) => "Document not found on filesystem"@,
            LLMError::DocumentNotFoundWorkspaceError(s) => "Document not found in workspace: "@ + s@,
            LLMError::PDFLoadError(_) => "Failed to load PDF"@,
            LLMError::MultipartFormError(s) => "Multipart form encoding error: "@ + s@,
            LLMError::FileTooLarge => "File too large"@,
            LLMError::CustomError(s) => "Custom error: "@ + s@,
            LLMError::UnhandledError(s) => "Unhandled error: "@ + s@,
            LLMError::Cancelled => "Cancelled"@,
    }
}

impl LLMError {
    /// The message that describes this error.
    pub fn message(&self) -> (r: String)
        ensures
            r@ == llm_message(*self),
    {
        match self {
            LLMError::AuthError => String::from_str("Authentication error"),
            LLMError::ReqwestError(s) => joined("Request error: ", s.as_str()),
            LLMError::BadRequest(s) => joined("Bad request: ", s.as_str()),
            LLMError::ServiceError(s) => joined("Service error: ", s.as_str()),
            LLMError::WorkspaceIdError(s) => {
                let m = joined("Workspace '", s.as_str());
                joined(m.as_str(), "' not found")
            },
            LLMError::MultipleWorkspacesError(s) => {
                let m = joined("Multiple workspaces with name ", s.as_str());
                joined(m.as_str(), " found")
            },
            LLMError::DocumentExistsError(s) => joined("Document exists: ", s.as_str()),
            LLMError::FileSystemError(_) => String::from_str("Document not found on filesystem"),
            LLMError::DocumentNotFoundWorkspaceError(s) => joined("Document not found in workspace: ", s.as_str()),
            LLMError::PDFLoadError(_) => String::from_str("Failed to load PDF"),
            LLMError::MultipartFormError(s) => joined("Multipart form encoding error: ", s.as_str()),
            LLMError::FileTooLarge => String::from_str("File too large"),
            LLMError::CustomError(s) => joined("Custom error: ", s.as_str()),
            LLMError::UnhandledError(s) => joined("Unhandled error: ", s.as_str()),
            LLMError::Cancelled => String::from_str("Cancelled"),
        }
    }
}

/// The errors of the reference library's client.
#[derive(Clone, Debug)]
pub enum ZoteroError {
    UnhandledError(String),
    InvalidCollectionId(u8),
    InvalidWorkspaceId(u8),
    InvalidInput(u8),
    PDFPathError(String),
    DeserializationError,
    CustomError(String),
}

} // verus!
