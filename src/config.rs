//! Settings and the shape of the command line.
use vstd::prelude::*;

use crate::error::{llm_message, LLMError};
use crate::text::joined;

verus! {

/// Connection settings for the reference library and the embedding service.
#[derive(Clone, Debug)]
pub struct Config {
    pub zotero_user_id: String,
    pub zotero_api_key: String,
    pub zotero_library_root_path: String,
    pub anythingllm_api_key: String,
    pub anythingllm_ip: String,
    pub anythingllm_port: String,
}

/// The command line of the tool.
#[derive(Clone, Debug)]
pub struct Cli {
    pub command: Commands,
}

/// The commands of the tool.
#[derive(Clone, Debug)]
pub enum Commands {
    /// Create a new workspace.
    Create { workspace_name: String },
    /// List all workspaces.
    List {},
    /// Delete one workspace, or all of them.
    Delete { workspace_name: Option<String>, all: bool },
    /// Import items into a workspace from a source.
    Import { source: SourceType, source_name: String },
    /// Chat with a workspace.
    Chat { workspace_name: String },
    /// Query a workspace.
    Query { workspace_name: String },
    /// Manage the reference library's collections.
    Zotero { command: ZoteroCmd },
    /// Configure the tool.
    Config {},
}

/// The collection commands.
#[derive(Clone, Debug)]
pub enum ZoteroCmd {
    /// List all collections.
    ListCollections,
    /// Enhance a collection.
    Enhance { collection_name: String },
}

/// Where imported items come from.
#[derive(Clone, Copy, Debug, PartialEq, Eq, Structural)]
pub enum SourceType {
    Zotero,
    Folder,
    Item,
}

/// The errors of the command layer.
#[derive(Clone, Debug)]
pub enum AppError {
    WorkspaceIdError(u8),
    DocumentNotFoundError(String),
    DocumentExistsError(String),
    DocumentAddError(String),
    CommandError(String),
}

/// The base address of the embedding service's API: `http://<ip>:<port>/api/v1`.
pub fn api_base_url(ip: &str, port: &str) -> (r: String)
    ensures
        r@ == "http://"@ + ip@ + ":"@ + port@ + "/api/v1"@,
{
    let s = joined("http://", ip);
    let s = joined(s.as_str(), ":");
    let s = joined(s.as_str(), port);
    joined(s.as_str(), "/api/v1")
}

/// The base address of a user's library in the reference library's API.
pub fn library_base_url(user_id: &str) -> (r: String)
    ensures
        r@ == "https://api.zotero.org/users/"@ + user_id@,
{
    joined("https://api.zotero.org/users/", user_id)
}

/// The command-layer error for a client error: the document errors keep
/// their detail, every other error becomes a command error.
pub fn app_error_from(error: LLMError) -> (r: AppError)
    ensures
        match error {
            LLMError::DocumentExistsError(s) => r == AppError::DocumentExistsError(s),
            LLMError::DocumentNotFoundWorkspaceError(s) => r == AppError::DocumentNotFoundError(s),
            _ => (r matches AppError::CommandError(m) && m@ == llm_message(error)),
        },
{
    match error {
        LLMError::DocumentExistsError(s) => AppError::DocumentExistsError(s),
        LLMError::DocumentNotFoundWorkspaceError(s) => AppError::DocumentNotFoundError(s),
        _ => AppError::CommandError(error.message()),
    }
}

} // verus!
