use aza::collection::{data_from_collections, Collection, CollectionData};
use aza::config::{api_base_url, app_error_from, library_base_url, AppError};
use aza::error::{LLMError, ZoteroError};
use aza::item::{eligible_items, Item, ItemUpdateData, PDF_CONTENT_TYPE};
use aza::workspace::{data_from_workspaces, workspace_by_name, workspace_name, ChatMode, Workspace};

fn collection(key: &str, name: &str) -> Collection {
    Collection { data: CollectionData { key: key.to_string(), name: name.to_string() } }
}

fn workspace(id: u32, name: &str) -> Workspace {
    Workspace { id, name: name.to_string(), slug: name.to_lowercase().replace(' ', "-"), chat_mode: ChatMode::Chat }
}

fn attachment(key: &str, content_type: Option<&str>, filename: Option<&str>) -> Item {
    Item {
        key: key.to_string(),
        version: 3,
        parent_item: Some("P".to_string()),
        title: "t".to_string(),
        filename: filename.map(|s| s.to_string()),
        content_type: content_type.map(|s| s.to_string()),
    }
}

#[test]
fn collection_names_are_lowercased_and_sorted() {
    let cs = vec![collection("1", "Politics"), collection("2", "COVID"), collection("3", "climate")];
    let rows = data_from_collections(cs);
    assert_eq!(
        rows,
        vec![vec!["climate".to_string()], vec!["covid".to_string()], vec!["politics".to_string()]]
    );
    assert!(data_from_collections(Vec::new()).is_empty());
}

#[test]
fn collection_lookup_ignores_case() {
    let cs = vec![collection("A1", "Climate"), collection("B2", "COVID")];
    let c = aza::collection::collection_from_name(&cs, "covid").unwrap();
    assert_eq!(c.data.key, "B2");
    match aza::collection::collection_from_name(&cs, "invalid collection name") {
        Err(ZoteroError::CustomError(m)) => {
            assert_eq!(m, "No collection with name invalid collection name found")
        }
        other => panic!("unexpected {:?}", other),
    }
    let twice = vec![collection("A1", "Covid"), collection("B2", "COVID")];
    match aza::collection::collection_from_name(&twice, "covid") {
        Err(ZoteroError::CustomError(m)) => assert_eq!(m, "Multiple collections with name covid found"),
        other => panic!("unexpected {:?}", other),
    }
}

#[test]
fn workspace_lookup_is_exact() {
    let ws = vec![workspace(1, "zotero-climate"), workspace(2, "folder-logseq")];
    let w = workspace_by_name(&ws, "folder-logseq").unwrap();
    assert_eq!(w.id, 2);
    assert!(matches!(workspace_by_name(&ws, "Folder-Logseq"), Err(LLMError::WorkspaceIdError(n)) if n == "Folder-Logseq"));
    let dup = vec![workspace(1, "a"), workspace(2, "a")];
    assert!(matches!(workspace_by_name(&dup, "a"), Err(LLMError::MultipleWorkspacesError(n)) if n == "a"));
    assert!(matches!(workspace_by_name(&Vec::new(), "a"), Err(LLMError::WorkspaceIdError(_))));
}

#[test]
fn workspace_rows_and_names() {
    let ws = vec![workspace(1, "b"), workspace(2, "a")];
    assert_eq!(data_from_workspaces(&ws), vec![vec!["b".to_string()], vec!["a".to_string()]]);
    assert_eq!(workspace_name("zotero", "climate"), "zotero-climate");
    assert_eq!(workspace_name("folder", ""), "folder-");
}

#[test]
fn chat_mode_names() {
    assert_eq!(ChatMode::from_name("chat"), Some(ChatMode::Chat));
    assert_eq!(ChatMode::from_name("query"), Some(ChatMode::Query));
    assert_eq!(ChatMode::from_name("Chat"), None);
    assert_eq!(ChatMode::Query.name(), "query");
    assert_eq!(ChatMode::Chat.name(), "chat");
}

#[test]
fn pdf_and_eligibility() {
    let a = attachment("K", Some("application/pdf"), Some("paper.pdf"));
    let no_file = attachment("K", Some("application/pdf"), None);
    let html = attachment("K", Some("text/html"), Some("page.html"));
    let bare = attachment("K", None, None);
    assert!(a.is_pdf() && no_file.is_pdf());
    assert!(!html.is_pdf() && !bare.is_pdf());
    assert!(a.is_eligible(PDF_CONTENT_TYPE));
    assert!(!no_file.is_eligible(PDF_CONTENT_TYPE));
    assert!(html.is_eligible("text/html"));
    assert!(!bare.is_eligible(PDF_CONTENT_TYPE));
    let items = vec![a.clone(), no_file, html, bare, a];
    assert_eq!(eligible_items(&items, PDF_CONTENT_TYPE).len(), 2);
}

#[test]
fn attachment_file_path() {
    let a = attachment("ABCD1234", Some("application/pdf"), Some("Berger 2016.pdf"));
    assert_eq!(a.filepath("/home/u/Zotero/storage"), Some("/home/u/Zotero/storage/ABCD1234/Berger 2016.pdf".to_string()));
    assert_eq!(attachment("K", Some("text/html"), Some("x.html")).filepath("/r"), None);
    assert_eq!(attachment("K", Some("application/pdf"), None).filepath("/r"), None);
}

#[test]
fn base_urls() {
    assert_eq!(api_base_url("10.13.10.8", "3001"), "http://10.13.10.8:3001/api/v1");
    assert_eq!(library_base_url("user"), "https://api.zotero.org/users/user");
}

#[test]
fn client_errors_map_to_command_errors() {
    assert!(matches!(app_error_from(LLMError::DocumentExistsError("d".to_string())), AppError::DocumentExistsError(s) if s == "d"));
    assert!(matches!(app_error_from(LLMError::DocumentNotFoundWorkspaceError("d".to_string())), AppError::DocumentNotFoundError(s) if s == "d"));
    assert!(matches!(app_error_from(LLMError::BadRequest("u".to_string())), AppError::CommandError(s) if s == "Bad request: u"));
    assert!(matches!(app_error_from(LLMError::WorkspaceIdError("w".to_string())), AppError::CommandError(s) if s == "Workspace 'w' not found"));
    assert_eq!(LLMError::MultipleWorkspacesError("w".to_string()).message(), "Multiple workspaces with name w found");
    assert_eq!(LLMError::FileTooLarge.message(), "File too large");
}

#[test]
fn update_data_starts_empty() {
    let d = ItemUpdateData::default();
    assert!(d.abstract_note.is_none() && d.tags.is_none() && d.title.is_none() && d.creators.is_none());
}
