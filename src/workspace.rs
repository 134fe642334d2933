//! Workspaces of the embedding service.
use vstd::prelude::*;

use crate::error::LLMError;
use crate::lookup::{count_equal, match_name, texts, NameMatch};
use crate::text::{joined, same_text};

verus! {

/// How a workspace answers chat messages.
#[derive(Clone, Copy, Debug, PartialEq, Eq, Structural)]
pub enum ChatMode {
    /// Answers only from relevant embedded sources, without chat history.
    Query,
    /// Uses the model's general knowledge with the embeddings and a rolling history.
    Chat,
}

impl ChatMode {
    /// The mode named `s`: `chat` or `query`.
    pub fn from_name(s: &str) -> (r: Option<ChatMode>)
        ensures
            r == (if s@ == seq!['c', 'h', 'a', 't'] {
                Some(ChatMode::Chat)
            } else if s@ == seq!['q', 'u', 'e', 'r', 'y'] {
                Some(ChatMode::Query)
            } else {
                None
            }),
    {
        proof {
            reveal_strlit("chat");
            reveal_strlit("query");
            assert("chat"@ =~= seq!['c', 'h', 'a', 't']);
            assert("query"@ =~= seq!['q', 'u', 'e', 'r', 'y']);
        }
        if same_text(s, "chat") {
            Some(ChatMode::Chat)
        } else if same_text(s, "query") {
            Some(ChatMode::Query)
        } else {
            None
        }
    }

    /// The name of the mode on the wire.
    pub fn name(&self) -> (r: &'static str)
        ensures
            r@ == (match self {
                ChatMode::Chat => seq!['c', 'h', 'a', 't'],
                ChatMode::Query => seq!['q', 'u', 'e', 'r', 'y'],
            }),
    {
        proof {
            reveal_strlit("chat");
            reveal_strlit("query");
        }
        match self {
            ChatMode::Chat => "chat",
            ChatMode::Query => "query",
        }
    }
}

/// A workspace: a named container into which documents are embedded.
#[derive(Clone, Debug)]
pub struct Workspace {
    pub id: u32,
    pub name: String,
    pub slug: String,
    pub chat_mode: ChatMode,
}

impl Workspace {
    /// A copy of this workspace, equal to it.
    pub fn duplicate(&self) -> (r: Workspace)
        ensures
            r == *self,
    {
        Workspace {
            id: self.id,
            name: self.name.clone(),
            slug: self.slug.clone(),
            chat_mode: self.chat_mode,
        }
    }
}

/// The metadata the service keeps with an embedded document.
#[derive(Clone, Debug)]
pub struct WorkspaceDocumentMetadata {
    pub id: String,
    pub url: String,
    pub title: String,
    pub doc_author: String,
    pub doc_source: String,
    pub chunk_source: String,
    pub description: String,
    pub word_count: u32,
}

/// The names of `workspaces`, in order.
pub open spec fn workspace_names(workspaces: Seq<Workspace>) -> Seq<Seq<char>> {
    workspaces.map_values(|w: Workspace| w.name@)
}

/// The workspace whose name is exactly `name`: an error naming `name` when
/// none has it or when several do.
pub fn workspace_by_name(workspaces: &Vec<Workspace>, name: &str) -> (r: Result<Workspace, LLMError>)
    ensures
        count_equal(workspace_names(workspaces@), name@) == 0 <==> (r matches Err(
            LLMError::WorkspaceIdError(n),
        ) && n@ == name@),
        count_equal(workspace_names(workspaces@), name@) >= 2 <==> (r matches Err(
            LLMError::MultipleWorkspacesError(n),
        ) && n@ == name@),
        count_equal(workspace_names(workspaces@), name@) == 1 <==> r is Ok,
        r matches Ok(w) ==> exists|i: int|
            0 <= i < workspaces@.len() && #[trigger] workspaces@[i] == w && w.name@ == name@,
{
    let mut names: Vec<String> = Vec::new();
    let mut i: usize = 0;
    while i < workspaces.len()
        invariant
            i <= workspaces@.len(),
            names@.len() == i,
            texts(names@) == workspace_names(workspaces@).subrange(0, i as int),
        decreases workspaces@.len() - i,
    {
        let ghost prev = names@;
        let n = workspaces[i].name.clone();
        names.push(n);
        assert(names@.len() == i + 1);
        assert(names@[i as int] == workspaces@[i as int].name);
        assert forall|k: int| 0 <= k < i + 1 implies #[trigger] texts(names@)[k]
            == workspace_names(workspaces@)[k] by {
            if k < i {
                assert(names@[k] == prev[k]);
                assert(texts(prev)[k] == workspace_names(workspaces@).subrange(0, i as int)[k]);
            }
        }
        assert(texts(names@) =~= workspace_names(workspaces@).subrange(0, i + 1));
        i += 1;
    }
    assert(texts(names@) =~= workspace_names(workspaces@));
    match match_name(&names, name) {
        NameMatch::Absent => Err(LLMError::WorkspaceIdError(name.to_owned())),
        NameMatch::Ambiguous => Err(LLMError::MultipleWorkspacesError(name.to_owned())),
        NameMatch::Unique(k) => {
            assert(workspace_names(workspaces@)[k as int] == workspaces@[k as int].name@);
            Ok(workspaces[k].duplicate())
        },
    }
}

/// The name of the workspace that receives a source: `<prefix>-<source name>`.
pub fn workspace_name(prefix: &str, source_name: &str) -> (r: String)
    ensures
        r@ == prefix@ + seq!['-'] + source_name@,
{
    let s = joined(prefix, "-");
    proof {
        reveal_strlit("-");
    }
    joined(s.as_str(), source_name)
}

/// The rows of a table of workspace names, one name per row, in order.
pub fn data_from_workspaces(workspaces: &Vec<Workspace>) -> (r: Vec<Vec<String>>)
    ensures
        r@.len() == workspaces@.len(),
        forall|i: int|
            0 <= i < r@.len() ==> (#[trigger] r@[i])@.len() == 1 && r@[i]@[0] == workspaces@[i].name,
{
    let mut rows: Vec<Vec<String>> = Vec::new();
    let mut i: usize = 0;
    while i < workspaces.len()
        invariant
            i <= workspaces@.len(),
            rows@.len() == i,
            forall|k: int|
                0 <= k < i ==> (#[trigger] rows@[k])@.len() == 1 && rows@[k]@[0]
                    == workspaces@[k].name,
        decreases workspaces@.len() - i,
    {
        let mut row: Vec<String> = Vec::new();
        row.push(workspaces[i].name.clone());
        rows.push(row);
        i += 1;
    }
    rows
}

} // verus!
