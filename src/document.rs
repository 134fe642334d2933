//! Documents held by the embedding service.
use vstd::prelude::*;

use crate::text::joined;

verus! {

/// A document stored by the embedding service.
#[derive(Clone, Debug)]
pub struct Document {
    pub doc_id: String,
    pub name: Option<String>,
    pub title: Option<String>,
    pub cached: Option<bool>,
    /// Where the service keeps the document; the handle used to embed it.
    pub location: Option<String>,
}

/// The answer to a document upload.
#[derive(Clone, Debug)]
pub struct DocumentUploadResponse {
    pub success: bool,
    pub error: Option<String>,
    pub documents: Vec<DocumentUploadResponseDocuments>,
}

/// One uploaded document, as the upload answer lists it.
#[derive(Clone, Debug)]
pub struct DocumentUploadResponseDocuments {
    pub id: String,
    pub title: String,
}

/// The internal name of an uploaded document: `<title>-<id>.json`.
pub open spec fn internal_name_text(title: Seq<char>, id: Seq<char>) -> Seq<char> {
    title + seq!['-'] + id + seq!['.', 'j', 's', 'o', 'n']
}

/// The folder under which the service stores uploaded documents, with its separator.
pub open spec fn custom_documents_prefix() -> Seq<char> {
    seq!['c', 'u', 's', 't', 'o', 'm', '-', 'd', 'o', 'c', 'u', 'm', 'e', 'n', 't', 's', '/']
}

impl DocumentUploadResponseDocuments {
    /// The internal name of the document, from its title and id.
    pub fn name_internal(&self) -> (r: String)
        ensures
            r@ == internal_name_text(self.title@, self.id@),
    {
        let s = joined(self.title.as_str(), "-");
        let s = joined(s.as_str(), self.id.as_str());
        let s = joined(s.as_str(), ".json");
        proof {
            reveal_strlit("-");
            reveal_strlit(".json");
            assert(s@ =~= internal_name_text(self.title@, self.id@));
        }
        s
    }

    /// The internal path of the document: `custom-documents/<internal name>`.
    pub fn doc_filepath_internal(&self) -> (r: String)
        ensures
            r@ == custom_documents_prefix() + internal_name_text(self.title@, self.id@),
    {
        let name = self.name_internal();
        let s = joined("custom-documents/", name.as_str());
        proof {
            reveal_strlit("custom-documents/");
        }
        s
    }
}

/// An entry of the service's document tree: a folder or a file.
#[derive(Clone, Debug)]
pub struct DocumentsResponseItem {
    pub name: String,
    pub id: Option<String>,
    pub item_type: String,
    pub title: Option<String>,
}

/// The files the service holds.
#[derive(Clone, Debug)]
pub struct DocumentsResponseLocalFiles {
    pub items: Vec<DocumentsResponseItem>,
}

} // verus!
