//! Items of the reference library and the eligibility filter.
use vstd::prelude::*;

use crate::text::{joined, opt_view, same_text};

verus! {

/// The content type of a PDF attachment.
pub const PDF_CONTENT_TYPE: &'static str = "application/pdf";

/// An author or editor of an item.
#[derive(Clone, Debug)]
pub struct Creator {
    pub first_name: String,
    pub last_name: String,
    pub creator_type: String,
}

/// A tag attached to an item.
#[derive(Clone, Debug)]
pub struct Tag {
    pub tag: String,
}

/// One entry of the reference library.
#[derive(Clone, Debug)]
pub struct Item {
    /// Unique key of the entry.
    pub key: String,
    /// Revision marker, used by the remote store for optimistic concurrency.
    pub version: i64,
    pub parent_item: Option<String>,
    pub title: String,
    /// File name of an attachment, relative to the item's storage folder.
    pub filename: Option<String>,
    /// Content kind of an attachment.
    pub content_type: Option<String>,
}

/// The envelope in which the remote store returns an item.
#[derive(Clone, Debug)]
pub struct ItemsResponse {
    pub data: Item,
}

/// The fields of an item that an update may replace.
#[derive(Clone, Debug)]
pub struct ItemUpdateData {
    pub abstract_note: Option<String>,
    pub tags: Option<Vec<Tag>>,
    pub title: Option<String>,
    pub creators: Option<Vec<Creator>>,
}

impl Default for ItemUpdateData {
    fn default() -> (r: ItemUpdateData)
        ensures
            r.abstract_note.is_none(),
            r.tags.is_none(),
            r.title.is_none(),
            r.creators.is_none(),
    {
        ItemUpdateData { abstract_note: None, tags: None, title: None, creators: None }
    }
}

/// An item is eligible for a target kind when it references a file and its
/// content kind is exactly that kind.
pub open spec fn eligible(item: Item, kind: Seq<char>) -> bool {
    &&& item.filename.is_some()
    &&& opt_view(item.content_type) == Some(kind)
}

/// The file of an attachment under a library root: `<root>/<key>/<filename>`.
pub open spec fn file_path_under(root: Seq<char>, key: Seq<char>, name: Seq<char>) -> Seq<char> {
    root + seq!['/'] + key + seq!['/'] + name
}

/// A copy of an optional string.
fn copy_opt(o: &Option<String>) -> (r: Option<String>)
    ensures
        r == *o,
{
    match o {
        Some(s) => Some(s.clone()),
        None => None,
    }
}

impl Item {
    /// A copy of this item, equal to it.
    pub fn duplicate(&self) -> (r: Item)
        ensures
            r == *self,
    {
        Item {
            key: self.key.clone(),
            version: self.version,
            parent_item: copy_opt(&self.parent_item),
            title: self.title.clone(),
            filename: copy_opt(&self.filename),
            content_type: copy_opt(&self.content_type),
        }
    }

    /// Whether the content kind of the item is exactly `kind`.
    pub open spec fn has_kind(&self, kind: Seq<char>) -> bool {
        opt_view(self.content_type) == Some(kind)
    }

    /// Whether this item is a PDF attachment.
    pub fn is_pdf(&self) -> (r: bool)
        ensures
            r == self.has_kind(PDF_CONTENT_TYPE@),
    {
        match &self.content_type {
            Some(ct) => same_text(ct.as_str(), PDF_CONTENT_TYPE),
            None => false,
        }
    }

    /// Whether this item qualifies for upload as an item of kind `kind`.
    /// A missing file name or content kind makes it ineligible.
    pub fn is_eligible(&self, kind: &str) -> (r: bool)
        ensures
            r == eligible(*self, kind@),
    {
        if self.filename.is_none() {
            return false;
        }
        match &self.content_type {
            Some(ct) => same_text(ct.as_str(), kind),
            None => false,
        }
    }

    /// The path of the attachment's file under the library root `root`, for a
    /// PDF attachment with a file name; `None` otherwise.
    pub fn filepath(&self, root: &str) -> (r: Option<String>)
        ensures
            r.is_some() <==> (self.has_kind(PDF_CONTENT_TYPE@) && self.filename.is_some()),
            r.is_some() ==> r.unwrap()@ == file_path_under(
                root@,
                self.key@,
                self.filename.unwrap()@,
            ),
    {
        if !self.is_pdf() {
            return None;
        }
        match &self.filename {
            Some(name) => {
                let p = joined(root, "/");
                let p = joined(p.as_str(), self.key.as_str());
                let p = joined(p.as_str(), "/");
                let p = joined(p.as_str(), name.as_str());
                proof {
                    reveal_strlit("/");
                }
                Some(p)
            },
            None => None,
        }
    }
}

impl ItemsResponse {
    /// Whether the enveloped item is a PDF attachment.
    pub fn is_pdf(&self) -> (r: bool)
        ensures
            r == self.data.has_kind(PDF_CONTENT_TYPE@),
    {
        self.data.is_pdf()
    }

    /// The path of the enveloped attachment's file under `root`.
    pub fn filepath(&self, root: &str) -> (r: Option<String>)
        ensures
            r.is_some() <==> (self.data.has_kind(PDF_CONTENT_TYPE@) && self.data.filename.is_some()),
            r.is_some() ==> r.unwrap()@ == file_path_under(
                root@,
                self.data.key@,
                self.data.filename.unwrap()@,
            ),
    {
        self.data.filepath(root)
    }
}

/// The files of the PDF attachments `pdfs` under the library root `root`, in order.
pub fn file_paths(pdfs: &Vec<Item>, root: &str) -> (r: Vec<String>)
    requires
        forall|i: int|
            0 <= i < pdfs@.len() ==> (#[trigger] pdfs@[i]).has_kind(PDF_CONTENT_TYPE@)
                && pdfs@[i].filename.is_some(),
    ensures
        r@.len() == pdfs@.len(),
        forall|i: int|
            0 <= i < r@.len() ==> (#[trigger] r@[i])@ == file_path_under(
                root@,
                pdfs@[i].key@,
                pdfs@[i].filename.unwrap()@,
            ),
{
    let mut out: Vec<String> = Vec::new();
    let mut i: usize = 0;
    while i < pdfs.len()
        invariant
            i <= pdfs@.len(),
            out@.len() == i,
            forall|k: int|
                0 <= k < pdfs@.len() ==> (#[trigger] pdfs@[k]).has_kind(PDF_CONTENT_TYPE@)
                    && pdfs@[k].filename.is_some(),
            forall|k: int|
                0 <= k < i ==> (#[trigger] out@[k])@ == file_path_under(
                    root@,
                    pdfs@[k].key@,
                    pdfs@[k].filename.unwrap()@,
                ),
        decreases pdfs@.len() - i,
    {
        assert(pdfs@[i as int].has_kind(PDF_CONTENT_TYPE@));
        match pdfs[i].filepath(root) {
            Some(p) => out.push(p),
            None => {
                assert(false);
                return out;
            },
        }
        i += 1;
    }
    out
}

/// The items of `items` that are eligible for kind `kind`, in their order.
pub fn eligible_items(items: &Vec<Item>, kind: &str) -> (r: Vec<Item>)
    ensures
        r@ == items@.filter(|i: Item| eligible(i, kind@)),
{
    let mut out: Vec<Item> = Vec::new();
    let mut i: usize = 0;
    while i < items.len()
        invariant
            i <= items@.len(),
            out@ == items@.subrange(0, i as int).filter(|x: Item| eligible(x, kind@)),
        decreases items@.len() - i,
    {
        proof {
            reveal(Seq::filter);
            assert(items@.subrange(0, i + 1).drop_last() == items@.subrange(0, i as int));
        }
        if items[i].is_eligible(kind) {
            out.push(items[i].duplicate());
        }
        i += 1;
    }
    assert(items@.subrange(0, items@.len() as int) == items@);
    out
}

} // verus!
