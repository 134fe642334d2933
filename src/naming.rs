//! The names under which the embedding service files uploaded documents.
use vstd::prelude::*;

use crate::error::LLMError;

verus! {

/// What `Regex::new(pattern)` followed by `replace_all(text, rep)` gives:
/// `None` when `pattern` is not a valid expression.
pub uninterp spec fn regex_replace_all(pattern: Seq<char>, text: Seq<char>, rep: Seq<char>) -> Option<Seq<char>>;

/// What `Regex::new(pattern)` followed by `replace(text, rep)`, which replaces
/// the first match only, gives: `None` when `pattern` is not a valid expression.
pub uninterp spec fn regex_replace_first(pattern: Seq<char>, text: Seq<char>, rep: Seq<char>) -> Option<Seq<char>>;

/// Relies on regex's `Regex::new` and `Regex::replace_all`: the result
/// depends on the pattern, the text and the replacement alone.
#[verifier::external_body]
fn replace_all_matches(pattern: &str, text: &str, rep: &str) -> (r: Option<String>)
    ensures
        r.is_some() == regex_replace_all(pattern@, text@, rep@).is_some(),
        r matches Some(s) ==> s@ == regex_replace_all(pattern@, text@, rep@).unwrap(),
{
    match regex::Regex::new(pattern) {
        Ok(re) => Some(re.replace_all(text, rep).into_owned()),
        Err(_) => None,
    }
}

/// Relies on regex's `Regex::new` and `Regex::replace`: the result depends
/// on the pattern, the text and the replacement alone.
#[verifier::external_body]
fn replace_first_match(pattern: &str, text: &str, rep: &str) -> (r: Option<String>)
    ensures
        r.is_some() == regex_replace_first(pattern@, text@, rep@).is_some(),
        r matches Some(s) ==> s@ == regex_replace_first(pattern@, text@, rep@).unwrap(),
{
    match regex::Regex::new(pattern) {
        Ok(re) => Some(re.replace(text, rep).into_owned()),
        Err(_) => None,
    }
}

/// `s` with each non-overlapping occurrence of `from`, scanning from the
/// left, replaced by `to`.
pub open spec fn replaced(s: Seq<char>, from: Seq<char>, to: Seq<char>) -> Seq<char>
    decreases s.len(),
{
    if from.len() == 0 || s.len() < from.len() {
        s
    } else if s.subrange(0, from.len() as int) == from {
        to + replaced(s.subrange(from.len() as int, s.len() as int), from, to)
    } else {
        seq![s[0]] + replaced(s.drop_first(), from, to)
    }
}

/// Relies on `str::replace`: every non-overlapping occurrence of a non-empty
/// `from`, from the left, is replaced by `to`.
#[verifier::external_body]
pub(crate) fn replace_text(s: &str, from: &str, to: &str) -> (r: String)
    requires
        from@.len() > 0,
    ensures
        r@ == replaced(s@, from@, to@),
{
    s.replace(from, to)
}

/// The last component of a `/`-separated path: what follows the last `/`.
pub open spec fn base_name(p: Seq<char>) -> Seq<char>
    decreases p.len(),
{
    if p.len() == 0 {
        p
    } else if p.last() == '/' {
        Seq::empty()
    } else {
        base_name(p.drop_last()).push(p.last())
    }
}

/// The part of `p` that follows its last `/`, or all of `p` when it has none.
pub fn path_base_name(p: &str) -> (r: &str)
    ensures
        r@ == base_name(p@),
{
    let n = p.unicode_len();
    let mut start: usize = n;
    while start > 0 && p.get_char(start - 1) != '/'
        invariant
            start <= n,
            n == p@.len(),
            forall|k: int| start <= k < n ==> p@[k] != '/',
        decreases start,
    {
        start -= 1;
    }
    proof {
        lemma_base_name_from(p@, start as int);
    }
    p.substring_char(start, n)
}

/// With no `/` at or after `start`, and a `/` just before it (or nothing
/// before it), the base name is what follows `start`.
proof fn lemma_base_name_from(p: Seq<char>, start: int)
    requires
        0 <= start <= p.len(),
        forall|k: int| start <= k < p.len() ==> p[k] != '/',
        start == 0 || p[start - 1] == '/',
    ensures
        base_name(p) == p.subrange(start, p.len() as int),
    decreases p.len(),
{
    if p.len() == 0 {
    } else if p.len() as int == start {
        assert(p.last() == '/');
    } else {
        let q = p.drop_last();
        lemma_base_name_from(q, start);
        assert(p.subrange(start, p.len() as int) == q.subrange(start, q.len() as int).push(p.last()));
    }
}

/// The internal form of an uploaded file's name: the base name of the path,
/// with runs of spaces made single, ` - ` made `-`, commas dropped and the
/// remaining spaces made `-`.
pub open spec fn wrangled_name(collapsed: Seq<char>) -> Seq<char> {
    replaced(replaced(replaced(collapsed, " - "@, "-"@), ","@, ""@), " "@, "-"@)
}

/// The name under which the service files the document at `path`; `None`
/// only if the expression that collapses runs of spaces failed to compile.
pub fn filename_from_path(name: &str) -> (r: Option<String>)
    ensures
        r.is_some() == regex_replace_all(" +"@, base_name(name@), " "@).is_some(),
        r matches Some(s) ==> s@ == wrangled_name(
            regex_replace_all(" +"@, base_name(name@), " "@).unwrap(),
        ),
{
    let base = path_base_name(name);
    match replace_all_matches(" +", base, " ") {
        Some(collapsed) => Some(wrangle_collapsed(collapsed.as_str())),
        None => None,
    }
}

/// The internal form of a file name whose runs of spaces are already single.
pub fn wrangle_collapsed(collapsed: &str) -> (r: String)
    ensures
        r@ == wrangled_name(collapsed@),
{
    proof {
        reveal_strlit(" - ");
        reveal_strlit(",");
        reveal_strlit(" ");
    }
    let s = replace_text(collapsed, " - ", "-");
    let s = replace_text(s.as_str(), ",", "");
    replace_text(s.as_str(), " ", "-")
}

/// The pattern of the suffix `-<uuid>.json` that the service appends to stored names.
pub open spec fn uuid_suffix_pattern() -> Seq<char> {
    "-[0-9a-f]{8}-[0-9a-f]{4}-[0-9a-f]{4}-[0-9a-f]{4}-[0-9a-f]{12}\\.json$"@
}

/// A stored name without its `-<uuid>.json` suffix; `None` only if that
/// suffix's expression failed to compile.
pub fn remove_uuid(s: &str) -> (r: Option<String>)
    ensures
        r.is_some() == regex_replace_first(uuid_suffix_pattern(), s@, ""@).is_some(),
        r matches Some(t) ==> t@ == regex_replace_first(uuid_suffix_pattern(), s@, ""@).unwrap(),
{
    replace_first_match("-[0-9a-f]{8}-[0-9a-f]{4}-[0-9a-f]{4}-[0-9a-f]{4}-[0-9a-f]{12}\\.json$", s, "")
}

/// The largest PDF whose title is rewritten before upload: 50 MiB.
pub const MAX_PDF_BYTES: u64 = 50 * 1024 * 1024;

/// The title given to a PDF whose path names no file.
pub const UNKNOWN_TITLE: &'static str = "UNKNOWN TITLE";

/// The title to write into the PDF at `path`, of `size` bytes, before it is
/// uploaded: its file name, or `UNKNOWN TITLE` when the path names no file.
/// A file over `MAX_PDF_BYTES` is refused.
pub fn pdf_meta_title(path: &str, size: u64) -> (r: Result<String, LLMError>)
    ensures
        size > MAX_PDF_BYTES <==> r matches Err(LLMError::FileTooLarge),
        r is Err ==> r matches Err(LLMError::FileTooLarge),
        r matches Ok(t) ==> t@ == (if base_name(path@).len() > 0 {
            base_name(path@)
        } else {
            UNKNOWN_TITLE@
        }),
{
    if size > MAX_PDF_BYTES {
        return Err(LLMError::FileTooLarge);
    }
    let base = path_base_name(path);
    if base.unicode_len() > 0 {
        Ok(base.to_owned())
    } else {
        Ok(UNKNOWN_TITLE.to_owned())
    }
}

} // verus!
