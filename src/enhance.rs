//! Item metadata drawn from a model's answers about a document.
use vstd::prelude::*;

use crate::item::{ItemUpdateData, Tag};
use crate::naming::{replace_text, replaced};

verus! {

/// The tag that marks an item whose metadata was filled in.
pub const ENHANCED_TAG: &'static str = "ayda";

/// How many keywords of an answer become tags.
pub const KEYWORD_TAGS: usize = 3;

/// The pieces of `s` between commas, as `str::split(',')` yields them:
/// one more piece than there are commas.
pub open spec fn comma_pieces(s: Seq<char>) -> Seq<Seq<char>>
    decreases s.len(),
{
    if s.len() == 0 {
        seq![Seq::empty()]
    } else {
        let r = comma_pieces(s.drop_last());
        if s.last() == ',' {
            r.push(Seq::empty())
        } else {
            r.update(r.len() - 1, r.last().push(s.last()))
        }
    }
}

proof fn lemma_comma_pieces_nonempty(s: Seq<char>)
    ensures
        comma_pieces(s).len() >= 1,
    decreases s.len(),
{
    if s.len() > 0 {
        lemma_comma_pieces_nonempty(s.drop_last());
    }
}

/// `s` without leading and trailing whitespace, as `str::trim` gives it.
pub uninterp spec fn trimmed(s: Seq<char>) -> Seq<char>;

/// Relies on `str::trim`: the result depends on the characters of `s` alone.
#[verifier::external_body]
fn trim_text(s: &str) -> (r: String)
    ensures
        r@ == trimmed(s@),
{
    s.trim().to_string()
}

/// The pieces of `s` between commas, in order.
pub fn split_commas(s: &str) -> (r: Vec<String>)
    ensures
        r@.len() == comma_pieces(s@).len(),
        forall|i: int| 0 <= i < r@.len() ==> (#[trigger] r@[i])@ == comma_pieces(s@)[i],
{
    let n = s.unicode_len();
    let mut pieces: Vec<String> = Vec::new();
    let mut start: usize = 0;
    let mut i: usize = 0;
    while i < n
        invariant
            n == s@.len(),
            start <= i <= n,
            pieces@.len() + 1 == comma_pieces(s@.subrange(0, i as int)).len(),
            forall|k: int|
                0 <= k < pieces@.len() ==> (#[trigger] pieces@[k])@ == comma_pieces(
                    s@.subrange(0, i as int),
                )[k],
            comma_pieces(s@.subrange(0, i as int)).last() == s@.subrange(start as int, i as int),
        decreases n - i,
    {
        let ghost t = s@.subrange(0, i + 1);
        proof {
            assert(t.drop_last() == s@.subrange(0, i as int));
            lemma_comma_pieces_nonempty(s@.subrange(0, i as int));
        }
        if s.get_char(i) == ',' {
            pieces.push(s.substring_char(start, i).to_owned());
            start = i + 1;
            proof {
                assert(s@.subrange(start as int, i + 1) =~= Seq::<char>::empty());
            }
        } else {
            proof {
                assert(s@.subrange(start as int, i + 1) =~= s@.subrange(start as int, i as int).push(
                    s@[i as int],
                ));
            }
        }
        i += 1;
    }
    assert(s@.subrange(0, n as int) =~= s@);
    pieces.push(s.substring_char(start, n).to_owned());
    pieces
}

/// The metadata drawn from a summary and a comma-separated keyword list:
/// the summary without line breaks, and up to three trimmed keywords as tags
/// followed by the marker tag.
pub fn update_data_from_answers(summary: &str, keywords: &str) -> (r: ItemUpdateData)
    ensures
        r.abstract_note matches Some(a) && a@ == replaced(summary@, seq!['\n'], Seq::empty()),
        r.title.is_none(),
        r.creators.is_none(),
        r.tags matches Some(tags) && {
            let n = if comma_pieces(keywords@).len() < 3 { comma_pieces(keywords@).len() } else { 3 };
            &&& tags@.len() == n + 1
            &&& forall|i: int| 0 <= i < n ==> (#[trigger] tags@[i]).tag@ == trimmed(
                comma_pieces(keywords@)[i],
            )
            &&& tags@[n as int].tag@ == ENHANCED_TAG@
        },
{
    proof {
        reveal_strlit("\n");
        reveal_strlit("");
        assert("\n"@ =~= seq!['\n']);
        assert(""@ =~= Seq::<char>::empty());
    }
    let note = replace_text(summary, "\n", "");
    let pieces = split_commas(keywords);
    let count: usize = if pieces.len() < KEYWORD_TAGS {
        pieces.len()
    } else {
        KEYWORD_TAGS
    };
    let mut tags: Vec<Tag> = Vec::new();
    let mut i: usize = 0;
    while i < count
        invariant
            count <= pieces@.len(),
            i <= count,
            tags@.len() == i,
            forall|k: int| 0 <= k < i ==> (#[trigger] tags@[k]).tag@ == trimmed(pieces@[k]@),
        decreases count - i,
    {
        tags.push(Tag { tag: trim_text(pieces[i].as_str()) });
        i += 1;
    }
    tags.push(Tag { tag: ENHANCED_TAG.to_owned() });
    ItemUpdateData { abstract_note: Some(note), tags: Some(tags), title: None, creators: None }
}

} // verus!
