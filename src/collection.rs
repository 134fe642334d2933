//! Collections of the reference library.
use itertools::Itertools;
use vstd::prelude::*;

use crate::error::ZoteroError;
use crate::lookup::{count_equal, match_name, texts, NameMatch};
use crate::text::joined;

verus! {

/// The key and name of a collection.
#[derive(Clone, Debug)]
pub struct CollectionData {
    pub key: String,
    pub name: String,
}

/// A collection of the reference library.
#[derive(Clone, Debug)]
pub struct Collection {
    pub data: CollectionData,
}

/// The key and name of a collection, as one endpoint returns them.
#[derive(Clone, Debug)]
pub struct CollectionResponseData {
    pub key: String,
    pub name: String,
}

/// The envelope in which that endpoint returns a collection.
#[derive(Clone, Debug)]
pub struct CollectionResponse {
    pub data: CollectionResponseData,
}

impl Collection {
    /// A copy of this collection, equal to it.
    pub fn duplicate(&self) -> (r: Collection)
        ensures
            r == *self,
    {
        Collection { data: CollectionData { key: self.data.key.clone(), name: self.data.name.clone() } }
    }
}

/// The lower-case form of `s`, as `str::to_lowercase` gives it.
pub uninterp spec fn lower_of(s: Seq<char>) -> Seq<char>;

/// Relies on `str::to_lowercase`: the result depends on the characters of `s` alone.
#[verifier::external_body]
fn lowercase(s: &str) -> (r: String)
    ensures
        r@ == lower_of(s@),
{
    s.to_lowercase()
}

/// `a` comes no later than `b` in the order of `Ord for String`: character by
/// character by code point, a proper prefix first.
pub open spec fn text_le(a: Seq<char>, b: Seq<char>) -> bool
    decreases a.len(),
{
    if a.len() == 0 {
        true
    } else if b.len() == 0 {
        false
    } else if (a[0] as u32) < (b[0] as u32) {
        true
    } else if a[0] == b[0] {
        text_le(a.drop_first(), b.drop_first())
    } else {
        false
    }
}

/// Relies on itertools' `Itertools::sorted`: the same strings, in ascending
/// order of `Ord for String`.
#[verifier::external_body]
fn sorted_texts(v: Vec<String>) -> (r: Vec<String>)
    ensures
        texts(r@).to_multiset() == texts(v@).to_multiset(),
        r@.len() == v@.len(),
        forall|i: int, j: int| 0 <= i < j < r@.len() ==> text_le(r@[i]@, r@[j]@),
{
    v.into_iter().sorted().collect()
}

/// The lower-case names of `cs`, in order.
pub open spec fn folded_names(cs: Seq<Collection>) -> Seq<Seq<char>> {
    cs.map_values(|c: Collection| lower_of(c.data.name@))
}

/// The first string of each row of `rows`.
pub open spec fn first_cells(rows: Seq<Vec<String>>) -> Seq<Seq<char>> {
    rows.map_values(|row: Vec<String>| row@[0]@)
}

/// The lower-case names of the collections, as a table with one name per
/// row, sorted in ascending order.
pub fn data_from_collections(collections: Vec<Collection>) -> (r: Vec<Vec<String>>)
    ensures
        r@.len() == collections@.len(),
        forall|i: int| 0 <= i < r@.len() ==> (#[trigger] r@[i])@.len() == 1,
        first_cells(r@).to_multiset() == folded_names(collections@).to_multiset(),
        forall|i: int, j: int|
            0 <= i < j < r@.len() ==> text_le((#[trigger] r@[i])@[0]@, (#[trigger] r@[j])@[0]@),
{
    let mut names: Vec<String> = Vec::new();
    let mut i: usize = 0;
    while i < collections.len()
        invariant
            i <= collections@.len(),
            names@.len() == i,
            texts(names@) == folded_names(collections@).subrange(0, i as int),
        decreases collections@.len() - i,
    {
        let ghost prev = names@;
        let n = lowercase(collections[i].data.name.as_str());
        names.push(n);
        assert forall|k: int| 0 <= k < i + 1 implies #[trigger] texts(names@)[k] == folded_names(
            collections@,
        )[k] by {
            if k < i {
                assert(names@[k] == prev[k]);
                assert(texts(prev)[k] == folded_names(collections@).subrange(0, i as int)[k]);
            }
        }
        assert(texts(names@) =~= folded_names(collections@).subrange(0, i + 1));
        i += 1;
    }
    assert(texts(names@) =~= folded_names(collections@));
    let sorted = sorted_texts(names);
    let mut rows: Vec<Vec<String>> = Vec::new();
    let mut j: usize = 0;
    while j < sorted.len()
        invariant
            j <= sorted@.len(),
            sorted@.len() == collections@.len(),
            rows@.len() == j,
            forall|k: int| 0 <= k < j ==> (#[trigger] rows@[k])@.len() == 1 && rows@[k]@[0] == sorted@[k],
        decreases sorted@.len() - j,
    {
        let mut row: Vec<String> = Vec::new();
        row.push(sorted[j].clone());
        rows.push(row);
        j += 1;
    }
    assert(first_cells(rows@) =~= texts(sorted@));
    rows
}

/// The message of a lookup that found no collection named `name`.
pub open spec fn missing_collection_message(name: Seq<char>) -> Seq<char> {
    "No collection with name "@ + name + " found"@
}

/// The message of a lookup that found several collections named `name`.
pub open spec fn ambiguous_collection_message(name: Seq<char>) -> Seq<char> {
    "Multiple collections with name "@ + name + " found"@
}

/// The collection whose lower-case name, listed in `folded`, equals
/// `folded_query`; `name` is the name as asked for, used in the error.
pub fn collection_from_folded(
    collections: &Vec<Collection>,
    folded: &Vec<String>,
    folded_query: &str,
    name: &str,
) -> (r: Result<Collection, ZoteroError>)
    requires
        folded@.len() == collections@.len(),
    ensures
        count_equal(texts(folded@), folded_query@) == 0 <==> (r matches Err(
            ZoteroError::CustomError(m),
        ) && m@ == missing_collection_message(name@)),
        count_equal(texts(folded@), folded_query@) >= 2 <==> (r matches Err(
            ZoteroError::CustomError(m),
        ) && m@ == ambiguous_collection_message(name@)),
        count_equal(texts(folded@), folded_query@) == 1 <==> r is Ok,
        r matches Ok(c) ==> exists|i: int|
            0 <= i < collections@.len() && #[trigger] collections@[i] == c && folded@[i]@
                == folded_query@,
{
    match match_name(folded, folded_query) {
        NameMatch::Absent => {
            let m = joined("No collection with name ", name);
            let m = joined(m.as_str(), " found");
            proof {
                reveal_strlit("No collection with name ");
                reveal_strlit("Multiple collections with name ");
                if m@ == ambiguous_collection_message(name@) {
                    assert(m@[0] == "Multiple collections with name "@[0]);
                }
            }
            Err(ZoteroError::CustomError(m))
        },
        NameMatch::Ambiguous => {
            let m = joined("Multiple collections with name ", name);
            let m = joined(m.as_str(), " found");
            proof {
                reveal_strlit("No collection with name ");
                reveal_strlit("Multiple collections with name ");
                if m@ == missing_collection_message(name@) {
                    assert(m@[0] == "No collection with name "@[0]);
                }
            }
            Err(ZoteroError::CustomError(m))
        },
        NameMatch::Unique(k) => Ok(collections[k].duplicate()),
    }
}

/// The collection whose name equals `name` ignoring case: an error when
/// none or several do.
pub fn collection_from_name(collections: &Vec<Collection>, name: &str) -> (r: Result<
    Collection,
    ZoteroError,
>)
    ensures
        count_equal(folded_names(collections@), lower_of(name@)) == 0 <==> (r matches Err(
            ZoteroError::CustomError(m),
        ) && m@ == missing_collection_message(name@)),
        count_equal(folded_names(collections@), lower_of(name@)) >= 2 <==> (r matches Err(
            ZoteroError::CustomError(m),
        ) && m@ == ambiguous_collection_message(name@)),
        count_equal(folded_names(collections@), lower_of(name@)) == 1 <==> r is Ok,
        r matches Ok(c) ==> exists|i: int|
            0 <= i < collections@.len() && #[trigger] collections@[i] == c && folded_names(
                collections@,
            )[i] == lower_of(name@),
{
    let mut folded: Vec<String> = Vec::new();
    let mut i: usize = 0;
    while i < collections.len()
        invariant
            i <= collections@.len(),
            folded@.len() == i,
            texts(folded@) == folded_names(collections@).subrange(0, i as int),
        decreases collections@.len() - i,
    {
        let ghost prev = folded@;
        let n = lowercase(collections[i].data.name.as_str());
        folded.push(n);
        assert forall|k: int| 0 <= k < i + 1 implies #[trigger] texts(folded@)[k] == folded_names(
            collections@,
        )[k] by {
            if k < i {
                assert(folded@[k] == prev[k]);
                assert(texts(prev)[k] == folded_names(collections@).subrange(0, i as int)[k]);
            }
        }
        assert(texts(folded@) =~= folded_names(collections@).subrange(0, i + 1));
        i += 1;
    }
    assert(texts(folded@) =~= folded_names(collections@));
    let q = lowercase(name);
    let r = collection_from_folded(collections, &folded, q.as_str(), name);
    proof {
        if r is Ok {
            let c = r->Ok_0;
            let k = choose|k: int|
                0 <= k < collections@.len() && #[trigger] collections@[k] == c && folded@[k]@ == q@;
            assert(texts(folded@)[k] == folded@[k]@);
        }
    }
    r
}

} // verus!
